//! The second reader of `.ray` scene descriptions: the syntax tree of a file
//! and the typed access to its values.
use vstd::prelude::*;
use core::fmt::Debug;
use crate::error::Error;
use crate::format::sbt::{face_triangles, triangles_of};

verus! {

/// The format versions that a `.ray` file can declare.
#[derive(Copy, Clone, Debug, PartialEq, Eq)]
pub enum SbtVersion {
    Sbt0_9,
    Sbt1_0,
}

/// Whether `s` begins with `p`.
pub open spec fn starts_with(s: Seq<char>, p: Seq<char>) -> bool {
    p.len() <= s.len() && s.subrange(0, p.len() as int) == p
}

/// Whether `e` is a parse error whose message begins with `p`.
pub open spec fn parse_error_starting(e: Error, p: Seq<char>) -> bool {
    e matches Error::ParseError(m) && starts_with(m@, p)
}

/// Whether `e` is a parse error with the message `p`.
pub open spec fn parse_error_is(e: Error, p: Seq<char>) -> bool {
    e matches Error::ParseError(m) && m@ == p
}

/// `format!("{prefix}{value:?}")`: the prefix followed by what `Debug` writes
/// of the value. What `Debug` writes is not stated.
#[verifier::external_body]
fn found_message<T: Debug>(prefix: &str, value: &T) -> (r: String)
    ensures
        starts_with(r@, prefix@),
{
    format!("{prefix}{value:?}")
}

impl SbtVersion {
    /// The version named by `s`.
    pub fn from_str(s: &str) -> (r: Result<SbtVersion, Error>)
        ensures
            s@ == "0.9"@ ==> r == Ok::<SbtVersion, Error>(SbtVersion::Sbt0_9),
            s@ == "1.0"@ ==> r == Ok::<SbtVersion, Error>(SbtVersion::Sbt1_0),
            s@ != "0.9"@ && s@ != "1.0"@ ==> (r matches Err(e) && parse_error_is(e, "internal parser error"@)),
    {
        proof {
            reveal_strlit("0.9");
            reveal_strlit("1.0");
            assert("1.0"@[0] != "0.9"@[0]);
        }
        let text = String::from_str(s);
        if text == String::from_str("0.9") {
            Ok(SbtVersion::Sbt0_9)
        } else if text == String::from_str("1.0") {
            Ok(SbtVersion::Sbt1_0)
        } else {
            Err(Error::ParseError(String::from_str("internal parser error")))
        }
    }
}

/// A value in a scene description.
#[derive(Debug)]
pub enum SbtValue<'a, F> {
    Int(i64),
    Float(F),
    Str(&'a str),
    Dict(Vec<(&'a str, SbtValue<'a, F>)>),
    Tuple(Vec<SbtValue<'a, F>>),
    Block(Box<SbtBlock<'a, F>>),
    Bool(bool),
}

/// A named value: `name value`.
#[derive(Debug)]
pub struct SbtBlock<'a, F> {
    pub name: &'a str,
    pub value: SbtValue<'a, F>,
}

/// A whole scene description: its version and its top-level blocks.
#[derive(Debug)]
pub struct SbtProgram<'a, F> {
    pub version: SbtVersion,
    pub blocks: Vec<SbtBlock<'a, F>>,
}

impl<'a, F: Debug> SbtValue<'a, F> {
    /// The integer that this value is.
    pub fn integer(&self) -> (r: Result<i64, Error>)
        ensures
            self is Int ==> r == Ok::<i64, Error>(self->Int_0),
            !(self is Int) ==> (r matches Err(e) && parse_error_starting(e, "number expected, found "@)),
    {
        match self {
            SbtValue::Int(i) => Ok(*i),
            _ => Err(Error::ParseError(found_message("number expected, found ", self))),
        }
    }

    /// The truth value that this value is.
    pub fn boolean(&self) -> (r: Result<bool, Error>)
        ensures
            self is Bool ==> r == Ok::<bool, Error>(self->Bool_0),
            !(self is Bool) ==> (r matches Err(e) && parse_error_starting(e, "expected boolean, found "@)),
    {
        match self {
            SbtValue::Bool(b) => Ok(*b),
            _ => Err(Error::ParseError(found_message("expected boolean, found ", self))),
        }
    }

    /// The string that this value is.
    pub fn string(&self) -> (r: Result<&'a str, Error>)
        ensures
            self is Str ==> r == Ok::<&'a str, Error>(self->Str_0),
            !(self is Str) ==> (r matches Err(e) && parse_error_starting(e, "expected boolean, found "@)),
    {
        match self {
            SbtValue::Str(s) => Ok(*s),
            _ => Err(Error::ParseError(found_message("expected boolean, found ", self))),
        }
    }

    /// The tuple that this value is.
    pub fn tuple(&self) -> (r: Result<&Vec<SbtValue<'a, F>>, Error>)
        ensures
            self is Tuple ==> (r matches Ok(t) && *t == self->Tuple_0),
            !(self is Tuple) ==> (r matches Err(e) && parse_error_starting(e, "expected tuple, found "@)),
    {
        match self {
            SbtValue::Tuple(t) => Ok(t),
            _ => Err(Error::ParseError(found_message("expected tuple, found ", self))),
        }
    }

    /// The dictionary that this value is.
    pub fn dict(&self) -> (r: Result<&Vec<(&'a str, SbtValue<'a, F>)>, Error>)
        ensures
            self is Dict ==> (r matches Ok(d) && *d == self->Dict_0),
            !(self is Dict) ==> (r matches Err(e) && parse_error_starting(e, "expected dictionary, found "@)),
    {
        match self {
            SbtValue::Dict(d) => Ok(d),
            _ => Err(Error::ParseError(found_message("expected dictionary, found ", self))),
        }
    }
}

/// The value stored under `k`; where `k` occurs more than once, the last entry counts.
pub open spec fn lookup<'a, F>(d: Seq<(&'a str, SbtValue<'a, F>)>, k: Seq<char>) -> Option<SbtValue<'a, F>>
    decreases d.len(),
{
    if d.len() == 0 {
        None
    } else if d.last().0@ == k {
        Some(d.last().1)
    } else {
        lookup(d.drop_last(), k)
    }
}

/// The value stored under `name`.
pub fn get_result<'a, 'b, F>(d: &'b Vec<(&'a str, SbtValue<'a, F>)>, name: &str) -> (r: Result<&'b SbtValue<'a, F>, Error>)
    ensures
        lookup(d@, name@) matches Some(v) ==> (r matches Ok(x) && *x == v),
        lookup(d@, name@) is None ==> (r matches Err(Error::ParseMissingKey(m)) && m@ == name@),
{
    let key = String::from_str(name);
    let mut i = d.len();
    assert(d@.take(i as int) =~= d@);
    while i > 0
        invariant
            i <= d.len(),
            key@ == name@,
            lookup(d@, name@) == lookup(d@.take(i as int), name@),
        decreases i,
    {
        proof {
            assert(d@.take(i as int).drop_last() =~= d@.take(i - 1));
        }
        if String::from_str(d[i - 1].0) == key {
            return Ok(&d[i - 1].1);
        }
        i = i - 1;
    }
    Err(Error::ParseMissingKey(key))
}

/// The truth value stored under `name`.
pub fn dict_boolean<'a, F: Debug>(d: &Vec<(&'a str, SbtValue<'a, F>)>, name: &str) -> (r: Result<bool, Error>)
    ensures
        lookup(d@, name@) matches Some(v) ==> (v is Bool ==> r == Ok::<bool, Error>(v->Bool_0)),
        lookup(d@, name@) matches Some(v) ==> (!(v is Bool) ==> (r matches Err(e) && parse_error_starting(e, "expected boolean, found "@))),
        lookup(d@, name@) is None ==> (r matches Err(Error::ParseMissingKey(m)) && m@ == name@),
{
    match get_result(d, name) {
        Ok(v) => v.boolean(),
        Err(e) => Err(e),
    }
}

/// The string stored under `name`.
pub fn dict_string<'a, F: Debug>(d: &Vec<(&'a str, SbtValue<'a, F>)>, name: &str) -> (r: Result<&'a str, Error>)
    ensures
        lookup(d@, name@) matches Some(v) ==> (v is Str ==> r == Ok::<&'a str, Error>(v->Str_0)),
        lookup(d@, name@) matches Some(v) ==> (!(v is Str) ==> (r matches Err(e) && parse_error_starting(e, "expected boolean, found "@))),
        lookup(d@, name@) is None ==> (r matches Err(Error::ParseMissingKey(m)) && m@ == name@),
{
    match get_result(d, name) {
        Ok(v) => v.string(),
        Err(e) => Err(e),
    }
}

/// The tuple stored under `name`.
pub fn dict_tuple<'a, 'b, F: Debug>(d: &'b Vec<(&'a str, SbtValue<'a, F>)>, name: &str) -> (r: Result<&'b Vec<SbtValue<'a, F>>, Error>)
    ensures
        lookup(d@, name@) matches Some(v) ==> (v is Tuple ==> (r matches Ok(t) && *t == v->Tuple_0)),
        lookup(d@, name@) matches Some(v) ==> (!(v is Tuple) ==> (r matches Err(e) && parse_error_starting(e, "expected tuple, found "@))),
        lookup(d@, name@) is None ==> (r matches Err(Error::ParseMissingKey(m)) && m@ == name@),
{
    match get_result(d, name) {
        Ok(v) => v.tuple(),
        Err(e) => Err(e),
    }
}

/// The dictionary stored under `name`.
pub fn dict_dict<'a, 'b, F: Debug>(d: &'b Vec<(&'a str, SbtValue<'a, F>)>, name: &str) -> (r: Result<&'b Vec<(&'a str, SbtValue<'a, F>)>, Error>)
    ensures
        lookup(d@, name@) matches Some(v) ==> (v is Dict ==> (r matches Ok(x) && *x == v->Dict_0)),
        lookup(d@, name@) matches Some(v) ==> (!(v is Dict) ==> (r matches Err(e) && parse_error_starting(e, "expected dictionary, found "@))),
        lookup(d@, name@) is None ==> (r matches Err(Error::ParseMissingKey(m)) && m@ == name@),
{
    match get_result(d, name) {
        Ok(v) => v.dict(),
        Err(e) => Err(e),
    }
}

/// The string that a tuple of one string holds.
pub fn tuple_string<'a, F: Debug>(t: &Vec<SbtValue<'a, F>>) -> (r: Result<&'a str, Error>)
    ensures
        t.len() == 1 && t@[0] is Str ==> r == Ok::<&'a str, Error>(t@[0]->Str_0),
        !(t.len() == 1 && t@[0] is Str) ==> (r matches Err(e) && parse_error_starting(e, "expected vector3, found "@)),
{
    if t.len() == 1 {
        if let SbtValue::Str(s) = &t[0] {
            return Ok(*s);
        }
    }
    Err(Error::ParseError(found_message("expected vector3, found ", t)))
}

/// The three indices that a tuple of three integers holds, each taken as a
/// `usize` (wrapping below zero).
pub fn tuple_int3<'a, F: Debug>(t: &Vec<SbtValue<'a, F>>) -> (r: Result<[usize; 3], Error>)
    ensures
        t.len() != 3 ==> (r matches Err(e) && parse_error_starting(e, "expected int3, found "@)),
        t.len() == 3 && (forall|i: int| 0 <= i < 3 ==> #[trigger] t@[i] is Int) ==> (r matches Ok(a)
            && a@ == seq![(t@[0]->Int_0) as usize, (t@[1]->Int_0) as usize, (t@[2]->Int_0) as usize]),
        t.len() == 3 && !(forall|i: int| 0 <= i < 3 ==> #[trigger] t@[i] is Int) ==> (r matches Err(e)
            && parse_error_starting(e, "number expected, found "@)),
{
    if t.len() != 3 {
        return Err(Error::ParseError(found_message("expected int3, found ", t)));
    }
    let a = match t[0].integer() {
        Ok(v) => v,
        Err(e) => return Err(e),
    };
    let b = match t[1].integer() {
        Ok(v) => v,
        Err(e) => return Err(e),
    };
    let c = match t[2].integer() {
        Ok(v) => v,
        Err(e) => return Err(e),
    };
    let r = [a as usize, b as usize, c as usize];
    assert(r@ =~= seq![a as usize, b as usize, c as usize]);
    Ok(r)
}

/// The four indices that a tuple of four integers holds, each taken as a
/// `usize` (wrapping below zero).
pub fn tuple_int4<'a, F: Debug>(t: &Vec<SbtValue<'a, F>>) -> (r: Result<[usize; 4], Error>)
    ensures
        t.len() != 4 ==> (r matches Err(e) && parse_error_starting(e, "expected int4, found "@)),
        t.len() == 4 && (forall|i: int| 0 <= i < 4 ==> #[trigger] t@[i] is Int) ==> (r matches Ok(a)
            && a@ == seq![
            (t@[0]->Int_0) as usize,
            (t@[1]->Int_0) as usize,
            (t@[2]->Int_0) as usize,
            (t@[3]->Int_0) as usize,
        ]),
        t.len() == 4 && !(forall|i: int| 0 <= i < 4 ==> #[trigger] t@[i] is Int) ==> (r matches Err(e)
            && parse_error_starting(e, "number expected, found "@)),
{
    if t.len() != 4 {
        return Err(Error::ParseError(found_message("expected int4, found ", t)));
    }
    let a = match t[0].integer() {
        Ok(v) => v,
        Err(e) => return Err(e),
    };
    let b = match t[1].integer() {
        Ok(v) => v,
        Err(e) => return Err(e),
    };
    let c = match t[2].integer() {
        Ok(v) => v,
        Err(e) => return Err(e),
    };
    let d = match t[3].integer() {
        Ok(v) => v,
        Err(e) => return Err(e),
    };
    let r = [a as usize, b as usize, c as usize, d as usize];
    assert(r@ =~= seq![a as usize, b as usize, c as usize, d as usize]);
    Ok(r)
}

/// A top-level element of a scene description, as the grammar yields it.
#[derive(Debug)]
pub enum SbtItem<'a, F> {
    /// The `VERSION` token with its text.
    Version(&'a str),
    /// A named block.
    Block(SbtBlock<'a, F>),
    /// A name that stands alone; it names the dictionaries that follow.
    Ident(&'a str),
    /// A dictionary that stands alone.
    Dict(Vec<(&'a str, SbtValue<'a, F>)>),
    /// The end of the input.
    End,
    /// Any other element, by the name of its grammar rule.
    Unsupported(String),
}

/// What reading the top-level elements `items` comes to, from the version,
/// blocks and name read so far: the version and blocks, or the error, which is
/// either a bad version (`None`) or an unsupported element (its rule's name).
pub open spec fn ast_spec<'a, F>(
    items: Seq<SbtItem<'a, F>>,
    version: SbtVersion,
    blocks: Seq<SbtBlock<'a, F>>,
    name: &'a str,
) -> Result<(SbtVersion, Seq<SbtBlock<'a, F>>), Option<String>>
    decreases items.len(),
{
    if items.len() == 0 {
        Ok((version, blocks))
    } else {
        let rest = items.drop_first();
        match items[0] {
            SbtItem::Version(s) => if s@ == "0.9"@ {
                ast_spec(rest, SbtVersion::Sbt0_9, blocks, name)
            } else if s@ == "1.0"@ {
                ast_spec(rest, SbtVersion::Sbt1_0, blocks, name)
            } else {
                Err(None)
            },
            SbtItem::Block(b) => ast_spec(rest, version, blocks.push(b), name),
            SbtItem::Ident(n) => ast_spec(rest, version, blocks, n),
            SbtItem::Dict(d) => ast_spec(
                rest,
                version,
                blocks.push(SbtBlock { name: name, value: SbtValue::Dict(d) }),
                name,
            ),
            SbtItem::End => Ok((version, blocks)),
            SbtItem::Unsupported(s) => Err(Some(s)),
        }
    }
}

/// The reader of the second `.ray` format. Its functions take the text of the
/// grammar's tokens, or the top-level elements of a file.
pub struct SbtParser2 {}

impl SbtParser2 {
    /// The truth value that the text of a `boolean` token names.
    pub fn parse_boolean<'a, F>(text: &str) -> (r: Result<SbtValue<'a, F>, Error>)
        ensures
            text@ == "true"@ ==> r == Ok::<SbtValue<'a, F>, Error>(SbtValue::Bool(true)),
            text@ == "false"@ ==> r == Ok::<SbtValue<'a, F>, Error>(SbtValue::Bool(false)),
            text@ != "true"@ && text@ != "false"@ ==> (r matches Err(e) && parse_error_is(e, "internal parser error"@)),
    {
        proof {
            reveal_strlit("true");
            reveal_strlit("false");
            assert("true"@.len() != "false"@.len());
        }
        let t = String::from_str(text);
        if t == String::from_str("true") {
            Ok(SbtValue::Bool(true))
        } else if t == String::from_str("false") {
            Ok(SbtValue::Bool(false))
        } else {
            Err(Error::ParseError(String::from_str("internal parser error")))
        }
    }

    /// The text of a `string` token without the quote at each end.
    pub fn parse_string<'a, F>(val: &'a str) -> (r: Result<SbtValue<'a, F>, Error>)
        requires
            val@.len() >= 2,
            (val@[0] as u32) < 128,
            (val@[val@.len() - 1] as u32) < 128,
        ensures
            r matches Ok(v) && v is Str && v->Str_0@ == val@.subrange(1, val@.len() - 1),
    {
        let n = val.unicode_len();
        let inner = val.substring_char(1, n - 1);
        Ok(SbtValue::Str(inner))
    }

    /// Builds the syntax tree of a whole file from its top-level elements. The
    /// version is 1.0 unless the file names another; a dictionary that stands
    /// alone becomes a block named by the last name that stood alone before it.
    pub fn ast<'a, F>(items: Vec<SbtItem<'a, F>>) -> (r: Result<SbtProgram<'a, F>, Error>)
        ensures
            ast_spec(items@, SbtVersion::Sbt1_0, Seq::empty(), "") matches Ok((v, b)) ==> (r matches Ok(p)
                && p.version == v && p.blocks@ == b),
            ast_spec(items@, SbtVersion::Sbt1_0, Seq::empty(), "") matches Err(None) ==> (r matches Err(e)
                && parse_error_is(e, "internal parser error"@)),
            ast_spec(items@, SbtVersion::Sbt1_0, Seq::empty(), "") matches Err(Some(s)) ==> (r matches Err(
                Error::ParseUnsupported(m),
            ) && m == s),
    {
        let ghost all = items@;
        let mut rest = items;
        let mut prog = SbtProgram { version: SbtVersion::Sbt1_0, blocks: Vec::new() };
        let mut name: &'a str = "";
        proof {
            assert(prog.blocks@ =~= Seq::<SbtBlock<'a, F>>::empty());
        }
        while rest.len() > 0
            invariant
                all == items@,
                ast_spec(all, SbtVersion::Sbt1_0, Seq::empty(), "") == ast_spec(
                    rest@,
                    prog.version,
                    prog.blocks@,
                    name,
                ),
            decreases rest.len(),
        {
            let ghost before = rest@;
            let item = rest.remove(0);
            proof {
                assert(rest@ =~= before.drop_first());
            }
            match item {
                SbtItem::Version(s) => {
                    match SbtVersion::from_str(s) {
                        Ok(v) => {
                            prog.version = v;
                        },
                        Err(e) => {
                            proof {
                                assert(before[0] == SbtItem::<'a, F>::Version(s));
                                assert(s@ != "0.9"@ && s@ != "1.0"@);
                                assert(ast_spec(before, prog.version, prog.blocks@, name) == Err::<
                                    (SbtVersion, Seq<SbtBlock<'a, F>>),
                                    Option<String>,
                                >(None));
                            }
                            return Err(e);
                        },
                    }
                },
                SbtItem::Block(b) => {
                    prog.blocks.push(b);
                },
                SbtItem::Ident(n) => {
                    name = n;
                },
                SbtItem::Dict(d) => {
                    prog.blocks.push(SbtBlock { name: name, value: SbtValue::Dict(d) });
                },
                SbtItem::End => {
                    return Ok(prog);
                },
                SbtItem::Unsupported(s) => {
                    return Err(Error::ParseUnsupported(s));
                },
            }
        }
        Ok(prog)
    }
}

/// The indices of one face: a tuple of three or four integers, each taken as a
/// `usize` (wrapping below zero).
pub open spec fn face_indices<'a, F>(v: SbtValue<'a, F>) -> Option<Seq<usize>> {
    match v {
        SbtValue::Tuple(t) => if (t@.len() == 3 || t@.len() == 4) && (forall|i: int|
            0 <= i < t@.len() ==> #[trigger] t@[i] is Int) {
            Some(t@.map_values(|x: SbtValue<'a, F>| (x->Int_0) as usize))
        } else {
            None
        },
        _ => None,
    }
}

/// How the error begins that reading a face which is not a tuple of three
/// or four integers gives.
pub open spec fn face_error_prefix<'a, F>(v: SbtValue<'a, F>) -> Seq<char> {
    match v {
        SbtValue::Tuple(t) => if t@.len() == 3 || t@.len() == 4 {
            "number expected, found "@
        } else {
            "expected int3, found "@
        },
        _ => "expected tuple, found "@,
    }
}

/// The triangles of a mesh whose faces are the tuples `faces`: a quadrilateral
/// is split along its first diagonal. Any face that is not a tuple of three or
/// four integers makes it a parse error.
pub fn polymesh_faces<'a, F: Debug>(faces: &Vec<SbtValue<'a, F>>) -> (r: Result<Vec<[usize; 3]>, Error>)
    ensures
        (forall|i: int| 0 <= i < faces.len() ==> #[trigger] face_indices(faces@[i]) is Some) ==> (r matches Ok(v)
            && v@.map_values(|t: [usize; 3]| t@) == triangles_of(
            faces@.map_values(|f: SbtValue<'a, F>| face_indices(f).unwrap()),
        )),
        !(forall|i: int| 0 <= i < faces.len() ==> #[trigger] face_indices(faces@[i]) is Some) ==> (r matches Err(
            e,
        ) && exists|i: int|
            0 <= i < faces.len() && (forall|k: int| 0 <= k < i ==> #[trigger] face_indices(faces@[k]) is Some)
                && face_indices(#[trigger] faces@[i]) is None && parse_error_starting(
                e,
                face_error_prefix(faces@[i]),
            )),
{
    let ghost fv = faces@.map_values(|f: SbtValue<'a, F>| face_indices(f).unwrap());
    let mut r: Vec<[usize; 3]> = Vec::new();
    let mut i: usize = 0;
    while i < faces.len()
        invariant
            i <= faces.len(),
            fv == faces@.map_values(|f: SbtValue<'a, F>| face_indices(f).unwrap()),
            forall|k: int| 0 <= k < i ==> #[trigger] face_indices(faces@[k]) is Some,
            r@.map_values(|t: [usize; 3]| t@) == triangles_of(fv.take(i as int)),
        decreases faces.len() - i,
    {
        let ghost before = r@;
        proof {
            assert(fv.take(i + 1).drop_last() =~= fv.take(i as int));
            assert(fv.take(i + 1).last() == fv[i as int]);
        }
        let t = match faces[i].tuple() {
            Ok(t) => t,
            Err(e) => {
                proof {
                    assert(face_indices(faces@[i as int]) is None);
                    assert(face_error_prefix(faces@[i as int]) == "expected tuple, found "@);
                }
                return Err(e);
            },
        };
        if t.len() == 4 {
            let f = match tuple_int4(t) {
                Ok(f) => f,
                Err(e) => {
                    proof {
                        assert(face_indices(faces@[i as int]) is None);
                        assert(face_error_prefix(faces@[i as int]) == "number expected, found "@);
                    }
                    return Err(e);
                },
            };
            let t1 = [f[0], f[1], f[2]];
            let t2 = [f[0], f[2], f[3]];
            r.push(t1);
            r.push(t2);
            proof {
                assert(face_indices(faces@[i as int]) is Some);
                assert(f@ =~= fv[i as int]);
                assert(t1@ =~= seq![f@[0], f@[1], f@[2]]);
                assert(t2@ =~= seq![f@[0], f@[2], f@[3]]);
                assert(r@.map_values(|t: [usize; 3]| t@) =~= before.map_values(|t: [usize; 3]| t@)
                    + face_triangles(fv[i as int]));
            }
        } else {
            let f = match tuple_int3(t) {
                Ok(f) => f,
                Err(e) => {
                    proof {
                        assert(face_indices(faces@[i as int]) is None);
                        if t@.len() == 3 {
                            assert(face_error_prefix(faces@[i as int]) == "number expected, found "@);
                        } else {
                            assert(face_error_prefix(faces@[i as int]) == "expected int3, found "@);
                        }
                    }
                    return Err(e);
                },
            };
            r.push(f);
            proof {
                assert(face_indices(faces@[i as int]) is Some);
                assert(f@ =~= fv[i as int]);
                assert(r@.map_values(|t: [usize; 3]| t@) =~= before.map_values(|t: [usize; 3]| t@)
                    + face_triangles(fv[i as int]));
            }
        }
        i = i + 1;
    }
    proof {
        assert(fv.take(faces.len() as int) =~= fv);
    }
    Ok(r)
}

/// In a dictionary the last entry under a key counts, and an entry leaves the
/// other keys as they were.
pub proof fn law_last_entry_wins<'a, F>(
    d: Seq<(&'a str, SbtValue<'a, F>)>,
    k: &'a str,
    v: SbtValue<'a, F>,
    other: Seq<char>,
)
    requires
        other != k@,
    ensures
        lookup(d.push((k, v)), k@) == Some(v),
        lookup(d.push((k, v)), other) == lookup(d, other),
{
    assert(d.push((k, v)).drop_last() =~= d);
}

/// A name that stands alone becomes the name for what follows, whatever name
/// held before; a dictionary that stands alone becomes a block named by the
/// last such name; a block is kept as it is; the end of the input stops reading.
pub proof fn law_ast_steps<'a, F>(
    rest: Seq<SbtItem<'a, F>>,
    version: SbtVersion,
    blocks: Seq<SbtBlock<'a, F>>,
    name: &'a str,
    n: &'a str,
    d: Vec<(&'a str, SbtValue<'a, F>)>,
    b: SbtBlock<'a, F>,
)
    ensures
        ast_spec(seq![SbtItem::Ident(n)] + rest, version, blocks, name) == ast_spec(rest, version, blocks, n),
        ast_spec(seq![SbtItem::Ident(n), SbtItem::Dict(d)] + rest, version, blocks, name) == ast_spec(
            rest,
            version,
            blocks.push(SbtBlock { name: n, value: SbtValue::Dict(d) }),
            n,
        ),
        ast_spec(seq![SbtItem::Dict(d)] + rest, version, blocks, name) == ast_spec(
            rest,
            version,
            blocks.push(SbtBlock { name: name, value: SbtValue::Dict(d) }),
            name,
        ),
        ast_spec(seq![SbtItem::Block(b)] + rest, version, blocks, name) == ast_spec(
            rest,
            version,
            blocks.push(b),
            name,
        ),
        ast_spec(seq![SbtItem::End] + rest, version, blocks, name) == Ok::<
            (SbtVersion, Seq<SbtBlock<'a, F>>),
            Option<String>,
        >((version, blocks)),
{
    let s1 = seq![SbtItem::Ident(n)] + rest;
    assert(s1.drop_first() =~= rest);
    let s2 = seq![SbtItem::Ident(n), SbtItem::Dict(d)] + rest;
    assert(s2.drop_first() =~= seq![SbtItem::Dict(d)] + rest);
    assert((seq![SbtItem::Dict(d)] + rest).drop_first() =~= rest);
    assert((seq![SbtItem::Block(b)] + rest).drop_first() =~= rest);
    assert(s2.drop_first()[0] == SbtItem::<'a, F>::Dict(d));
    assert(ast_spec(s2, version, blocks, name) == ast_spec(seq![SbtItem::Dict(d)] + rest, version, blocks, n));
    assert(ast_spec(seq![SbtItem::Dict(d)] + rest, version, blocks, n) == ast_spec(
        rest,
        version,
        blocks.push(SbtBlock { name: n, value: SbtValue::Dict(d) }),
        n,
    ));
}

} // verus!
