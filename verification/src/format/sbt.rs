//! The first reader of `.ray` scene descriptions.
use vstd::prelude::*;
use crate::error::Error;
use core::marker::PhantomData;

verus! {

/// The format versions that a `.ray` file can declare.
#[derive(Copy, Clone, Debug, PartialEq, Eq)]
pub enum SbtVersion {
    Sbt0_9,
    Sbt1_0,
}

impl SbtVersion {
    /// The version named by `s`; the grammar admits only `0.9` and `1.0`.
    pub fn from_str(s: &str) -> (r: Result<SbtVersion, Error>)
        requires
            s@ == "0.9"@ || s@ == "1.0"@,
        ensures
            s@ == "0.9"@ ==> r == Ok::<SbtVersion, Error>(SbtVersion::Sbt0_9),
            s@ == "1.0"@ ==> r == Ok::<SbtVersion, Error>(SbtVersion::Sbt1_0),
    {
        proof {
            reveal_strlit("0.9");
            reveal_strlit("1.0");
            assert("1.0"@[0] != "0.9"@[0]);
        }
        let text = String::from_str(s);
        let v09 = String::from_str("0.9");
        if text == v09 {
            Ok(SbtVersion::Sbt0_9)
        } else {
            Ok(SbtVersion::Sbt1_0)
        }
    }
}

/// Whether `c` is white space as Unicode's `White_Space` property has it,
/// which is what `char::is_whitespace` and `str::trim` go by.
pub open spec fn is_white_space(c: char) -> bool {
    let u = c as u32;
    (0x09 <= u <= 0x0d) || u == 0x20 || u == 0x85 || u == 0xa0 || u == 0x1680 || (0x2000 <= u
        <= 0x200a) || u == 0x2028 || u == 0x2029 || u == 0x202f || u == 0x205f || u == 0x3000
}

/// `s` without its leading white space.
pub open spec fn trim_start_spec(s: Seq<char>) -> Seq<char>
    decreases s.len(),
{
    if s.len() > 0 && is_white_space(s[0]) {
        trim_start_spec(s.drop_first())
    } else {
        s
    }
}

/// `s` without its trailing white space.
pub open spec fn trim_end_spec(s: Seq<char>) -> Seq<char>
    decreases s.len(),
{
    if s.len() > 0 && is_white_space(s.last()) {
        trim_end_spec(s.drop_last())
    } else {
        s
    }
}

/// `s` without white space at either end.
pub open spec fn trim_spec(s: Seq<char>) -> Seq<char> {
    trim_end_spec(trim_start_spec(s))
}

/// Whether every character of `d` is a decimal digit.
pub open spec fn all_digits(d: Seq<char>) -> bool {
    forall|i: int| 0 <= i < d.len() ==> '0' <= #[trigger] d[i] <= '9'
}

/// The number that the decimal digits `d` spell.
pub open spec fn digits_value(d: Seq<char>) -> nat
    decreases d.len(),
{
    if d.len() == 0 {
        0
    } else {
        digits_value(d.drop_last()) * 10 + ((d.last() as u32) - ('0' as u32)) as nat
    }
}

/// The digits of `s` after an optional leading `+`.
pub open spec fn unsigned_digits(s: Seq<char>) -> Seq<char> {
    if s.len() > 0 && s[0] == '+' {
        s.drop_first()
    } else {
        s
    }
}

/// What `str::parse::<usize>` gives: an optional `+` followed by at least one
/// decimal digit, whose value fits in a `usize`.
pub open spec fn parse_usize_spec(s: Seq<char>) -> Option<usize> {
    let d = unsigned_digits(s);
    if d.len() > 0 && all_digits(d) && digits_value(d) <= usize::MAX {
        Some(digits_value(d) as usize)
    } else {
        None
    }
}

/// `str::trim`: the string without leading and trailing white space.
#[verifier::external_body]
fn str_trim(s: &str) -> (r: &str)
    ensures
        r@ == trim_spec(s@),
{
    s.trim()
}

/// `str::parse::<usize>`, with any error taken as `None`.
#[verifier::external_body]
fn str_parse_usize(s: &str) -> (r: Option<usize>)
    ensures
        r == parse_usize_spec(s@),
{
    s.parse::<usize>().ok()
}

/// The index written in `text`, or zero where `text` is not one.
pub open spec fn index_or_zero(text: Seq<char>) -> usize {
    match parse_usize_spec(trim_spec(text)) {
        Some(v) => v,
        None => 0,
    }
}

/// The reader of the first `.ray` format. Its parsing functions take the
/// text of the grammar's tokens.
pub struct SbtParser<F> {
    _p: PhantomData<F>,
}

impl<F> SbtParser<F> {
    /// The truth value that the text of a `bool` token names.
    pub fn parse_bool(text: &str) -> (r: bool)
        requires
            text@ == "true"@ || text@ == "false"@,
        ensures
            r == (text@ == "true"@),
    {
        proof {
            reveal_strlit("true");
            reveal_strlit("false");
            assert("true"@.len() != "false"@.len());
        }
        String::from_str(text) == String::from_str("true")
    }

    /// The index written in one token; zero where it is not a number.
    pub fn parse_index(text: &str) -> (r: usize)
        ensures
            r == index_or_zero(text@),
    {
        match str_parse_usize(str_trim(text)) {
            Some(v) => v,
            None => 0,
        }
    }

    /// The three indices of an `int3` token, from the texts of its parts.
    pub fn parse_int3(parts: &Vec<&str>) -> (r: [usize; 3])
        requires
            parts.len() >= 3,
        ensures
            r@ == seq![index_or_zero(parts@[0]@), index_or_zero(parts@[1]@), index_or_zero(parts@[2]@)],
    {
        let r = [Self::parse_index(parts[0]), Self::parse_index(parts[1]), Self::parse_index(parts[2])];
        assert(r@ =~= seq![index_or_zero(parts@[0]@), index_or_zero(parts@[1]@), index_or_zero(parts@[2]@)]);
        r
    }

    /// The four indices of an `int4` token, from the texts of its parts.
    pub fn parse_int4(parts: &Vec<&str>) -> (r: [usize; 4])
        requires
            parts.len() >= 4,
        ensures
            r@ == seq![
                index_or_zero(parts@[0]@),
                index_or_zero(parts@[1]@),
                index_or_zero(parts@[2]@),
                index_or_zero(parts@[3]@),
            ],
    {
        let r = [
            Self::parse_index(parts[0]),
            Self::parse_index(parts[1]),
            Self::parse_index(parts[2]),
            Self::parse_index(parts[3]),
        ];
        assert(r@ =~= seq![
            index_or_zero(parts@[0]@),
            index_or_zero(parts@[1]@),
            index_or_zero(parts@[2]@),
            index_or_zero(parts@[3]@),
        ]);
        r
    }

    /// The triangles of a mesh's faces, in order: a triangle stays as it is,
    /// and a quadrilateral `[a, b, c, d]` becomes `[a, b, c]` and `[a, c, d]`.
    pub fn triangulate(faces: &Vec<Vec<usize>>) -> (r: Vec<[usize; 3]>)
        requires
            forall|i: int| 0 <= i < faces.len() ==> #[trigger] faces@[i].len() == 3 || faces@[i].len() == 4,
        ensures
            r@.map_values(|t: [usize; 3]| t@) == triangles_of(faces@.map_values(|f: Vec<usize>| f@)),
    {
        let ghost fv = faces@.map_values(|f: Vec<usize>| f@);
        let mut r: Vec<[usize; 3]> = Vec::new();
        let mut i: usize = 0;
        while i < faces.len()
            invariant
                i <= faces.len(),
                fv == faces@.map_values(|f: Vec<usize>| f@),
                forall|k: int| 0 <= k < faces.len() ==> #[trigger] faces@[k].len() == 3 || faces@[k].len() == 4,
                r@.map_values(|t: [usize; 3]| t@) == triangles_of(fv.take(i as int)),
            decreases faces.len() - i,
        {
            let ghost before = r@;
            let f = &faces[i];
            proof {
                assert(fv.take(i + 1).drop_last() =~= fv.take(i as int));
                assert(fv.take(i + 1).last() == f@);
            }
            if f.len() == 4 {
                let t1 = [f[0], f[1], f[2]];
                let t2 = [f[0], f[2], f[3]];
                r.push(t1);
                r.push(t2);
                proof {
                    assert(t1@ =~= seq![f@[0], f@[1], f@[2]]);
                    assert(t2@ =~= seq![f@[0], f@[2], f@[3]]);
                    assert(r@.map_values(|t: [usize; 3]| t@) =~= before.map_values(|t: [usize; 3]| t@)
                        + face_triangles(f@));
                }
            } else {
                let t = [f[0], f[1], f[2]];
                r.push(t);
                proof {
                    assert(t@ =~= f@);
                    assert(r@.map_values(|t: [usize; 3]| t@) =~= before.map_values(|t: [usize; 3]| t@)
                        + face_triangles(f@));
                }
            }
            i = i + 1;
        }
        proof {
            assert(fv.take(faces.len() as int) =~= fv);
        }
        r
    }
}

/// The triangles of one face: a quadrilateral is split along its first diagonal.
pub open spec fn face_triangles(f: Seq<usize>) -> Seq<Seq<usize>> {
    if f.len() == 4 {
        seq![seq![f[0], f[1], f[2]], seq![f[0], f[2], f[3]]]
    } else {
        seq![f]
    }
}

/// The triangles of a list of faces, in order.
pub open spec fn triangles_of(faces: Seq<Seq<usize>>) -> Seq<Seq<usize>>
    decreases faces.len(),
{
    if faces.len() == 0 {
        Seq::empty()
    } else {
        triangles_of(faces.drop_last()) + face_triangles(faces.last())
    }
}

} // verus!
