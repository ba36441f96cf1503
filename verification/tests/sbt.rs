use rustray::error::Error;
use rustray::format::sbt::{SbtParser, SbtVersion as SbtVersion1};
use rustray::format::sbt2::{
    dict_boolean, dict_dict, dict_string, dict_tuple, get_result, polymesh_faces, tuple_int3,
    tuple_int4, tuple_string, SbtBlock, SbtItem, SbtParser2, SbtValue, SbtVersion,
};

type V<'a> = SbtValue<'a, f64>;

#[test]
fn sbt_versions() {
    assert_eq!(SbtVersion1::from_str("0.9").unwrap(), SbtVersion1::Sbt0_9);
    assert_eq!(SbtVersion1::from_str("1.0").unwrap(), SbtVersion1::Sbt1_0);
    assert_eq!(SbtVersion::from_str("0.9").unwrap(), SbtVersion::Sbt0_9);
    assert_eq!(SbtVersion::from_str("1.0").unwrap(), SbtVersion::Sbt1_0);
    assert!(matches!(
        SbtVersion::from_str("2.0"),
        Err(Error::ParseError(m)) if m == "internal parser error"
    ));
}

#[test]
fn sbt_value_access() {
    assert_eq!(V::Int(3).integer().unwrap(), 3);
    assert!(V::Bool(true).boolean().unwrap());
    assert_eq!(V::Str("x").string().unwrap(), "x");
    assert_eq!(V::Tuple(vec![V::Int(1)]).tuple().unwrap().len(), 1);
    assert_eq!(V::Dict(vec![]).dict().unwrap().len(), 0);
    match V::Float(1.5).integer() {
        Err(Error::ParseError(m)) => assert!(m.starts_with("number expected, found ")),
        _ => panic!("expected a parse error"),
    }
    match V::Int(1).boolean() {
        Err(Error::ParseError(m)) => assert!(m.starts_with("expected boolean, found ")),
        _ => panic!("expected a parse error"),
    }
    match V::Int(1).string() {
        Err(Error::ParseError(m)) => assert!(m.starts_with("expected boolean, found ")),
        _ => panic!("expected a parse error"),
    }
    assert!(matches!(V::Int(1).tuple(), Err(Error::ParseError(_))));
    assert!(matches!(V::Int(1).dict(), Err(Error::ParseError(_))));
}

#[test]
fn sbt_dictionary_lookup() {
    let d: Vec<(&str, V)> = vec![
        ("capped", V::Bool(false)),
        ("name", V::Str("a")),
        ("capped", V::Bool(true)),
        ("faces", V::Tuple(vec![V::Int(0), V::Int(1), V::Int(2)])),
        ("material", V::Dict(vec![("index", V::Int(1))])),
    ];
    assert!(dict_boolean(&d, "capped").unwrap());
    assert_eq!(dict_string(&d, "name").unwrap(), "a");
    assert_eq!(tuple_int3(dict_tuple(&d, "faces").unwrap()).unwrap(), [0, 1, 2]);
    assert_eq!(dict_dict(&d, "material").unwrap().len(), 1);
    assert!(matches!(get_result(&d, "height"), Err(Error::ParseMissingKey(k)) if k == "height"));
    assert!(matches!(dict_string(&d, "capped"), Err(Error::ParseError(_))));
}

#[test]
fn sbt_tuples() {
    let t4 = vec![V::Int(0), V::Int(1), V::Int(2), V::Int(-1)];
    assert_eq!(tuple_int4(&t4).unwrap(), [0, 1, 2, usize::MAX]);
    match tuple_int3(&t4) {
        Err(Error::ParseError(m)) => assert!(m.starts_with("expected int3, found ")),
        _ => panic!("expected a parse error"),
    }
    let bad = vec![V::Int(0), V::Str("x"), V::Int(2)];
    match tuple_int3(&bad) {
        Err(Error::ParseError(m)) => assert!(m.starts_with("number expected, found ")),
        _ => panic!("expected a parse error"),
    }
    assert_eq!(tuple_string(&vec![V::Str("tex.png")]).unwrap(), "tex.png");
    assert!(matches!(tuple_string(&vec![V::Int(1)]), Err(Error::ParseError(_))));
}

#[test]
fn sbt_tokens() {
    assert!(matches!(SbtParser2::parse_boolean::<f64>("true"), Ok(V::Bool(true))));
    assert!(matches!(SbtParser2::parse_boolean::<f64>("false"), Ok(V::Bool(false))));
    assert!(matches!(SbtParser2::parse_boolean::<f64>("yes"), Err(Error::ParseError(_))));
    assert!(matches!(SbtParser2::parse_string::<f64>("\"checker.png\""), Ok(V::Str("checker.png"))));
    assert!(matches!(SbtParser2::parse_string::<f64>("\"\""), Ok(V::Str(""))));
}

#[test]
fn sbt_program_from_items() {
    let items: Vec<SbtItem<f64>> = vec![
        SbtItem::Version("0.9"),
        SbtItem::Block(SbtBlock { name: "camera", value: V::Dict(vec![]) }),
        SbtItem::Ident("material"),
        SbtItem::Dict(vec![("index", V::Int(1))]),
        SbtItem::End,
        SbtItem::Unsupported("ignored".to_string()),
    ];
    let prog = SbtParser2::ast(items).unwrap();
    assert_eq!(prog.version, SbtVersion::Sbt0_9);
    assert_eq!(prog.blocks.len(), 2);
    assert_eq!(prog.blocks[0].name, "camera");
    assert_eq!(prog.blocks[1].name, "material");

    let empty = SbtParser2::ast::<f64>(vec![]).unwrap();
    assert_eq!(empty.version, SbtVersion::Sbt1_0);
    assert!(empty.blocks.is_empty());

    let bad = SbtParser2::ast::<f64>(vec![SbtItem::Unsupported("COMMENT".to_string())]);
    assert!(matches!(bad, Err(Error::ParseUnsupported(m)) if m == "COMMENT"));
    let bad = SbtParser2::ast::<f64>(vec![SbtItem::Version("3.0")]);
    assert!(matches!(bad, Err(Error::ParseError(_))));
}

#[test]
fn sbt_polymesh_faces() {
    let faces = vec![
        V::Tuple(vec![V::Int(0), V::Int(1), V::Int(2)]),
        V::Tuple(vec![V::Int(0), V::Int(2), V::Int(3), V::Int(4)]),
    ];
    assert_eq!(polymesh_faces(&faces).unwrap(), vec![[0, 1, 2], [0, 2, 3], [0, 3, 4]]);
    let bad = vec![V::Tuple(vec![V::Int(0), V::Int(1)])];
    match polymesh_faces(&bad) {
        Err(Error::ParseError(m)) => assert!(m.starts_with("expected int3, found ")),
        _ => panic!("expected a parse error"),
    }
    let bad = vec![V::Int(3)];
    match polymesh_faces(&bad) {
        Err(Error::ParseError(m)) => assert!(m.starts_with("expected tuple, found ")),
        _ => panic!("expected a parse error"),
    }
    let bad = vec![V::Tuple(vec![V::Int(0), V::Int(1), V::Str("x"), V::Int(2)])];
    match polymesh_faces(&bad) {
        Err(Error::ParseError(m)) => assert!(m.starts_with("number expected, found ")),
        _ => panic!("expected a parse error"),
    }
}

#[test]
fn sbt_first_format_tokens() {
    assert!(SbtParser::<f64>::parse_bool("true"));
    assert!(!SbtParser::<f64>::parse_bool("false"));
    assert_eq!(SbtParser::<f64>::parse_index(" 42 "), 42);
    assert_eq!(SbtParser::<f64>::parse_index("+7"), 7);
    assert_eq!(SbtParser::<f64>::parse_index("-7"), 0);
    assert_eq!(SbtParser::<f64>::parse_index("x"), 0);
    assert_eq!(SbtParser::<f64>::parse_int3(&vec!["1", " 2", "3 "]), [1, 2, 3]);
    assert_eq!(SbtParser::<f64>::parse_int4(&vec!["1", "2", "3", "oops"]), [1, 2, 3, 0]);
    let faces = vec![vec![0, 1, 2, 3], vec![4, 5, 6]];
    assert_eq!(SbtParser::<f64>::triangulate(&faces), vec![[0, 1, 2], [0, 2, 3], [4, 5, 6]]);
}
