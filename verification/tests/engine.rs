//! Tests of the JSON engine: parsing, serialization, path queries,
//! and the vars operations on document text.

use pwnrail::console::vars::{
    interpret_new_value, modify_in_doc, refer_in_doc, ReferOutcome, VarsError,
};
use pwnrail::parse::parse;
use pwnrail::path::{parse_path, PathSyntaxError, Step};
use pwnrail::query::{modify, refer, QueryError};
use pwnrail::ser::serialize;
use pwnrail::value::{Kind, Member, Value};

fn roundtrip(doc: &str) -> String {
    let v = parse(doc).expect("document should parse");
    serialize(&v)
}

#[test]
fn parse_serialize_scalars() {
    assert_eq!(roundtrip("null"), "null");
    assert_eq!(roundtrip("true"), "true");
    assert_eq!(roundtrip("false"), "false");
    assert_eq!(roundtrip("0"), "0");
    assert_eq!(roundtrip("-12"), "-12");
    assert_eq!(roundtrip("\"hi\""), "\"hi\"");
}

#[test]
fn parse_serialize_number_formats() {
    // the literal text of a numeral survives the round trip
    assert_eq!(roundtrip("[1e9,-0.5,0,12.25,3E+2,7e-1]"), "[1e9,-0.5,0,12.25,3E+2,7e-1]");
}

#[test]
fn parse_serialize_containers() {
    assert_eq!(roundtrip("{}"), "{}");
    assert_eq!(roundtrip("[]"), "[]");
    assert_eq!(roundtrip("{\"a\":[1,2],\"b\":{\"c\":null}}"), "{\"a\":[1,2],\"b\":{\"c\":null}}");
}

#[test]
fn parse_tolerates_whitespace() {
    assert_eq!(roundtrip(" { \"a\" :\t[ 1 ,\n 2 ] } "), "{\"a\":[1,2]}");
}

#[test]
fn parse_decodes_escapes() {
    // \u0041 is 'A'; simple escapes decode and re-encode
    assert_eq!(roundtrip("\"\\u0041\\n\\\"\\\\\\t\""), "\"A\\n\\\"\\\\\\t\"");
    // a control character is re-escaped
    assert_eq!(roundtrip("\"\\u0001\""), "\"\\u0001\"");
    // a surrogate pair decodes to one character and re-serializes raw
    let v = parse("\"\\uD83D\\uDE00\"").expect("surrogate pair should parse");
    match &v {
        Value::Str(s) => assert_eq!(s.as_str(), "\u{1F600}"),
        _ => panic!("expected a string"),
    }
}

#[test]
fn parse_rejects_malformed_documents() {
    for doc in [
        "", "{", "}", "{\"a\":}", "01", "1.", "1e", "tru", "\"abc", "[1,]", "[1 2]", "nully",
        "1 2", "{\"a\" 1}", "{'a':1}", "\"\\x\"", "\"\\uD83D\"", "\"\u{1}\"",
    ] {
        assert!(parse(doc).is_err(), "{:?} should be rejected", doc);
    }
}

#[test]
fn parse_rejects_duplicate_keys() {
    assert!(parse("{\"a\":1,\"a\":2}").is_err());
}

#[test]
fn order_is_preserved() {
    assert_eq!(roundtrip("{\"z\":1,\"a\":2,\"m\":3}"), "{\"z\":1,\"a\":2,\"m\":3}");
}

#[test]
fn path_steps() {
    let p = parse_path("creds[0].password").expect("path should parse");
    assert_eq!(p.steps.len(), 3);
    assert_eq!(p.steps[0], Step::Field("creds".to_string()));
    assert_eq!(p.steps[1], Step::Index(0));
    assert_eq!(p.steps[2], Step::Field("password".to_string()));
}

#[test]
fn path_nested_indices() {
    let p = parse_path("a[0][1]").expect("consecutive indices are legal");
    assert_eq!(p.steps.len(), 3);
    assert_eq!(p.steps[1], Step::Index(0));
    assert_eq!(p.steps[2], Step::Index(1));
}

#[test]
fn path_syntax_errors() {
    assert_eq!(parse_path(""), Err(PathSyntaxError::Empty));
    assert_eq!(parse_path(".a"), Err(PathSyntaxError::EmptyIdent));
    assert_eq!(parse_path("a..b"), Err(PathSyntaxError::EmptyIdent));
    assert_eq!(parse_path("a."), Err(PathSyntaxError::EmptyIdent));
    assert_eq!(parse_path("a["), Err(PathSyntaxError::UnmatchedBracket));
    assert_eq!(parse_path("a[12"), Err(PathSyntaxError::UnmatchedBracket));
    assert_eq!(parse_path("a[]"), Err(PathSyntaxError::BadIndex));
    assert_eq!(parse_path("a[x]"), Err(PathSyntaxError::BadIndex));
    assert_eq!(parse_path("a[1x]"), Err(PathSyntaxError::BadIndex));
    assert_eq!(parse_path("a[-1]"), Err(PathSyntaxError::BadIndex));
    assert_eq!(parse_path("a[99999999999999999999999999]"), Err(PathSyntaxError::BadIndex));
    assert_eq!(parse_path("a]b"), Err(PathSyntaxError::UnexpectedChar));
    assert_eq!(parse_path("a b"), Err(PathSyntaxError::UnexpectedChar));
}

#[test]
fn refer_reads_nested_values() {
    let root = parse("{\"a\":{\"b\":[10,20]}}").unwrap();
    let p = parse_path("a.b[1]").unwrap();
    let found = refer(&root, &p).expect("value exists");
    assert_eq!(serialize(found), "20");
}

#[test]
fn refer_not_found_and_mismatch() {
    let root = parse("{\"ip\":\"1.2.3.4\"}").unwrap();
    let missing = parse_path("nope").unwrap();
    assert_eq!(refer(&root, &missing), Err(QueryError::NotFound));
    let through_scalar = parse_path("ip.sub").unwrap();
    assert_eq!(
        refer(&root, &through_scalar),
        Err(QueryError::TypeMismatch { expected: Kind::Obj, found: Kind::Str })
    );
    let indexed = parse_path("ip[0]").unwrap();
    assert_eq!(
        refer(&root, &indexed),
        Err(QueryError::TypeMismatch { expected: Kind::Arr, found: Kind::Str })
    );
}

#[test]
fn refer_is_repeatable() {
    // two consecutive reads of the same document return equal results
    let root = parse("{\"a\":[1,2,3]}").unwrap();
    let p = parse_path("a[2]").unwrap();
    let first = refer(&root, &p).map(serialize);
    let second = refer(&root, &p).map(serialize);
    assert_eq!(first, second);
    assert_eq!(first, Ok("3".to_string()));
}

#[test]
fn modify_replaces_in_place() {
    let mut root = parse("{\"a\":{\"b\":1}}").unwrap();
    let p = parse_path("a.b").unwrap();
    let nv = interpret_new_value("2");
    modify(&mut root, &p, nv).expect("target exists");
    assert_eq!(serialize(&root), "{\"a\":{\"b\":2}}");
}

#[test]
fn modify_failure_leaves_tree_untouched() {
    let mut root = parse("{\"a\":[1]}").unwrap();
    let before = serialize(&root);
    let p = parse_path("a[5]").unwrap();
    let nv = interpret_new_value("2");
    assert_eq!(modify(&mut root, &p, nv), Err(QueryError::IndexOutOfBounds));
    assert_eq!(serialize(&root), before);
}

#[test]
fn autovivification_of_missing_key() {
    // from an empty document, a write creates the key
    let text = modify_in_doc("{}", "ip", "0.0.0.0").expect("write succeeds");
    assert_eq!(text, "{\"ip\":\"0.0.0.0\"}");
    let read = refer_in_doc(&text, "ip").expect("read succeeds");
    assert_eq!(read, ReferOutcome::Found("\"0.0.0.0\"".to_string()));
}

#[test]
fn nested_creation() {
    // intermediate objects are created on the way
    let text = modify_in_doc("{}", "a.b.c", "1").expect("write succeeds");
    assert_eq!(text, "{\"a\":{\"b\":{\"c\":1}}}");
    let read = refer_in_doc(&text, "a.b.c").expect("read succeeds");
    assert_eq!(read, ReferOutcome::Found("1".to_string()));
}

#[test]
fn array_bounds_are_enforced() {
    let doc = "{\"creds\":[{\"password\":\"x\"}]}";
    // arrays are never grown implicitly
    assert_eq!(
        modify_in_doc(doc, "creds[1].password", "y"),
        Err(VarsError::Query(QueryError::IndexOutOfBounds))
    );
    // the slot that exists can be written
    let text = modify_in_doc(doc, "creds[0].password", "y").expect("write succeeds");
    assert_eq!(text, "{\"creds\":[{\"password\":\"y\"}]}");
    let read = refer_in_doc(&text, "creds[0].password").expect("read succeeds");
    assert_eq!(read, ReferOutcome::Found("\"y\"".to_string()));
}

#[test]
fn type_mismatch_is_fatal() {
    let r = refer_in_doc("{\"ip\":\"1.2.3.4\"}", "ip.sub");
    assert_eq!(
        r,
        Err(VarsError::Query(QueryError::TypeMismatch { expected: Kind::Obj, found: Kind::Str }))
    );
}

#[test]
fn not_found_is_non_fatal() {
    // a missing key is an ordinary outcome, not an error
    let r = refer_in_doc("{}", "missing");
    assert_eq!(r, Ok(ReferOutcome::Missing));
}

#[test]
fn modify_never_coerces_scalars() {
    let r = modify_in_doc("{\"n\":5}", "n.deep", "1");
    assert_eq!(
        r,
        Err(VarsError::Query(QueryError::TypeMismatch { expected: Kind::Obj, found: Kind::Num }))
    );
}

#[test]
fn new_value_convention() {
    // a complete JSON document is taken as that value
    assert_eq!(interpret_new_value("5"), parse("5").unwrap());
    assert_eq!(interpret_new_value("true"), parse("true").unwrap());
    assert_eq!(interpret_new_value("{\"a\":1}"), parse("{\"a\":1}").unwrap());
    // anything else becomes a string
    assert_eq!(interpret_new_value("0.0.0.0"), Value::Str("0.0.0.0".to_string()));
    assert_eq!(interpret_new_value("hello world"), Value::Str("hello world".to_string()));
}

#[test]
fn vars_errors_are_reported() {
    assert!(matches!(refer_in_doc("{oops", "a"), Err(VarsError::Parse(_))));
    assert!(matches!(refer_in_doc("{}", ".a"), Err(VarsError::PathSyntax(_))));
    assert!(matches!(modify_in_doc("{oops", "a", "1"), Err(VarsError::Parse(_))));
    assert!(matches!(modify_in_doc("{}", "", "1"), Err(VarsError::PathSyntax(_))));
}

#[test]
fn serialize_escapes_strings() {
    let v = Value::Obj(vec![Member {
        key: "k\"\\".to_string(),
        value: Value::Str("a\nb\tc\u{8}\u{c}\r\u{1f}".to_string()),
    }]);
    assert_eq!(
        serialize(&v),
        "{\"k\\\"\\\\\":\"a\\nb\\tc\\b\\f\\r\\u001f\"}"
    );
    // and the escaped text parses back to the same tree
    assert_eq!(parse(&serialize(&v)).unwrap(), v);
}

#[test]
fn deep_round_trip() {
    let doc = "{\"hosts\":[{\"ip\":\"10.0.0.1\",\"tags\":[\"web\",\"db\"]},{\"ip\":\"10.0.0.2\",\"tags\":[]}],\"count\":2}";
    assert_eq!(roundtrip(doc), doc);
}

#[test]
fn nested_array_indices() {
    let doc = "{\"m\":[[1,2],[3,4]]}";
    let read = refer_in_doc(doc, "m[1][0]").expect("read succeeds");
    assert_eq!(read, ReferOutcome::Found("3".to_string()));
    let text = modify_in_doc(doc, "m[0][1]", "9").expect("write succeeds");
    assert_eq!(text, "{\"m\":[[1,9],[3,4]]}");
}

#[test]
fn autovivify_inside_array_element() {
    // a field can be created inside an existing array element
    let text = modify_in_doc("{\"creds\":[{}]}", "creds[0].user", "root").expect("write succeeds");
    assert_eq!(text, "{\"creds\":[{\"user\":\"root\"}]}");
}

#[test]
fn modify_replaces_whole_containers() {
    let text = modify_in_doc("{\"a\":{\"b\":1}}", "a", "[1,2]").expect("write succeeds");
    assert_eq!(text, "{\"a\":[1,2]}");
}

#[test]
fn index_into_created_object_is_a_mismatch() {
    // a missing key is created as an object, which an index step
    // cannot address
    let r = modify_in_doc("{}", "a[0]", "1");
    assert_eq!(
        r,
        Err(VarsError::Query(QueryError::TypeMismatch { expected: Kind::Arr, found: Kind::Obj }))
    );
}
