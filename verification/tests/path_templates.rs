use axum_distributed_routing::param_type::TypeRef;
use axum_distributed_routing::path_template::{compile, PathError, Segment};

fn literal(s: &Segment) -> &str {
    match s {
        Segment::Literal { text } => text.as_str(),
        _ => panic!("expected a literal segment"),
    }
}

fn param(s: &Segment) -> (&str, TypeRef) {
    match s {
        Segment::Param { name, ty } => (name.as_str(), *ty),
        _ => panic!("expected a parameter segment"),
    }
}

#[test]
fn compiles_pure_literal() {
    let t = compile("/health").unwrap();
    assert_eq!(t.segments.len(), 1);
    assert_eq!(literal(&t.segments[0]), "/health");
    assert_eq!(t.pattern(), "/health");
    assert_eq!(t.source(), "/health");
}

#[test]
fn compiles_empty_input() {
    let t = compile("").unwrap();
    assert_eq!(t.segments.len(), 0);
    assert_eq!(t.pattern(), "");
}

#[test]
fn compiles_single_param() {
    let t = compile("/expr/{val:int32}").unwrap();
    assert_eq!(t.segments.len(), 2);
    assert_eq!(literal(&t.segments[0]), "/expr/");
    assert_eq!(param(&t.segments[1]), ("val", TypeRef::Int32));
    assert_eq!(t.pattern(), "/expr/:val");
}

#[test]
fn compiles_multiple_params() {
    let t = compile("/a/{x:int64}/b/{y:String}").unwrap();
    assert_eq!(t.segments.len(), 4);
    assert_eq!(literal(&t.segments[0]), "/a/");
    assert_eq!(param(&t.segments[1]), ("x", TypeRef::Int64));
    assert_eq!(literal(&t.segments[2]), "/b/");
    assert_eq!(param(&t.segments[3]), ("y", TypeRef::Str));
    assert_eq!(t.pattern(), "/a/:x/b/:y");
}

#[test]
fn adjacent_params_compile() {
    let t = compile("{a:int8}{b:uint8}").unwrap();
    assert_eq!(t.segments.len(), 2);
    assert_eq!(param(&t.segments[0]), ("a", TypeRef::Int8));
    assert_eq!(param(&t.segments[1]), ("b", TypeRef::UInt8));
    assert_eq!(t.pattern(), ":a:b");
}

#[test]
fn source_round_trips() {
    for raw in [
        "/health",
        "/expr/{val:int32}",
        "/a/{x:int64}/b/{y:String}",
        "{a:bool}",
        "/u/{id:uint64}/posts/{slug:String}/raw",
    ] {
        let t = compile(raw).unwrap();
        assert_eq!(t.source(), raw);
        let again = compile(t.source().as_str()).unwrap();
        assert_eq!(again.pattern(), t.pattern());
    }
}

#[test]
fn every_scalar_token_resolves() {
    let cases = [
        ("String", TypeRef::Str),
        ("bool", TypeRef::Boolean),
        ("int8", TypeRef::Int8),
        ("int16", TypeRef::Int16),
        ("int32", TypeRef::Int32),
        ("int64", TypeRef::Int64),
        ("uint8", TypeRef::UInt8),
        ("uint16", TypeRef::UInt16),
        ("uint32", TypeRef::UInt32),
        ("uint64", TypeRef::UInt64),
    ];
    for (tok, expect) in cases {
        let raw = format!("/{{x:{}}}", tok);
        let t = compile(raw.as_str()).unwrap();
        assert_eq!(param(&t.segments[1]), ("x", expect));
    }
}

#[test]
fn unterminated_param_in_type_fails() {
    let e = compile("/x/{id:int32").unwrap_err();
    assert!(matches!(e, PathError::UnexpectedEnd));
}

#[test]
fn unterminated_param_in_name_fails() {
    let e = compile("/x/{id").unwrap_err();
    assert!(matches!(e, PathError::UnexpectedEnd));
}

#[test]
fn open_brace_alone_fails() {
    let e = compile("/x/{").unwrap_err();
    assert!(matches!(e, PathError::UnexpectedEnd));
}

#[test]
fn close_brace_in_name_fails() {
    let e = compile("/x/{id}").unwrap_err();
    match e {
        PathError::BadNameChar { pos, found } => {
            assert_eq!(pos, 6);
            assert_eq!(found, '}');
        }
        _ => panic!("expected a name error"),
    }
}

#[test]
fn brace_in_name_fails() {
    let e = compile("/x/{{a:int32}").unwrap_err();
    match e {
        PathError::BadNameChar { pos, found } => {
            assert_eq!(pos, 4);
            assert_eq!(found, '{');
        }
        _ => panic!("expected a name error"),
    }
}

#[test]
fn empty_name_fails() {
    let e = compile("/{:int32}").unwrap_err();
    match e {
        PathError::BadNameChar { pos, found } => {
            assert_eq!(pos, 2);
            assert_eq!(found, ':');
        }
        _ => panic!("expected a name error"),
    }
}

#[test]
fn name_starting_with_digit_fails() {
    let e = compile("/{1a:int32}").unwrap_err();
    match e {
        PathError::BadNameChar { pos, found } => {
            assert_eq!(pos, 2);
            assert_eq!(found, '1');
        }
        _ => panic!("expected a name error"),
    }
}

#[test]
fn digits_allowed_after_name_start() {
    let t = compile("/{a1_b2:int32}").unwrap();
    assert_eq!(param(&t.segments[1]), ("a1_b2", TypeRef::Int32));
}

#[test]
fn brace_in_type_fails() {
    let e = compile("/{a:{b}}").unwrap_err();
    match e {
        PathError::BadTypeChar { pos, found } => {
            assert_eq!(pos, 4);
            assert_eq!(found, '{');
        }
        _ => panic!("expected a type error"),
    }
}

#[test]
fn colon_in_type_fails() {
    let e = compile("/{a:int32:}").unwrap_err();
    match e {
        PathError::BadTypeChar { pos, found } => {
            assert_eq!(pos, 9);
            assert_eq!(found, ':');
        }
        _ => panic!("expected a type error"),
    }
}

#[test]
fn unknown_type_token_fails() {
    let e = compile("/{a:foo}").unwrap_err();
    match e {
        PathError::UnknownParamType { token } => assert_eq!(token, "foo"),
        _ => panic!("expected an unknown-type error"),
    }
}

#[test]
fn empty_type_token_fails() {
    let e = compile("/{a:}").unwrap_err();
    match e {
        PathError::UnknownParamType { token } => assert_eq!(token, ""),
        _ => panic!("expected an unknown-type error"),
    }
}

#[test]
fn colon_and_close_brace_are_literal_outside_params() {
    let t = compile("/a:b}c").unwrap();
    assert_eq!(t.segments.len(), 1);
    assert_eq!(literal(&t.segments[0]), "/a:b}c");
    assert_eq!(t.pattern(), "/a:b}c");
}
