use axum_distributed_routing::extractor::{
    bind_extractor, ExtractorKind, ExtractorSpec, FieldDef,
};
use axum_distributed_routing::method::{parse_method, HttpMethod};
use axum_distributed_routing::param_type::TypeRef;
use axum_distributed_routing::path_template::PathError;
use axum_distributed_routing::route::{
    DeclareError, FieldName, HandlerArg, RouteBuilder,
};

fn inline(fields: Vec<(&str, TypeRef)>) -> ExtractorSpec {
    ExtractorSpec::InlineFields {
        fields: fields
            .into_iter()
            .map(|(n, t)| FieldDef { name: n.to_string(), ty: t })
            .collect(),
    }
}

#[test]
fn every_verb_parses() {
    let cases = [
        ("GET", HttpMethod::Get),
        ("POST", HttpMethod::Post),
        ("PUT", HttpMethod::Put),
        ("PATCH", HttpMethod::Patch),
        ("DELETE", HttpMethod::Delete),
        ("HEAD", HttpMethod::Head),
        ("OPTIONS", HttpMethod::Options),
        ("TRACE", HttpMethod::Trace),
        ("CONNECT", HttpMethod::Connect),
    ];
    for (tok, expect) in cases {
        assert_eq!(parse_method(tok), Some(expect));
    }
}

#[test]
fn unknown_tokens_do_not_parse() {
    assert_eq!(parse_method("FETCH"), None);
    assert_eq!(parse_method("get"), None);
    assert_eq!(parse_method(""), None);
}

#[test]
fn missing_fields_reported_in_order() {
    let e = RouteBuilder::new().declare().unwrap_err();
    assert!(matches!(e, DeclareError::MissingField { field: FieldName::Path }));

    let e = RouteBuilder::new().path("/x".to_string()).declare().unwrap_err();
    assert!(matches!(e, DeclareError::MissingField { field: FieldName::Name }));

    let e = RouteBuilder::new()
        .path("/x".to_string())
        .name("x".to_string())
        .declare()
        .unwrap_err();
    assert!(matches!(e, DeclareError::MissingField { field: FieldName::ReturnType }));

    let e = RouteBuilder::new()
        .path("/x".to_string())
        .name("x".to_string())
        .returning("String".to_string())
        .declare()
        .unwrap_err();
    assert!(matches!(e, DeclareError::MissingField { field: FieldName::Handler }));

    let e = RouteBuilder::new()
        .path("/x".to_string())
        .name("x".to_string())
        .returning("String".to_string())
        .handler(1)
        .declare()
        .unwrap_err();
    assert!(matches!(e, DeclareError::MissingField { field: FieldName::Method }));

    let e = RouteBuilder::new()
        .path("/x".to_string())
        .name("x".to_string())
        .returning("String".to_string())
        .handler(1)
        .method("GET".to_string())
        .declare()
        .unwrap_err();
    assert!(matches!(e, DeclareError::MissingField { field: FieldName::Group }));
}

#[test]
fn unknown_method_is_rejected() {
    let e = RouteBuilder::new()
        .path("/x".to_string())
        .name("x".to_string())
        .returning("String".to_string())
        .handler(1)
        .method("FETCH".to_string())
        .group(0)
        .declare()
        .unwrap_err();
    match e {
        DeclareError::UnknownMethod { token } => assert_eq!(token, "FETCH"),
        _ => panic!("expected an unknown-method error"),
    }
}

#[test]
fn bad_template_is_rejected() {
    let e = RouteBuilder::new()
        .path("/x/{id:int32".to_string())
        .name("x".to_string())
        .returning("String".to_string())
        .handler(1)
        .method("GET".to_string())
        .group(0)
        .declare()
        .unwrap_err();
    assert!(matches!(
        e,
        DeclareError::Template { error: PathError::UnexpectedEnd }
    ));
}

#[test]
fn declare_builds_pattern_and_bindings() {
    let d = RouteBuilder::new()
        .method("GET".to_string())
        .path("/expr/{val:int32}".to_string())
        .name("expr_route".to_string())
        .query(inline(vec![("times", TypeRef::Int32)]))
        .body(inline(vec![("plus", TypeRef::Int32)]))
        .returning("String".to_string())
        .handler(7)
        .group(0)
        .declare()
        .unwrap();
    assert_eq!(d.method, HttpMethod::Get);
    assert_eq!(d.pattern, "/expr/:val");
    assert_eq!(d.handler, 7);
    assert_eq!(d.group, 0);
    let q = d.query_binding.as_ref().unwrap();
    assert_eq!(q.ty_name, "ExprRouteQueryParams");
    assert_eq!(q.binding_name, "query");
    let b = d.body_binding.as_ref().unwrap();
    assert_eq!(b.ty_name, "ExprRouteBodyParams");
    assert_eq!(b.binding_name, "body");
}

#[test]
fn named_extractor_type_is_kept() {
    let d = RouteBuilder::new()
        .method("POST".to_string())
        .path("/submit".to_string())
        .name("submit".to_string())
        .query(ExtractorSpec::NamedType { ty_name: "MyQuery".to_string() })
        .returning("String".to_string())
        .handler(2)
        .group(0)
        .declare()
        .unwrap();
    let q = d.query_binding.as_ref().unwrap();
    assert_eq!(q.ty_name, "MyQuery");
    assert_eq!(q.binding_name, "query");
    assert!(d.body_binding.is_none());
}

#[test]
fn pascal_casing_derives_distinct_binding_types() {
    let shape = inline(vec![("n", TypeRef::Int32)]);
    let b = bind_extractor(&shape, "list_users", ExtractorKind::Query);
    assert_eq!(b.ty_name, "ListUsersQueryParams");
    let b = bind_extractor(&shape, "list_users", ExtractorKind::Body);
    assert_eq!(b.ty_name, "ListUsersBodyParams");
}

#[test]
fn handler_signature_order_is_fixed() {
    let d = RouteBuilder::new()
        .method("GET".to_string())
        .path("/expr/{val:int32}/of/{kind:String}".to_string())
        .name("expr_route".to_string())
        .query(inline(vec![("times", TypeRef::Int32)]))
        .body(inline(vec![("plus", TypeRef::Int32)]))
        .param("depth".to_string(), "usize".to_string())
        .returning("String".to_string())
        .handler(7)
        .group(0)
        .declare()
        .unwrap();
    let sig = d.handler_signature();
    assert_eq!(sig.len(), 5);
    match &sig[0] {
        HandlerArg::PathParam { name, ty } => {
            assert_eq!(name, "val");
            assert_eq!(*ty, TypeRef::Int32);
        }
        _ => panic!("expected the first path parameter"),
    }
    match &sig[1] {
        HandlerArg::PathParam { name, ty } => {
            assert_eq!(name, "kind");
            assert_eq!(*ty, TypeRef::Str);
        }
        _ => panic!("expected the second path parameter"),
    }
    match &sig[2] {
        HandlerArg::QueryArg { binding } => {
            assert_eq!(binding.ty_name, "ExprRouteQueryParams");
            assert_eq!(binding.binding_name, "query");
        }
        _ => panic!("expected the query argument"),
    }
    match &sig[3] {
        HandlerArg::BodyArg { binding } => {
            assert_eq!(binding.ty_name, "ExprRouteBodyParams");
            assert_eq!(binding.binding_name, "body");
        }
        _ => panic!("expected the body argument"),
    }
    match &sig[4] {
        HandlerArg::Extra { name, ty_name } => {
            assert_eq!(name, "depth");
            assert_eq!(ty_name, "usize");
        }
        _ => panic!("expected the extra parameter"),
    }
}
