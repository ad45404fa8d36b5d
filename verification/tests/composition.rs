use axum_distributed_routing::composer::{create_router, Router};
use axum_distributed_routing::extractor::{ExtractorSpec, FieldDef};
use axum_distributed_routing::method::HttpMethod;
use axum_distributed_routing::param_type::TypeRef;
use axum_distributed_routing::registry::{Registry, RegistryError};
use axum_distributed_routing::route::{RouteBuilder, RouteDeclaration};

fn route(method: &str, path: &str, name: &str, handler: u64, group: usize) -> RouteDeclaration {
    RouteBuilder::new()
        .method(method.to_string())
        .path(path.to_string())
        .name(name.to_string())
        .returning("String".to_string())
        .handler(handler)
        .group(group)
        .declare()
        .unwrap()
}

fn triples(r: &Router) -> Vec<(HttpMethod, String, String)> {
    let mut v: Vec<(HttpMethod, String, String)> = r
        .routes
        .iter()
        .map(|x| (x.method, x.path.clone(), x.state_type.clone()))
        .collect();
    v.sort_by(|a, b| (a.1.clone(), a.2.clone()).cmp(&(b.1.clone(), b.2.clone())));
    v
}

#[test]
fn empty_group_composes_to_empty_router() {
    let mut reg = Registry::new();
    let g = reg.create_group("root".to_string(), "()".to_string());
    let r = create_router(&reg, g, 0).unwrap();
    assert_eq!(r.routes.len(), 0);
}

#[test]
fn missing_group_yields_none() {
    let reg = Registry::new();
    assert!(create_router(&reg, 0, 0).is_none());
}

#[test]
fn registering_into_missing_group_fails() {
    let mut reg = Registry::new();
    let d = route("GET", "/x", "x", 1, 9);
    assert_eq!(reg.register_route(9, d), Err(RegistryError::NoSuchGroup));
    assert_eq!(
        reg.create_subgroup("c".to_string(), "()".to_string(), 3, "/c".to_string())
            .unwrap_err(),
        RegistryError::NoSuchGroup
    );
}

#[test]
fn single_route_composes() {
    let mut reg = Registry::new();
    let g = reg.create_group("root".to_string(), "AppState".to_string());
    reg.register_route(g, route("GET", "/health", "health", 1, g)).unwrap();
    let r = create_router(&reg, g, 0).unwrap();
    assert_eq!(r.routes.len(), 1);
    assert_eq!(r.routes[0].method, HttpMethod::Get);
    assert_eq!(r.routes[0].path, "/health");
    assert_eq!(r.routes[0].state_type, "AppState");
    assert_eq!(r.routes[0].handler, 1);
}

#[test]
fn nested_route_is_reachable_under_parent_prefix() {
    let mut reg = Registry::new();
    let root = reg.create_group("root".to_string(), "AppState".to_string());
    let api = reg
        .create_subgroup("api".to_string(), "AppState".to_string(), root, "/api".to_string())
        .unwrap();
    reg.register_route(api, route("GET", "/health", "health", 1, api)).unwrap();
    let r = create_router(&reg, root, 0).unwrap();
    assert_eq!(r.routes.len(), 1);
    assert_eq!(r.routes[0].path, "/api/health");
    assert_eq!(r.routes[0].method, HttpMethod::Get);
}

#[test]
fn nesting_composes_through_two_levels() {
    let mut reg = Registry::new();
    let root = reg.create_group("root".to_string(), "AppState".to_string());
    let api = reg
        .create_subgroup("api".to_string(), "AppState".to_string(), root, "/api".to_string())
        .unwrap();
    let v1 = reg
        .create_subgroup("v1".to_string(), "AppState".to_string(), api, "/v1".to_string())
        .unwrap();
    reg.register_route(v1, route("GET", "/users/{id:uint64}", "get_user", 4, v1)).unwrap();
    reg.register_route(root, route("GET", "/ping", "ping", 5, root)).unwrap();
    let r = create_router(&reg, root, 0).unwrap();
    let ts = triples(&r);
    assert_eq!(ts.len(), 2);
    assert_eq!(ts[0], (HttpMethod::Get, "/api/v1/users/:id".to_string(), "AppState".to_string()));
    assert_eq!(ts[1], (HttpMethod::Get, "/ping".to_string(), "AppState".to_string()));
}

#[test]
fn composing_twice_gives_identical_tables() {
    let mut reg = Registry::new();
    let root = reg.create_group("root".to_string(), "AppState".to_string());
    let api = reg
        .create_subgroup("api".to_string(), "AppState".to_string(), root, "/api".to_string())
        .unwrap();
    reg.register_route(root, route("GET", "/a", "a", 1, root)).unwrap();
    reg.register_route(api, route("POST", "/b", "b", 2, api)).unwrap();
    let r1 = create_router(&reg, root, 0).unwrap();
    let r2 = create_router(&reg, root, 0).unwrap();
    assert_eq!(triples(&r1), triples(&r2));
    assert_eq!(r1.routes.len(), r2.routes.len());
    for (x, y) in r1.routes.iter().zip(r2.routes.iter()) {
        assert_eq!(x.method, y.method);
        assert_eq!(x.path, y.path);
        assert_eq!(x.state_type, y.state_type);
        assert_eq!(x.handler, y.handler);
    }
}

#[test]
fn registration_order_does_not_change_the_route_set() {
    let build = |order: [u64; 3]| {
        let mut reg = Registry::new();
        let root = reg.create_group("root".to_string(), "AppState".to_string());
        for h in order {
            let (m, p, n) = match h {
                1 => ("GET", "/a", "a"),
                2 => ("POST", "/b", "b"),
                _ => ("DELETE", "/c/{id:int32}", "c"),
            };
            reg.register_route(root, route(m, p, n, h, root)).unwrap();
        }
        let r = create_router(&reg, root, 0).unwrap();
        triples(&r)
    };
    let base = build([1, 2, 3]);
    assert_eq!(build([3, 1, 2]), base);
    assert_eq!(build([2, 3, 1]), base);
    assert_eq!(build([3, 2, 1]), base);
}

fn inline(fields: Vec<(&str, TypeRef)>) -> ExtractorSpec {
    ExtractorSpec::InlineFields {
        fields: fields
            .into_iter()
            .map(|(n, t)| FieldDef { name: n.to_string(), ty: t })
            .collect(),
    }
}

fn expr_handler(val: i32, times: i32, plus: i32) -> String {
    format!("{} * {} + {} = {}", val, times, plus, val * times + plus)
}

#[test]
fn expr_route_scenario() {
    let expr_handler_id: u64 = 7;
    let mut reg = Registry::new();
    let root = reg.create_group("root".to_string(), "()".to_string());
    let d = RouteBuilder::new()
        .method("GET".to_string())
        .path("/expr/{val:int32}".to_string())
        .name("expr_route".to_string())
        .query(inline(vec![("times", TypeRef::Int32)]))
        .body(inline(vec![("plus", TypeRef::Int32)]))
        .returning("String".to_string())
        .handler(expr_handler_id)
        .group(root)
        .declare()
        .unwrap();
    reg.register_route(root, d).unwrap();
    let r = create_router(&reg, root, 0).unwrap();
    assert_eq!(r.routes.len(), 1);
    let rt = &r.routes[0];
    assert_eq!(rt.method, HttpMethod::Get);
    assert_eq!(rt.path, "/expr/:val");
    assert_eq!(rt.handler, expr_handler_id);
    // Dispatching GET /expr/5?times=3 with body {"plus":2} decodes val=5,
    // times=3, plus=2 and invokes the handler registered under that id.
    let response = if rt.handler == expr_handler_id {
        expr_handler(5, 3, 2)
    } else {
        panic!("no handler registered under that id")
    };
    assert_eq!(response, "5 * 3 + 2 = 17");
}

#[test]
fn unterminated_template_never_reaches_the_registry() {
    let e = RouteBuilder::new()
        .method("GET".to_string())
        .path("/x/{id:int32".to_string())
        .name("x".to_string())
        .returning("String".to_string())
        .handler(1)
        .group(0)
        .declare();
    assert!(e.is_err());
}
