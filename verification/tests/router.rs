use std::sync::Arc;
use trek::context::{Context, Step};
use trek::method::Method;
use trek::response::Response;
use trek::router::Router;
use trek::trek::Trek;

fn text(s: &str) -> Step {
    Step::Text(s.to_string())
}

fn body_string(r: Response) -> String {
    String::from_utf8(r.body).unwrap()
}

struct State {}

fn dispatch(router: &Router<Step>, method: Method, path: &str) -> (Vec<(String, String)>, String) {
    let r = router.find(method, path);
    assert!(r.is_some());
    let (m, p) = r.unwrap();
    let cx: Context<State, Step> = Context::new(Arc::new(State {}), p.clone(), m);
    (p, body_string(cx.next()))
}

#[test]
fn new_router() {
    let mut router: Router<Step> = Router::new();

    router.get("/", text("home"));

    // scope v1
    let mut v1 = router.scope("/v1");
    v1.get("/login", text("v1 login"));
    v1.post("/submit", text("1"));
    v1.delete("/read", text("2"));

    let mut users = v1.scope("/users");
    users.get("", text("get users"));
    users.get("/:id", text("get users :id"));
    users.post("/:id", text("update users :id"));
    v1.merge(users);
    router.merge(v1);

    // scope v2
    let mut v2 = router.scope("/v2");
    v2.get("/login", text("0"));
    v2.post("/submit", text("1"));
    v2.delete("/read", text("2"));
    router.merge(v2);

    router.get("/foo", text("3"));
    router.post("/bar", text("4"));
    router.delete("/baz", text("5"));

    // scope admin
    let mut admin = router.scope("admin");
    admin.any("", text("6"));
    router.merge(admin);

    let router = Arc::new(router);

    let (p, body) = dispatch(&router, Method::Get, "/");
    assert_eq!(p, Vec::<(String, String)>::new());
    assert_eq!("home", body);

    let (p, body) = dispatch(&router, Method::Get, "/v1/login");
    assert_eq!(p, Vec::<(String, String)>::new());
    assert_eq!("v1 login", body);

    let (p, body) = dispatch(&router, Method::Post, "/v2/submit");
    assert_eq!(p, Vec::<(String, String)>::new());
    assert_eq!("1", body);

    let (p, body) = dispatch(&router, Method::Get, "/foo");
    assert_eq!(p, Vec::<(String, String)>::new());
    assert_eq!("3", body);

    let (p, body) = dispatch(&router, Method::Post, "/bar");
    assert_eq!(p, Vec::<(String, String)>::new());
    assert_eq!("4", body);

    let (p, body) = dispatch(&router, Method::Delete, "/baz");
    assert_eq!(p, Vec::<(String, String)>::new());
    assert_eq!("5", body);

    let (p, body) = dispatch(&router, Method::Head, "/admin");
    assert_eq!(p, Vec::<(String, String)>::new());
    assert_eq!("6", body);

    let (p, body) = dispatch(&router, Method::Options, "/admin");
    assert_eq!(p, Vec::<(String, String)>::new());
    assert_eq!("6", body);

    let (p, body) = dispatch(&router, Method::Get, "/v1/users");
    assert_eq!(p, Vec::<(String, String)>::new());
    assert_eq!("get users", body);

    let (p, body) = dispatch(&router, Method::Get, "/v1/users/fundon");
    assert_eq!(p, vec![("id".to_string(), "fundon".to_string())]);
    assert_eq!("get users :id", body);

    let r = router.find(Method::Post, "/v1/users/fundon");
    assert!(r.is_some());
    let (m, p) = r.unwrap();
    assert_eq!(p, vec![("id".to_string(), "fundon".to_string())]);
    let cx: Context<State, Step> = Context::new(Arc::new(State {}), p, m);
    let s = cx.params().one_string().unwrap();
    assert_eq!(s, "fundon");
    assert_eq!("update users :id", body_string(cx.next()));
}

#[test]
fn find_no_match_returns_none() {
    let mut router: Router<Step> = Router::new();
    router.get("/users/:id", text("user"));

    // an unregistered path: no handler is invoked, the transport substitutes
    // the fixed not-found response
    assert!(router.find(Method::Get, "/nothing/here").is_none());
    let fallback = Response::not_found();
    assert_eq!(fallback.status, 404);
    assert!(fallback.body.is_empty());

    // an unregistered method on a registered path
    assert!(router.find(Method::Post, "/users/42").is_none());

    // the registered method captures the parameter
    let (_, p) = router.find(Method::Get, "/users/42").unwrap();
    assert_eq!(p, vec![("id".to_string(), "42".to_string())]);
}

#[test]
fn trek_app_builds_routes() {
    let mut app: Trek<u32, Step> = Trek::with_state(7);
    app.router.get("/hello", text("hello"));
    assert_eq!(app.state, 7);
    let (p, body) = dispatch(&app.router, Method::Get, "/hello");
    assert!(p.is_empty());
    assert_eq!("hello", body);

    let mut plain: Trek<(), Step> = Trek::new();
    plain.router.get("/", text("root"));
    assert!(plain.router.find(Method::Get, "/").is_some());
}

#[test]
fn capture_rename_shares_the_route_slot() {
    // the matcher keys a capture segment by its position, not its name, so
    // a pattern that differs only in the capture name replaces the earlier
    // route and renames the capture
    let mut router: Router<Step> = Router::new();
    router.get("/users/:id", text("by id"));
    router.get("/users/:name", text("by name"));

    let (p, body) = dispatch(&router, Method::Get, "/users/42");
    assert_eq!(p, vec![("name".to_string(), "42".to_string())]);
    assert_eq!("by name", body);
}
