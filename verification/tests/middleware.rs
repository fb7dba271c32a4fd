use std::sync::Arc;
use trek::context::{Context, Step};
use trek::method::Method;
use trek::response::Response;
use trek::router::Router;

fn text(s: &str) -> Step {
    Step::Text(s.to_string())
}

fn wrap(pre: &str, post: &str) -> Step {
    Step::Wrap { pre: pre.as_bytes().to_vec(), post: post.as_bytes().to_vec() }
}

fn body_string(r: Response) -> String {
    String::from_utf8(r.body).unwrap()
}

struct State {}

fn dispatch(router: &Router<Step>, method: Method, path: &str) -> (Vec<(String, String)>, String) {
    let r = router.find(method, path);
    assert!(r.is_some());
    let (m, p) = r.unwrap();
    let cx: Context<State, Step> = Context::new(Arc::new(State {}), p.clone(), m);
    (p, body_string(cx.next()))
}

#[test]
fn new_middleware() {
    let mut router: Router<Step> = Router::new();

    // middleware A, B and C only observe the request on its way through, so
    // their marks are empty and every body reaches the client unchanged
    router.middleware(wrap("", ""));

    router.get("/", text("home"));
    let mut users = router.scope("/users");
    users.middleware(wrap("", ""));
    users.get("", text("users"));
    users.clear_middleware();
    users.middleware(wrap("", ""));
    users.get("/", text("users index"));
    users.get("/:name", Step::EchoParam);
    router.merge(users);

    let router = Arc::new(router);

    let (p, body) = dispatch(&router, Method::Get, "/");
    assert_eq!(p, Vec::<(String, String)>::new());
    assert_eq!("home", body);

    let (p, body) = dispatch(&router, Method::Get, "/users");
    assert_eq!(p, Vec::<(String, String)>::new());
    assert_eq!("users", body);

    let (p, body) = dispatch(&router, Method::Get, "/users/");
    assert_eq!(p, Vec::<(String, String)>::new());
    assert_eq!("users index", body);

    let (p, body) = dispatch(&router, Method::Get, "/users/crab");
    assert_eq!(p, vec![("name".to_string(), "crab".to_string())]);
    assert_eq!("crab", body);
}

#[test]
fn middleware_example() {
    // three layers around a terminal handler, composed by hand
    let chain = vec![
        Arc::new(wrap("", "")),
        Arc::new(wrap("", "")),
        Arc::new(wrap("", "")),
        Arc::new(text("trek")),
    ];
    let cx: Context<(), Step> = Context::new(Arc::new(()), vec![], chain);
    let res = cx.next();
    assert_eq!("trek", body_string(res));
}
