use std::sync::Arc;
use trek::context::{Context, Step};
use trek::method::Method;
use trek::middleware::{CookiesMiddleware, Logger, NotFound};
use trek::response::Response;
use trek::router::Router;

fn wrap(pre: &str, post: &str) -> Step {
    Step::Wrap { pre: pre.as_bytes().to_vec(), post: post.as_bytes().to_vec() }
}

fn body_string(r: Response) -> String {
    String::from_utf8(r.body).unwrap()
}

#[test]
fn onion_ordering_marks() {
    // middleware A, B and handler H in registration order: the marks
    // interleave as A-pre, B-pre, H, B-post, A-post
    let chain = vec![
        Arc::new(wrap("A-pre,", ",A-post")),
        Arc::new(wrap("B-pre,", ",B-post")),
        Arc::new(Step::Text("H".to_string())),
    ];
    let cx: Context<(), Step> = Context::new(Arc::new(()), vec![], chain);
    let res = cx.next();
    assert_eq!(res.status, 200);
    assert_eq!(body_string(res), "A-pre,B-pre,H,B-post,A-post");
}

#[test]
fn empty_chain_answers_no_content() {
    let cx: Context<(), Step> = Context::new(Arc::new(()), vec![], vec![]);
    let res = cx.next();
    assert_eq!(res.status, 200);
    assert!(res.headers.is_empty());
    assert!(res.body.is_empty());
}

#[test]
fn terminal_ignores_later_steps() {
    // the terminal handler never continues the chain, so steps behind it
    // cannot run
    let chain = vec![
        Arc::new(Step::Text("first".to_string())),
        Arc::new(wrap("never,", ",never")),
    ];
    let cx: Context<(), Step> = Context::new(Arc::new(()), vec![], chain);
    assert_eq!(body_string(cx.next()), "first");
}

#[test]
fn echo_param_requires_one_capture() {
    let params = vec![("name".to_string(), "crab".to_string())];
    let chain = vec![Arc::new(Step::EchoParam)];
    let cx: Context<(), Step> = Context::new(Arc::new(()), params, chain);
    assert_eq!(body_string(cx.next()), "crab");

    let chain = vec![Arc::new(Step::EchoParam)];
    let cx: Context<(), Step> = Context::new(Arc::new(()), vec![], chain);
    let res = cx.next();
    assert_eq!(res.status, 500);
    assert_eq!(body_string(res), "wrong number of parameters: 0 expected 1");
}

#[test]
fn not_found_step_and_middleware() {
    // the terminal step
    let chain = vec![Arc::new(Step::NotFound)];
    let cx: Context<(), Step> = Context::new(Arc::new(()), vec![], chain);
    let res = cx.next();
    assert_eq!(res.status, 404);
    assert!(res.body.is_empty());

    // the standalone middleware answers the same, whatever the context held
    let cx: Context<(), Step> = Context::new(
        Arc::new(()),
        vec![("a".to_string(), "b".to_string())],
        vec![Arc::new(Step::Text("unreached".to_string()))],
    );
    let res = NotFound::new().call(cx);
    assert_eq!(res.status, 404);
    assert!(res.headers.is_empty());
    assert!(res.body.is_empty());

    // the other bundled middleware construct as markers
    let _ = Logger::new();
    let _ = CookiesMiddleware::new();
}

#[test]
fn take_step_walks_the_chain() {
    let chain = vec![Arc::new(wrap("x", "y")), Arc::new(Step::Text("end".to_string()))];
    let mut cx: Context<u8, Step> = Context::new(Arc::new(9), vec![], chain);
    assert_eq!(*cx.state(), 9);
    let first = cx.take_step().unwrap();
    assert!(matches!(&*first, Step::Wrap { .. }));
    let second = cx.take_step().unwrap();
    assert!(matches!(&*second, Step::Text(_)));
    assert!(cx.take_step().is_none());
}

#[test]
fn wrapped_chain_through_router() {
    // the same interleaving observed end to end: middleware registered on
    // the router wraps what find hands back
    let mut router: Router<Step> = Router::new();
    router.middleware(wrap("[", "]"));
    router.get("/w", Step::Text("core".to_string()));
    let (m, p) = router.find(Method::Get, "/w").unwrap();
    let cx: Context<(), Step> = Context::new(Arc::new(()), p, m);
    assert_eq!(body_string(cx.next()), "[core]");
}

#[test]
fn scope_isolation_marks() {
    // middleware added inside a scope wraps the scope's routes and nothing
    // registered on the parent after the scope is merged back
    let mut router: Router<Step> = Router::new();
    router.middleware(wrap("[", "]"));
    let mut inner = router.scope("/a");
    inner.middleware(wrap("(", ")"));
    inner.get("/x", Step::Text("x".to_string()));
    router.merge(inner);
    router.get("/y", Step::Text("y".to_string()));

    let (m, p) = router.find(Method::Get, "/a/x").unwrap();
    let cx: Context<(), Step> = Context::new(Arc::new(()), p, m);
    assert_eq!(body_string(cx.next()), "[(x)]");

    let (m, p) = router.find(Method::Get, "/y").unwrap();
    let cx: Context<(), Step> = Context::new(Arc::new(()), p, m);
    assert_eq!(body_string(cx.next()), "[y]");
}
