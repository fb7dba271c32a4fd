use std::sync::Arc;
use trek::context::{Context, Step};
use trek::method::Method;
use trek::resources::{Resource, Resources};
use trek::response::Response;
use trek::router::Router;

fn text(s: &str) -> Step {
    Step::Text(s.to_string())
}

fn body_string(r: Response) -> String {
    String::from_utf8(r.body).unwrap()
}

struct State {}

fn dispatch(router: &Router<Step>, method: Method, path: &str) -> (Vec<(String, String)>, String) {
    let r = router.find(method, path);
    assert!(r.is_some());
    let (m, p) = r.unwrap();
    let cx: Context<State, Step> = Context::new(Arc::new(State {}), p.clone(), m);
    (p, body_string(cx.next()))
}

#[test]
fn new_resources() {
    let mut router: Router<Step> = Router::new();

    router.get("/", text("home"));
    router.resource(
        "/geocoder",
        &vec![
            (Resource::Show, Arc::new(text("show: geocoder"))),
            (Resource::New, Arc::new(text("new: geocoder"))),
        ],
    );
    router.resources(
        "/books",
        &vec![
            (Resources::Show, Arc::new(text("show: book"))),
            (Resources::New, Arc::new(text("new: book"))),
        ],
    );

    let router = Arc::new(router);

    let (p, body) = dispatch(&router, Method::Get, "/geocoder");
    assert_eq!(p, Vec::<(String, String)>::new());
    assert_eq!("show: geocoder", body);

    let (p, body) = dispatch(&router, Method::Get, "/geocoder/new");
    assert_eq!(p, Vec::<(String, String)>::new());
    assert_eq!("new: geocoder", body);

    let r = router.find(Method::Get, "/books/233");
    assert!(r.is_some());
    let (m, p) = r.unwrap();
    assert_eq!(p, vec![("book_id".to_string(), "233".to_string())]);
    let cx: Context<State, Step> = Context::new(Arc::new(State {}), p, m);
    let id = cx.params().one_u64().unwrap();
    assert_eq!(id, 233);
    assert_eq!("show: book", body_string(cx.next()));

    let (p, body) = dispatch(&router, Method::Get, "/books/new");
    assert_eq!(p, Vec::<(String, String)>::new());
    assert_eq!("new: book", body);
}
