use trek::error::{RequestError, RequestErrorKind};
use trek::response::{html, result_into_response, IntoResponse, Response, WithStatus};

fn header<'a>(r: &'a Response, name: &str) -> Option<&'a str> {
    r.headers.iter().find(|(k, _)| k == name).map(|(_, v)| v.as_str())
}

#[test]
fn string_conversion() {
    let r = "Star Trek!".to_string().into_response();
    assert_eq!(r.status, 200);
    assert_eq!(header(&r, "content-type"), Some("text/plain; charset=utf-8"));
    assert_eq!(r.body, b"Star Trek!".to_vec());

    let r = "slice".into_response();
    assert_eq!(r.status, 200);
    assert_eq!(r.body, b"slice".to_vec());
}

#[test]
fn byte_and_unit_conversion() {
    let r = vec![1u8, 2, 3].into_response();
    assert_eq!(r.status, 200);
    assert_eq!(header(&r, "content-type"), Some("application/octet-stream"));
    assert_eq!(r.body, vec![1, 2, 3]);

    let r = ().into_response();
    assert_eq!(r.status, 204);
    assert!(r.headers.is_empty());
    assert!(r.body.is_empty());

    let r = 418u16.into_response();
    assert_eq!(r.status, 418);
    assert!(r.body.is_empty());
}

#[test]
fn status_override_and_html() {
    let r = (WithStatus { inner: "made".to_string(), status: 201 }).into_response();
    assert_eq!(r.status, 201);
    assert_eq!(r.body, b"made".to_vec());

    let r = html("<p>hi</p>");
    assert_eq!(r.status, 200);
    assert_eq!(header(&r, "content-type"), Some("text/html; charset=utf-8"));
    assert_eq!(r.body, b"<p>hi</p>".to_vec());
}

#[test]
fn result_conversion() {
    let ok: Result<String, u16> = Ok("fine".to_string());
    let r = result_into_response(ok);
    assert_eq!(r.status, 200);
    assert_eq!(r.body, b"fine".to_vec());

    // the error arm converts through its own conversion, and never reports
    // success
    let err: Result<String, u16> = Err(503);
    let r = result_into_response(err);
    assert_eq!(r.status, 503);
    assert!(r.body.is_empty());
}

#[test]
fn request_error_mapping() {
    // each condition maps to its fixed status
    let e = RequestError::new(RequestErrorKind::NotFound, "gone".to_string());
    assert_eq!(e.error_response().status, 404);
    let e = RequestError::new(RequestErrorKind::PermissionDenied, "no".to_string());
    assert_eq!(e.error_response().status, 403);
    let e = RequestError::new(RequestErrorKind::Other, "boom".to_string());
    assert_eq!(e.error_response().status, 500);
    assert!(e.error_response().body.is_empty());

    // rendering carries the message as a plain-text body
    let e = RequestError::new(RequestErrorKind::NotFound, "no such book".to_string());
    let r = e.render_response();
    assert_eq!(r.status, 404);
    assert_eq!(header(&r, "content-type"), Some("text/plain; charset=utf-8"));
    assert_eq!(r.body, b"no such book".to_vec());

    // an error converts into a response, and the conversion is never a
    // success status
    let e = RequestError::new(RequestErrorKind::Other, "boom".to_string());
    let r = result_into_response(Err::<String, _>(e));
    assert_eq!(r.status, 500);
}
