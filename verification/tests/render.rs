use trek::serve::{render_breadcrumb, render_directory, render_file, replace_all, ServeConfig, ServeHandler};

#[test]
fn replacement_is_textual_and_leftmost() {
    assert_eq!(replace_all("hello {{x}}", "{{x}}", "world"), "hello world");
    assert_eq!(replace_all("{{x}} and {{x}}", "{{x}}", "y"), "y and y");
    assert_eq!(replace_all("nothing here", "{{x}}", "y"), "nothing here");
    assert_eq!(replace_all("aaa", "aa", "b"), "ba");
    assert_eq!(replace_all("abc", "", "y"), "abc");
    assert_eq!(replace_all("", "x", "y"), "");
}

#[test]
fn breadcrumb_entry() {
    assert_eq!(
        render_breadcrumb("/docs", "docs"),
        "<a href=\"/docs\">docs/</a>"
    );
}

#[test]
fn file_entry() {
    assert_eq!(
        render_file("/docs/a.txt", "a.txt", "file", "txt", "a.txt"),
        "<li><a href=\"/docs/a.txt\" title=\"a.txt\" class=\"file txt\">a.txt</a></li>"
    );
}

#[test]
fn directory_page() {
    let page = render_directory("docs", "<a href=\"/\">/</a>", "<li>one</li>");
    assert_eq!(
        page,
        "<!DOCTYPE html><html><head><meta charset=\"utf-8\"><title>docs</title></head><body><h1><a href=\"/\">/</a></h1><ul><li>one</li></ul></body></html>"
    );
}

#[test]
fn serve_configuration() {
    let mut config = ServeConfig::new("/srv/public".to_string());
    config.unlisted(vec!["secrets", "tmp"]);
    let _handler = ServeHandler::new(config);
}
