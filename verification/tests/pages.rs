use micro_http_async::html_loader::{FileLoader, HtmlConstructor};
use micro_http_async::json_response::JSONResponse;
use micro_http_async::response::Response;
use micro_http_async::string_map::StringMap;

fn vars(pairs: &[(&str, &str)]) -> StringMap<String> {
    let mut m = StringMap::new();
    for (k, v) in pairs {
        m.insert(String::from(*k), String::from(*v));
    }
    m
}

#[test]
fn status_codes_fall_into_families() {
    assert_eq!(Response::from(200), Response::Success);
    assert_eq!(Response::from(204), Response::Success);
    assert_eq!(Response::from(299), Response::Success);
    assert_eq!(Response::from(300), Response::Redirect);
    assert_eq!(Response::from(301), Response::Redirect);
    assert_eq!(Response::from(399), Response::Redirect);
    assert_eq!(Response::from(400), Response::ClientErr);
    assert_eq!(Response::from(404), Response::ClientErr);
    assert_eq!(Response::from(499), Response::ClientErr);
    assert_eq!(Response::from(500), Response::ServerErr);
    assert_eq!(Response::from(599), Response::ServerErr);
    assert_eq!(Response::from(600), Response::ServerErr);
    assert_eq!(Response::from(199), Response::ServerErr);
    assert_eq!(Response::from(0), Response::ServerErr);
    assert_eq!(Response::from(u32::MAX), Response::ServerErr);
}

#[test]
fn each_family_has_one_status_line() {
    let body = String::from("{\"name\":\"x\"}");
    assert_eq!(
        JSONResponse::construct_response(Response::Success, body.clone()),
        "HTTP/1.1 200 OK\r\n\r\n{\"name\":\"x\"}"
    );
    assert_eq!(
        JSONResponse::construct_response(Response::Redirect, body.clone()),
        "HTTP/1.1 301 MOVED PERMANENTLY\r\n\r\n{\"name\":\"x\"}"
    );
    assert_eq!(
        JSONResponse::construct_response(Response::ClientErr, body.clone()),
        "HTTP/1.1 404 NOT FOUND\r\n\r\n{\"name\":\"x\"}"
    );
    assert_eq!(
        JSONResponse::construct_response(Response::ServerErr, body),
        "HTTP/1.1 500 INTERNAL SERVER ERROR\r\n\r\n{\"name\":\"x\"}"
    );
    assert_eq!(
        JSONResponse::construct_response(Response::from(418), String::new()),
        "HTTP/1.1 404 NOT FOUND\r\n\r\n"
    );
}

#[test]
fn template_bytes_become_text() {
    assert_eq!(FileLoader::load_template(b"<p>hi</p>".to_vec()), Some(String::from("<p>hi</p>")));
    assert_eq!(FileLoader::load_template(vec![0xe2, 0x82, 0xac]), Some(String::from("\u{20ac}")));
    assert_eq!(FileLoader::load_template(Vec::new()), Some(String::new()));
    assert_eq!(FileLoader::load_template(vec![0xe2, 0x82]), None);
}

#[test]
fn tokens_are_replaced_by_values() {
    let page = HtmlConstructor::set_dynamic_vars(
        String::from("<p>[ name ]</p><b>[ n ]</b>[ name ][name][ other ]"),
        &vars(&[("name", "Ann"), ("n", "3"), ("unused", "x")]),
    );
    assert_eq!(page, "<p>Ann</p><b>3</b>Ann[name][ other ]");
}

#[test]
fn values_are_put_in_name_by_name() {
    let page = HtmlConstructor::set_dynamic_vars(
        String::from("[ a ]"),
        &vars(&[("a", "[ b ]"), ("b", "done")]),
    );
    assert_eq!(page, "done");
    let page = HtmlConstructor::set_dynamic_vars(
        String::from("[ a ]"),
        &vars(&[("b", "done"), ("a", "[ b ]")]),
    );
    assert_eq!(page, "[ b ]");
    let page = HtmlConstructor::set_dynamic_vars(String::from("[ a ]"), &vars(&[]));
    assert_eq!(page, "[ a ]");
}

#[test]
fn page_is_built_from_file_bytes() {
    assert_eq!(
        HtmlConstructor::construct_page(b"Hello, [ who ]!".to_vec(), &vars(&[("who", "world")])),
        Some(String::from("Hello, world!"))
    );
    assert_eq!(HtmlConstructor::construct_page(vec![0xff], &vars(&[("who", "world")])), None);
}
