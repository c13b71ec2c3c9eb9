use micro_http_async::request::{HttpMethod, ParseError, PeerAddr, Request};
use micro_http_async::routes::{
    chunked_body, DataType, Dispatch, Route, RouteDef, Routes, BINARY_HEAD, CHUNK_SIZE, ERROR_ROUTE,
    NOT_AVAILABLE, STATIC_MARK, TEXT_HEAD,
};
use std::cell::RefCell;
use std::rc::Rc;

struct Recorder {
    name: &'static str,
    seen: Rc<RefCell<Vec<String>>>,
    fail: bool,
}

impl RouteDef for Recorder {
    fn call(&self, request: Request) -> Result<String, String> {
        self.seen.borrow_mut().push(format!("{}:{}", self.name, request.uri));
        if self.fail {
            Err(format!("{} failed", self.name))
        } else {
            Ok(format!("{} {:?} {}", self.name, request.method, request.user_addr.port))
        }
    }
}

fn recorder(name: &'static str, seen: &Rc<RefCell<Vec<String>>>, fail: bool) -> Route<dyn RouteDef> {
    Route::new(Box::new(Recorder { name, seen: seen.clone(), fail }))
}

fn peer() -> PeerAddr {
    PeerAddr { host: String::from("10.0.0.1"), port: 55 }
}

fn table(seen: &Rc<RefCell<Vec<String>>>) -> Routes<dyn RouteDef> {
    let mut routes: Routes<dyn RouteDef> = Routes::new();
    routes.add_route(String::from("/hello"), recorder("hello", seen, false));
    routes.add_route(String::from("err"), recorder("err", seen, false));
    routes
}

#[test]
fn registered_handler_is_invoked_once_with_the_request() {
    let seen = Rc::new(RefCell::new(Vec::new()));
    let routes = table(&seen);
    let r = routes.get_route(String::from("GET /hello HTTP/1.1"), peer(), false);
    assert_eq!(r, Ok(Dispatch::Reply(DataType::Text(String::from("hello Some(Get) 55")))));
    assert_eq!(*seen.borrow(), vec![String::from("hello:/hello")]);
}

#[test]
fn query_does_not_change_the_route() {
    let seen = Rc::new(RefCell::new(Vec::new()));
    let routes = table(&seen);
    let r = routes.get_route(String::from("POST /hello?x=1 HTTP/1.1"), peer(), true);
    assert_eq!(r, Ok(Dispatch::Reply(DataType::Text(String::from("hello Some(Post) 55")))));
    assert_eq!(*seen.borrow(), vec![String::from("hello:/hello")]);
}

#[test]
fn unregistered_uri_goes_to_the_error_handler() {
    let seen = Rc::new(RefCell::new(Vec::new()));
    let routes = table(&seen);
    let r = routes.get_route(String::from("GET /nowhere HTTP/1.1"), peer(), false);
    assert_eq!(r, Ok(Dispatch::Reply(DataType::Text(String::from("err Some(Get) 55")))));
    let r = routes.get_route(String::from("GET"), peer(), false);
    assert_eq!(r, Ok(Dispatch::Reply(DataType::Text(String::from("err Some(Get) 55")))));
    assert_eq!(*seen.borrow(), vec![String::from("err:/nowhere"), String::from("err:/error")]);
}

#[test]
fn later_registration_replaces_the_earlier() {
    let seen = Rc::new(RefCell::new(Vec::new()));
    let mut routes = table(&seen);
    routes.add_route(String::from("/hello"), recorder("second", &seen, false));
    let r = routes.get_route(String::from("GET /hello HTTP/1.1"), peer(), false);
    assert_eq!(r, Ok(Dispatch::Reply(DataType::Text(String::from("second Some(Get) 55")))));
    assert_eq!(*seen.borrow(), vec![String::from("second:/hello")]);
}

#[test]
fn failing_handler_gives_empty_text() {
    let seen = Rc::new(RefCell::new(Vec::new()));
    let mut routes = table(&seen);
    routes.add_route(String::from("/broken"), recorder("broken", &seen, true));
    let r = routes.get_route(String::from("GET /broken HTTP/1.1"), peer(), false);
    assert_eq!(r, Ok(Dispatch::Reply(DataType::Text(String::new()))));
    assert_eq!(*seen.borrow(), vec![String::from("broken:/broken")]);
    assert_eq!(DataType::from_handler(Err(String::from("why"))), DataType::Text(String::new()));
    assert_eq!(DataType::from_handler(Ok(String::from("body"))), DataType::Text(String::from("body")));
}

#[test]
fn route_runs_its_handler() {
    let seen = Rc::new(RefCell::new(Vec::new()));
    let route = recorder("solo", &seen, false);
    let q = Request::new(String::from("PUT /thing HTTP/1.1"), peer(), false).unwrap();
    assert_eq!(q.method, Some(HttpMethod::Put));
    assert_eq!(route.run(q), DataType::Text(String::from("solo Some(Put) 55")));
    assert_eq!(*seen.borrow(), vec![String::from("solo:/thing")]);
}

#[test]
fn static_uri_asks_for_the_file_and_runs_no_handler() {
    let seen = Rc::new(RefCell::new(Vec::new()));
    let mut routes = table(&seen);
    routes.add_route(String::from("/static/app.css"), recorder("never", &seen, false));
    let r = routes.get_route(String::from("GET /static/app.css?v=2 HTTP/1.1"), peer(), false);
    assert_eq!(r, Ok(Dispatch::ReadFile(String::from("./static/app.css"))));
    let r = routes.get_route(String::from("GET /my-statics HTTP/1.1"), peer(), false);
    assert_eq!(r, Ok(Dispatch::ReadFile(String::from("./my-statics"))));
    assert!(seen.borrow().is_empty());
}

#[test]
fn parse_error_is_handed_on() {
    let seen = Rc::new(RefCell::new(Vec::new()));
    let routes = table(&seen);
    let r = routes.get_route(
        String::from("POST /hello HTTP/1.1\r\nContent-Type: multipart/form-data"),
        peer(),
        false,
    );
    assert_eq!(r, Err(ParseError::MissingSeparator));
    assert!(seen.borrow().is_empty());
}

#[test]
fn select_falls_back_to_err() {
    let seen = Rc::new(RefCell::new(Vec::new()));
    let routes = table(&seen);
    assert!(routes.has_route("/hello"));
    assert!(routes.has_route("err"));
    assert!(!routes.has_route("/other"));
    let q = Request::new(String::from("GET /x HTTP/1.1"), peer(), false).unwrap();
    routes.select("/other").run(q);
    let q = Request::new(String::from("GET /y HTTP/1.1"), peer(), false).unwrap();
    routes.select("/hello").run(q);
    assert_eq!(*seen.borrow(), vec![String::from("err:/x"), String::from("hello:/y")]);
}

#[test]
fn missing_file_gives_the_fixed_message() {
    assert_eq!(
        DataType::from_static(None),
        DataType::Text(String::from("ERROR - CONTENT NOT AVAILABLE"))
    );
    assert_eq!(NOT_AVAILABLE, "ERROR - CONTENT NOT AVAILABLE");
}

#[test]
fn text_file_is_framed_in_chunks_of_eight() {
    let expected = format!("{}8\r\nhello wo\r\n3\r\nrld\r\n0\r\n\r\n", TEXT_HEAD);
    assert_eq!(DataType::from_static(Some(b"hello world".to_vec())), DataType::Text(expected));
}

#[test]
fn empty_file_is_only_the_closing_chunk() {
    let expected = format!("{}0\r\n\r\n", TEXT_HEAD);
    assert_eq!(DataType::from_static(Some(Vec::new())), DataType::Text(expected));
}

#[test]
fn file_of_exactly_one_chunk() {
    let expected = format!("{}8\r\n12345678\r\n0\r\n\r\n", TEXT_HEAD);
    assert_eq!(DataType::from_static(Some(b"12345678".to_vec())), DataType::Text(expected));
}

#[test]
fn binary_file_is_sent_as_bytes() {
    let mut expected = BINARY_HEAD.as_bytes().to_vec();
    expected.extend_from_slice(b"2\r\n\xff\xfe\r\n0\r\n\r\n");
    assert_eq!(DataType::from_static(Some(vec![0xff, 0xfe])), DataType::Bytes(expected));
}

#[test]
fn framed_content_is_classified_by_its_bytes() {
    assert_eq!(
        DataType::from_framed(b"abc".to_vec()),
        DataType::Text(format!("{}abc", TEXT_HEAD))
    );
    assert_eq!(
        DataType::from_framed(vec![0xc3, 0xa9]),
        DataType::Text(format!("{}\u{e9}", TEXT_HEAD))
    );
    let mut raw = BINARY_HEAD.as_bytes().to_vec();
    raw.push(0xc3);
    assert_eq!(DataType::from_framed(vec![0xc3]), DataType::Bytes(raw));
    assert_eq!(DataType::from_framed(Vec::new()), DataType::Text(String::from(TEXT_HEAD)));
}

#[test]
fn routing_constants() {
    assert_eq!(ERROR_ROUTE, "err");
    assert_eq!(STATIC_MARK, "static");
    assert_eq!(CHUNK_SIZE, 8);
    assert_eq!(
        BINARY_HEAD,
        "HTTP/1.1 200 OK\r\nContent-type: image/jpeg;\r\nTransfer-Encoding: chunked\r\n\r\n"
    );
    assert_eq!(
        TEXT_HEAD,
        "HTTP/1.1 200 OK\r\nContent-type: text/css;\r\nTransfer-Encoding: chunked\r\n\r\n"
    );
}

#[test]
fn file_request_needs_no_handler() {
    let empty: Routes<dyn RouteDef> = Routes::new();
    assert!(empty.can_answer("GET /static/missing.png HTTP/1.1"));
    assert_eq!(
        empty.get_route(String::from("GET /static/missing.png HTTP/1.1"), peer(), false),
        Ok(Dispatch::ReadFile(String::from("./static/missing.png")))
    );
    assert_eq!(
        DataType::from_static(None),
        DataType::Text(String::from("ERROR - CONTENT NOT AVAILABLE"))
    );
    let seen = Rc::new(RefCell::new(Vec::new()));
    let mut routes: Routes<dyn RouteDef> = Routes::new();
    routes.add_route(String::from("/static/a"), recorder("at the path", &seen, false));
    assert_eq!(
        routes.get_route(String::from("GET /static/a HTTP/1.1"), peer(), false),
        Ok(Dispatch::ReadFile(String::from("./static/a")))
    );
    assert!(seen.borrow().is_empty());
}

#[test]
fn table_without_err_answers_what_is_registered() {
    let seen = Rc::new(RefCell::new(Vec::new()));
    let mut routes: Routes<dyn RouteDef> = Routes::new();
    routes.add_route(String::from("/only"), recorder("only", &seen, false));
    assert!(routes.can_answer("GET /only?x=1 HTTP/1.1"));
    assert!(!routes.can_answer("GET /other HTTP/1.1"));
    assert!(!routes.can_answer("GET"));
    assert!(routes.can_answer("GET /other/static HTTP/1.1"));
    assert_eq!(
        routes.get_route(String::from("GET /only?x=1 HTTP/1.1"), peer(), false),
        Ok(Dispatch::Reply(DataType::Text(String::from("only Some(Get) 55"))))
    );
    assert_eq!(*seen.borrow(), vec![String::from("only:/only")]);
    let empty: Routes<dyn RouteDef> = Routes::new();
    assert!(!empty.can_answer("GET / HTTP/1.1"));
}

#[test]
fn table_with_err_answers_everything() {
    let seen = Rc::new(RefCell::new(Vec::new()));
    let routes = table(&seen);
    assert!(routes.can_answer("GET /nowhere HTTP/1.1"));
    assert!(routes.can_answer(""));
    assert!(routes.can_answer("GET /hello HTTP/1.1"));
}

#[test]
fn file_head_is_a_status_line_and_two_headers() {
    assert!(TEXT_HEAD.starts_with("HTTP/1.1 200 OK\r\n"));
    assert!(BINARY_HEAD.starts_with("HTTP/1.1 200 OK\r\n"));
    assert!(TEXT_HEAD.ends_with("\r\n\r\n"));
    assert!(BINARY_HEAD.ends_with("\r\n\r\n"));
}

#[test]
fn content_is_framed_chunk_by_chunk() {
    assert_eq!(chunked_body(b""), b"0\r\n\r\n".to_vec());
    assert_eq!(chunked_body(b"a"), b"1\r\na\r\n0\r\n\r\n".to_vec());
    assert_eq!(chunked_body(b"12345678"), b"8\r\n12345678\r\n0\r\n\r\n".to_vec());
    assert_eq!(
        chunked_body(b"0123456789abcdefXYZ"),
        b"8\r\n01234567\r\n8\r\n89abcdef\r\n3\r\nXYZ\r\n0\r\n\r\n".to_vec()
    );
    assert_eq!(chunked_body(&[0, 255]), vec![b'2', 13, 10, 0, 255, 13, 10, b'0', 13, 10, 13, 10]);
}

#[test]
fn large_file_is_framed_without_deep_nesting() {
    let content: Vec<u8> = (0..2_000_003u32).map(|i| b'a' + (i % 26) as u8).collect();
    let body = chunked_body(&content);
    let chunks = 2_000_003 / 8;
    assert_eq!(body.len(), chunks * 13 + (3 + 5) + 5);
    assert_eq!(&body[..13], b"8\r\nabcdefgh\r\n");
    assert_eq!(&body[body.len() - 13..], b"3\r\ncde\r\n0\r\n\r\n");
    match DataType::from_static(Some(content)) {
        DataType::Text(text) => {
            assert_eq!(text.len(), TEXT_HEAD.len() + body.len());
            assert!(text.starts_with(TEXT_HEAD));
            assert!(text.ends_with("3\r\ncde\r\n0\r\n\r\n"));
        }
        DataType::Bytes(_) => panic!("text is sent as text"),
    }
}
