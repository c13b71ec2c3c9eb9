//! The table of handlers and the choice of the one that answers a request.
//!
//! A request whose path contains `"static"` asks for a file: the table
//! names the file and leaves the reading to the caller, who hands back what
//! was read. Every other request is answered by the handler registered for
//! its path, or else by the handler registered as `"err"`.

use vstd::prelude::*;
use vstd::string::*;
use vstd::utf8::{decode_utf8, encode_utf8, valid_utf8};
use crate::bindings::{chunked, chunked_encode, hex_digit, string_from_utf8};
use crate::form::utf8_bytes;
use crate::request::{parse, request_path, ParseError, PeerAddr, Request, RequestModel};
use crate::string_map::StringMap;
use crate::text::{contains, copy_range, from_chars, has, to_chars};

verus! {

/// The key of the handler that answers where no other does.
pub const ERROR_ROUTE: &'static str = "err";

/// A path that contains this text asks for a file.
pub const STATIC_MARK: &'static str = "static";

/// The body sent where the file asked for cannot be read.
pub const NOT_AVAILABLE: &'static str = "ERROR - CONTENT NOT AVAILABLE";

/// The head put before the framed content of a file that is sent as bytes:
/// the status line of a success and the headers of the framing.
pub const BINARY_HEAD: &'static str =
    "HTTP/1.1 200 OK\r\nContent-type: image/jpeg;\r\nTransfer-Encoding: chunked\r\n\r\n";

/// The head put before the framed content of a file that is sent as text:
/// the status line of a success and the headers of the framing.
pub const TEXT_HEAD: &'static str =
    "HTTP/1.1 200 OK\r\nContent-type: text/css;\r\nTransfer-Encoding: chunked\r\n\r\n";

/// The size of the chunks in which the content of a file is framed.
pub const CHUNK_SIZE: usize = 8;

/// What is written back to the peer.
#[derive(Debug, PartialEq, Eq)]
pub enum DataType {
    /// A body that is valid UTF-8, written as it is.
    Text(String),
    /// Raw bytes, for content that is not valid UTF-8.
    Bytes(Vec<u8>),
}

/// What a `DataType` holds.
pub enum Payload {
    Text(Seq<char>),
    Bytes(Seq<u8>),
}

impl View for DataType {
    type V = Payload;

    open spec fn view(&self) -> Payload {
        match self {
            DataType::Text(s) => Payload::Text(s@),
            DataType::Bytes(b) => Payload::Bytes(b@),
        }
    }
}

/// A handler: what answers a request with a body or with a failure.
pub trait RouteDef {
    /// Whether `result` is an answer that the handler may give to
    /// `request`. Unless a handler says more, every answer is.
    open spec fn produces(&self, request: Request, result: Result<String, String>) -> bool {
        true
    }

    /// Answers `request`.
    fn call(&self, request: Request) -> (result: Result<String, String>)
        ensures
            self.produces(request, result),
    ;
}

/// A handler as it stands in the table.
pub struct Route<H: RouteDef + ?Sized> {
    function: Box<H>,
}

/// What the table decides for a request.
#[derive(Debug, PartialEq, Eq)]
pub enum Dispatch {
    /// The request is answered: this is to be sent.
    Reply(DataType),
    /// The request asks for the file of this name. Its content, or nothing
    /// where it cannot be read, goes to `DataType::from_static`.
    ReadFile(String),
}

/// The table of handlers, by path.
pub struct Routes<H: RouteDef + ?Sized> {
    routes: StringMap<Route<H>>,
}

impl<H: RouteDef + ?Sized> View for Routes<H> {
    type V = Map<Seq<char>, Route<H>>;

    closed spec fn view(&self) -> Map<Seq<char>, Route<H>> {
        self.routes@
    }
}

/// What is sent for the result of a handler: the text of a success, and an
/// empty text for a failure, whose reason is dropped.
pub open spec fn handler_payload(result: Result<String, String>) -> Payload {
    match result {
        Ok(body) => Payload::Text(body@),
        Err(_) => Payload::Text(Seq::empty()),
    }
}

/// What is sent for the framed content of a file: text under the text head
/// where the bytes under the binary head are valid UTF-8, and else those
/// bytes.
pub open spec fn framed_payload(framed: Seq<u8>) -> Payload {
    if valid_utf8(encode_utf8(BINARY_HEAD@) + framed) {
        Payload::Text(decode_utf8(encode_utf8(TEXT_HEAD@) + framed))
    } else {
        Payload::Bytes(encode_utf8(BINARY_HEAD@) + framed)
    }
}

/// What is sent for a file: its content in chunked framing, or a fixed
/// message where the file could not be read.
pub open spec fn static_payload(file: Option<Seq<u8>>) -> Payload {
    match file {
        Some(content) => framed_payload(chunked(content, CHUNK_SIZE as nat)),
        None => Payload::Text(NOT_AVAILABLE@),
    }
}

/// Whether a path asks for a file.
pub open spec fn is_static(uri: Seq<char>) -> bool {
    contains(uri, STATIC_MARK@)
}

/// The file that a path asks for: the path below the current directory.
pub open spec fn static_path(uri: Seq<char>) -> Seq<char> {
    "."@ + uri
}

/// The key under which the handler for a path is looked up: the path
/// itself where it is registered, and `"err"` where it is not.
pub open spec fn route_key(registered: Set<Seq<char>>, uri: Seq<char>) -> Seq<char> {
    if registered.contains(uri) {
        uri
    } else {
        ERROR_ROUTE@
    }
}

/// Whether a table with the given paths has an answer for a request for
/// `path`: the path asks for a file, or a handler is registered for it, or
/// one is registered as `"err"`.
pub open spec fn answerable(registered: Set<Seq<char>>, path: Seq<char>) -> bool {
    is_static(path) || registered.contains(path) || registered.contains(ERROR_ROUTE@)
}

/// A request for a file needs no handler: every table has an answer for
/// it, the empty table and a table without `"err"` included.
pub proof fn lemma_static_needs_no_handler(registered: Set<Seq<char>>, path: Seq<char>)
    requires
        is_static(path),
    ensures
        answerable(registered, path),
{
}

/// The closing chunk of a chunked encoding.
pub open spec fn closing_chunk() -> Seq<u8> {
    seq![48u8, 13u8, 10u8, 13u8, 10u8]
}

/// The encoding of a text is the encoding of its first chunk, less the
/// closing chunk, and then the encoding of the rest.
pub proof fn lemma_chunked_first(data: Seq<u8>, size: nat)
    requires
        0 < size,
        data.len() > 0,
    ensures
        ({
            let n = if data.len() < size {
                data.len() as int
            } else {
                size as int
            };
            let first = chunked(data.take(n), size);
            &&& first.len() >= 5
            &&& first.subrange(first.len() - 5, first.len() as int) == closing_chunk()
            &&& chunked(data, size) == first.take(first.len() - 5) + chunked(data.skip(n), size)
        }),
{
    let n = if data.len() < size {
        data.len() as int
    } else {
        size as int
    };
    let piece = data.take(n);
    let head = seq![hex_digit(n as nat), 13u8, 10u8] + piece + seq![13u8, 10u8];
    assert(piece.take(n) =~= piece);
    assert(piece.skip(n) =~= Seq::<u8>::empty());
    assert(chunked(piece.skip(n), size) == closing_chunk());
    let first = chunked(piece, size);
    assert(first == head + closing_chunk());
    assert(first.subrange(first.len() - 5, first.len() as int) =~= closing_chunk());
    assert(first.take(first.len() - 5) =~= head);
}

/// If a prefix and the whole are valid UTF-8, so is the rest.
pub proof fn lemma_valid_rest(head: Seq<u8>, rest: Seq<u8>)
    requires
        valid_utf8(head),
        valid_utf8(head + rest),
    ensures
        valid_utf8(rest),
    decreases head.len(),
{
    if head.len() == 0 {
        assert(head + rest =~= rest);
    } else {
        let tail = vstd::utf8::pop_first_scalar(head);
        assert(vstd::utf8::pop_first_scalar(head + rest) =~= tail + rest);
        lemma_valid_rest(tail, rest);
    }
}

/// Whether the framed content of a file is sent as text does not depend on
/// the head: it is sent as text exactly when it is valid UTF-8 itself.
pub proof fn lemma_framed_text(framed: Seq<u8>)
    ensures
        valid_utf8(encode_utf8(BINARY_HEAD@) + framed) <==> valid_utf8(framed),
        valid_utf8(framed) ==> valid_utf8(encode_utf8(TEXT_HEAD@) + framed),
{
    vstd::utf8::encode_utf8_valid_utf8(BINARY_HEAD@);
    vstd::utf8::encode_utf8_valid_utf8(TEXT_HEAD@);
    if valid_utf8(framed) {
        vstd::utf8::valid_utf8_concat(encode_utf8(BINARY_HEAD@), framed);
        vstd::utf8::valid_utf8_concat(encode_utf8(TEXT_HEAD@), framed);
    }
    if valid_utf8(encode_utf8(BINARY_HEAD@) + framed) {
        lemma_valid_rest(encode_utf8(BINARY_HEAD@), framed);
    }
}

/// A path for which no handler is registered is answered by the handler
/// registered as `"err"`.
pub proof fn lemma_unregistered_falls_back(registered: Set<Seq<char>>, uri: Seq<char>)
    requires
        !registered.contains(uri),
    ensures
        route_key(registered, uri) == ERROR_ROUTE@,
{
}

/// Once a handler is registered for a path, it is the one that answers a
/// request for that path, whatever else the table holds: what is sent for
/// such a request is an answer of that handler to a request with that
/// path.
pub proof fn lemma_registered_handler_answers<H: RouteDef + ?Sized>(
    table: Map<Seq<char>, Route<H>>,
    route: Seq<char>,
    content: Route<H>,
    q: RequestModel,
    user_addr: PeerAddr,
    data: DataType,
)
    requires
        q.uri == route,
        table.insert(route, content)[route_key(
            table.insert(route, content).dom(),
            q.uri,
        )].answers_to(q, user_addr, data),
    ensures
        route_key(table.insert(route, content).dom(), route) == route,
        table.insert(route, content)[route] == content,
        exists|asked: Request|
            asked@.uri == route && asked.user_addr == user_addr && #[trigger] content.answers(
                asked,
                data,
            ),
{
    let after = table.insert(route, content);
    assert(after.dom().contains(route));
    let asked = choose|asked: Request|
        asked@ == q && asked.user_addr == user_addr && #[trigger] content.answers(asked, data);
    assert(asked@.uri == route);
}

/// The content of a file in chunked framing: the content is cut into
/// pieces of one chunk, each piece is framed by the encoder, and the
/// frames are joined, with one closing chunk at the end.
pub fn chunked_body(content: &[u8]) -> (r: Vec<u8>)
    ensures
        r@ == chunked(content@, CHUNK_SIZE as nat),
{
    let mut body: Vec<u8> = Vec::new();
    let mut start: usize = 0;
    assert(content@.skip(0) =~= content@);
    while start < content.len()
        invariant
            start <= content.len(),
            chunked(content@, CHUNK_SIZE as nat) == body@ + chunked(
                content@.skip(start as int),
                CHUNK_SIZE as nat,
            ),
        decreases content.len() - start,
    {
        let end: usize = if content.len() - start < CHUNK_SIZE {
            content.len()
        } else {
            start + CHUNK_SIZE
        };
        let piece = copy_range(content, start, end);
        let mut framed = chunked_encode(piece.as_slice(), CHUNK_SIZE);
        proof {
            let rest = content@.skip(start as int);
            lemma_chunked_first(rest, CHUNK_SIZE as nat);
            assert(rest.take(end - start) =~= piece@);
            assert(rest.skip(end - start) =~= content@.skip(end as int));
        }
        framed.truncate(framed.len() - 5);
        body.append(&mut framed);
        start = end;
    }
    let nothing: Vec<u8> = Vec::new();
    let mut closing = chunked_encode(nothing.as_slice(), CHUNK_SIZE);
    body.append(&mut closing);
    body
}

impl DataType {
    /// What is sent for the result of a handler.
    pub fn from_handler(result: Result<String, String>) -> (r: DataType)
        ensures
            r@ == handler_payload(result),
    {
        match result {
            Ok(body) => DataType::Text(body),
            Err(_) => DataType::Text(String::new()),
        }
    }

    /// What is sent for the framed content of a file.
    pub fn from_framed(framed: Vec<u8>) -> (r: DataType)
        ensures
            r@ == framed_payload(framed@),
    {
        let mut binary = utf8_bytes(to_chars(BINARY_HEAD).as_slice());
        let mut text = utf8_bytes(to_chars(TEXT_HEAD).as_slice());
        let mut second = copy_range(framed.as_slice(), 0, framed.len());
        let mut first = framed;
        assert(second@ =~= first@);
        binary.append(&mut first);
        match string_from_utf8(binary) {
            Ok(_) => {
                proof {
                    lemma_framed_text(framed@);
                }
                text.append(&mut second);
                DataType::Text(string_from_utf8(text).unwrap())
            },
            Err(raw) => DataType::Bytes(raw),
        }
    }

    /// What is sent for a file, given its content, or nothing where it
    /// could not be read.
    pub fn from_static(file: Option<Vec<u8>>) -> (r: DataType)
        ensures
            r@ == static_payload(
                match file {
                    Some(content) => Some(content@),
                    None => None,
                },
            ),
    {
        match file {
            Some(content) => DataType::from_framed(chunked_body(content.as_slice())),
            None => DataType::Text(String::from_str(NOT_AVAILABLE)),
        }
    }
}

impl<H: RouteDef + ?Sized> Route<H> {
    /// The handler of the route.
    pub closed spec fn handler(&self) -> Box<H> {
        self.function
    }

    /// A route answered by `function`.
    pub fn new(function: Box<H>) -> (r: Self)
        ensures
            r.handler() == function,
    {
        Self { function }
    }

    /// Whether `data` is what is sent for an answer of the handler to
    /// `request`.
    pub open spec fn answers(&self, request: Request, data: DataType) -> bool {
        exists|result: Result<String, String>| #[trigger]
            self.handler().produces(request, result) && data@ == handler_payload(result)
    }

    /// Whether `data` is what is sent for an answer of the handler to a
    /// request that holds `q` and came from `user_addr`.
    pub open spec fn answers_to(&self, q: RequestModel, user_addr: PeerAddr, data: DataType) -> bool {
        exists|asked: Request|
            asked@ == q && asked.user_addr == user_addr && #[trigger] self.answers(asked, data)
    }

    /// Lets the handler answer `request`, once, and turns its answer into
    /// what is sent: the body of a success, and an empty text for a
    /// failure.
    pub fn run(&self, request: Request) -> (r: DataType)
        ensures
            self.answers(request, r),
            r@ is Text,
    {
        let result = self.function.call(request);
        assert(self.handler().produces(request, result));
        DataType::from_handler(result)
    }
}

impl<H: RouteDef + ?Sized> Routes<H> {
    /// A table without handlers.
    pub fn new() -> (r: Self)
        ensures
            r@ == Map::<Seq<char>, Route<H>>::empty(),
    {
        Self { routes: StringMap::new() }
    }

    /// Registers `content` for the path `route`, in place of the handler
    /// that was registered for it, if any.
    pub fn add_route(&mut self, route: String, content: Route<H>)
        ensures
            final(self)@ == old(self)@.insert(route@, content),
    {
        self.routes.insert(route, content);
    }

    /// Whether a handler is registered for `route`.
    pub fn has_route(&self, route: &str) -> (b: bool)
        ensures
            b == self@.contains_key(route@),
    {
        self.routes.contains_key(route)
    }

    /// The route that answers for the path `uri`: the one registered for
    /// it, or else the one registered as `"err"`. One of the two has to be
    /// there.
    pub fn select(&self, uri: &str) -> (r: &Route<H>)
        requires
            self@.contains_key(uri@) || self@.contains_key(ERROR_ROUTE@),
        ensures
            *r == self@[route_key(self@.dom(), uri@)],
    {
        match self.routes.get(uri) {
            Some(route) => route,
            None => self.routes.get(ERROR_ROUTE).unwrap(),
        }
    }

    /// Whether the table has an answer for the request of the given text.
    pub fn can_answer(&self, request: &str) -> (b: bool)
        ensures
            b == answerable(self@.dom(), request_path(request@)),
    {
        let path = Request::get_path(request);
        if has(path.as_slice(), to_chars(STATIC_MARK).as_slice()) {
            return true;
        }
        let wanted = from_chars(path.as_slice());
        self.has_route(wanted.as_str()) || self.has_route(ERROR_ROUTE)
    }

    /// Parses the text of a request and decides what answers it.
    ///
    /// A request for a file is handed back with the name of the file; no
    /// handler is needed for it. Any other request is answered at once by
    /// the handler for its path, or else by the handler for `"err"`, which
    /// is given the parsed request; one of the two has to be there.
    pub fn get_route(&self, request: String, user_addr: PeerAddr, is_secure: bool) -> (r: Result<
        Dispatch,
        ParseError,
    >)
        requires
            answerable(self@.dom(), request_path(request@)),
        ensures
            match parse(request@, is_secure) {
                Ok(q) => if is_static(q.uri) {
                    r matches Ok(Dispatch::ReadFile(path)) && path@ == static_path(q.uri)
                } else {
                    r matches Ok(Dispatch::Reply(data)) && self@[route_key(
                        self@.dom(),
                        q.uri,
                    )].answers_to(q, user_addr, data)
                },
                Err(e) => r matches Err(x) && x == e,
            },
    {
        let asked = match Request::new(request, user_addr, is_secure) {
            Ok(asked) => asked,
            Err(e) => {
                return Err(e);
            },
        };
        if has(to_chars(asked.uri.as_str()).as_slice(), to_chars(STATIC_MARK).as_slice()) {
            let mut path = String::from_str(".");
            path.append(asked.uri.as_str());
            return Ok(Dispatch::ReadFile(path));
        }
        let route = self.select(asked.uri.as_str());
        let ghost held = asked;
        let data = route.run(asked);
        assert(route.answers(held, data));
        Ok(Dispatch::Reply(data))
    }
}

} // verus!
