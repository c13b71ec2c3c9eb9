//! A minimal HTTP/1.1 server engine with machine-checked contracts.
//!
//! The engine holds the rules of the server and no socket. It parses the
//! text of a request ([`request`], [`form`]), chooses the handler that
//! answers it ([`routes`]), says what follows each attempt to read from or
//! write to a socket ([`connection`]), and leads a connection from its
//! acceptance to its end ([`server`]). The caller performs the input and
//! output and reports what came of it.
//!
//! [`request_line`] states what is recovered from a well-formed request
//! line. [`text`] and [`string_map`] are the tools that the parser works
//! with, [`json_response`] and [`html_loader`] build bodies, and
//! [`bindings`] holds the contracts that are taken on trust.

pub mod bindings;
pub mod connection;
pub mod form;
pub mod html_loader;
pub mod json_response;
pub mod request;
pub mod request_line;
pub mod response;
pub mod routes;
pub mod server;
pub mod string_map;
pub mod text;

pub use connection::{trim_newline, Connection, ConnectionType};
pub use html_loader::{FileLoader, HtmlConstructor};
pub use json_response::JSONResponse;
pub use request::{HttpMethod, ParseError, PeerAddr, PostRequest, Request};
pub use response::Response;
pub use routes::{DataType, Dispatch, Route, RouteDef, Routes};
pub use server::HttpServer;
pub use string_map::StringMap;
