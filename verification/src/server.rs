//! The course of a connection, from its acceptance to its end.
//!
//! The server owns the table of handlers and its settings. It does not own
//! a socket: the caller accepts connections, performs what the server asks
//! for, and reports what came of it, together with the stage at which the
//! connection stands. Each connection serves one request. Every failure
//! ends with the connection closed and is no concern of the next
//! connection.

use vstd::prelude::*;
use vstd::string::*;
use crate::bindings::{blobs, pem_certs, pem_rsa_keys, read_pem_certs, read_pem_rsa_keys};
use crate::connection::{Connection, ConnectionType};
use crate::request::{parse, request_path, ParseError, PeerAddr};
use crate::routes::{
    answerable, is_static, route_key, static_path, static_payload, DataType, Dispatch, RouteDef,
    Routes,
};

verus! {

/// The size of the read buffer of a new server.
pub const DEFAULT_READ_BUFFER_SIZE: usize = 8192;

/// What the caller reports about a connection.
#[derive(Debug, PartialEq, Eq)]
pub enum ServerEvent {
    /// The connection was accepted.
    Accepted,
    /// The TLS handshake succeeded.
    HandshakeDone,
    /// The TLS handshake failed.
    HandshakeFailed,
    /// The request was read, as this text.
    RequestRead(String),
    /// The request could not be read.
    ReadFailed,
    /// The file asked for was read, with this content, or could not be
    /// read.
    FileRead(Option<Vec<u8>>),
    /// The response was written.
    Written,
    /// The response could not be written.
    WriteFailed,
}

/// What the caller is to do next with a connection.
#[derive(Debug, PartialEq, Eq)]
pub enum ServerAction {
    /// Perform the TLS handshake.
    Handshake,
    /// Read the request, into a buffer of this size.
    Read(usize),
    /// Read the file of this name.
    ReadFile(String),
    /// Write this response.
    Write(DataType),
    /// Close the connection, for this reason.
    Close(Closing),
}

/// Why a connection is closed.
#[derive(Debug, Clone, Copy, PartialEq, Eq, Structural)]
pub enum Closing {
    /// The request was answered and the response was written.
    Served,
    /// The TLS handshake failed.
    HandshakeFailed,
    /// The request could not be read.
    ReadFailed,
    /// The text that was read is no request, for this reason.
    Rejected(ParseError),
    /// The response could not be written.
    WriteFailed,
    /// Something was reported that the connection did not wait for.
    OutOfTurn,
}

/// Where a connection stands.
#[derive(Debug, Clone, Copy, PartialEq, Eq, Structural)]
pub enum Stage {
    /// The connection is being accepted.
    Accepting,
    /// The TLS handshake is under way.
    Handshaking,
    /// The request is being read.
    Reading,
    /// The file that the request asks for is being read.
    Loading,
    /// The response is being written.
    Writing,
    /// The connection is closed, or to be closed.
    Closed,
}

/// The table of handlers and the settings of a server.
pub struct HttpServer<H: RouteDef + ?Sized> {
    /// The table of handlers.
    pub routes: Routes<H>,
    /// The size of the buffer that a request is read into.
    pub read_buffer_size: usize,
    /// The identity that the server presents over TLS; none for a server
    /// of plain connections.
    pub identity: Option<TlsIdentity>,
}

/// Why the identity of a TLS server could not be set up.
#[derive(Debug, Clone, Copy, PartialEq, Eq, Structural)]
pub enum TlsError {
    /// The certificate file is no well-formed PEM text.
    InvalidCert,
    /// The key file is no well-formed PEM text.
    InvalidKey,
    /// The key file holds no RSA key.
    NoKey,
}

/// The certificate chain and the private key that a TLS server presents.
#[derive(Debug, PartialEq, Eq)]
pub struct TlsIdentity {
    /// The certificates, each in DER form.
    pub certs: Vec<Vec<u8>>,
    /// The RSA private key, in DER form.
    pub key: Vec<u8>,
}

/// The address to listen on: the host, a colon, and the port.
pub open spec fn address(ip: Seq<char>, port: Seq<char>) -> Seq<char> {
    ip + ":"@ + port
}

/// The place of a stage in the course of a connection.
pub open spec fn rank(stage: Stage) -> nat {
    match stage {
        Stage::Accepting => 0,
        Stage::Handshaking => 1,
        Stage::Reading => 2,
        Stage::Loading => 3,
        Stage::Writing => 4,
        Stage::Closed => 5,
    }
}

/// The stage in which an action is performed.
pub open spec fn stage_of(action: ServerAction) -> Stage {
    match action {
        ServerAction::Handshake => Stage::Handshaking,
        ServerAction::Read(_) => Stage::Reading,
        ServerAction::ReadFile(_) => Stage::Loading,
        ServerAction::Write(_) => Stage::Writing,
        ServerAction::Close(_) => Stage::Closed,
    }
}

/// The stage that follows `stage` when `event` is reported, on a server
/// that speaks TLS or does not. An event that the stage does not wait for
/// closes the connection, and so does every failure.
pub open spec fn next_stage(secure: bool, stage: Stage, event: ServerEvent) -> Stage {
    match (stage, event) {
        (Stage::Accepting, ServerEvent::Accepted) => if secure {
            Stage::Handshaking
        } else {
            Stage::Reading
        },
        (Stage::Handshaking, ServerEvent::HandshakeDone) => Stage::Reading,
        (Stage::Reading, ServerEvent::RequestRead(text)) => match parse(text@, secure) {
            Ok(q) => if is_static(q.uri) {
                Stage::Loading
            } else {
                Stage::Writing
            },
            Err(_) => Stage::Closed,
        },
        (Stage::Loading, ServerEvent::FileRead(_)) => Stage::Writing,
        _ => Stage::Closed,
    }
}

/// Why a connection at `stage` is closed when `event` is reported, where
/// it is closed then.
pub open spec fn closing(secure: bool, stage: Stage, event: ServerEvent) -> Closing {
    match (stage, event) {
        (Stage::Handshaking, ServerEvent::HandshakeFailed) => Closing::HandshakeFailed,
        (Stage::Reading, ServerEvent::ReadFailed) => Closing::ReadFailed,
        (Stage::Reading, ServerEvent::RequestRead(text)) => match parse(text@, secure) {
            Err(e) => Closing::Rejected(e),
            Ok(_) => Closing::OutOfTurn,
        },
        (Stage::Writing, ServerEvent::Written) => Closing::Served,
        (Stage::Writing, ServerEvent::WriteFailed) => Closing::WriteFailed,
        _ => Closing::OutOfTurn,
    }
}

/// The stages that a connection goes through, from `stage` on, as the
/// events of `events` are reported one after the other.
pub open spec fn course(secure: bool, stage: Stage, events: Seq<ServerEvent>) -> Seq<Stage>
    decreases events.len(),
{
    if events.len() == 0 {
        Seq::empty()
    } else {
        let next = next_stage(secure, stage, events.first());
        seq![next] + course(secure, next, events.drop_first())
    }
}

/// Every event takes a connection to a later stage, or closes it.
pub proof fn lemma_stage_advances(secure: bool, stage: Stage, event: ServerEvent)
    ensures
        rank(next_stage(secure, stage, event)) > rank(stage) || next_stage(secure, stage, event)
            == Stage::Closed,
{
}

/// A connection serves one request: whatever is reported, and in whatever
/// order, it passes through each stage at most once before it is closed,
/// so that there is at most one handshake, one read of a request, one read
/// of a file and one write; and once closed it stays closed.
pub proof fn lemma_one_request_per_connection(
    secure: bool,
    stage: Stage,
    events: Seq<ServerEvent>,
)
    ensures
        course(secure, stage, events).len() == events.len(),
        forall|i: int|
            0 <= i < events.len() ==> rank(stage) < rank(#[trigger] course(secure, stage, events)[i])
                || course(secure, stage, events)[i] == Stage::Closed,
        forall|i: int, j: int|
            0 <= i < j < events.len() ==> rank(#[trigger] course(secure, stage, events)[i]) < rank(
                #[trigger] course(secure, stage, events)[j],
            ) || course(secure, stage, events)[j] == Stage::Closed,
    decreases events.len(),
{
    if events.len() > 0 {
        let next = next_stage(secure, stage, events.first());
        let rest = course(secure, next, events.drop_first());
        let all = course(secure, stage, events);
        lemma_stage_advances(secure, stage, events.first());
        lemma_one_request_per_connection(secure, next, events.drop_first());
        assert(all == seq![next] + rest);
        assert forall|i: int| 0 <= i < events.len() implies rank(stage) < rank(#[trigger] all[i])
            || all[i] == Stage::Closed by {
            if i > 0 {
                assert(all[i] == rest[i - 1]);
            }
        }
        assert forall|i: int, j: int| 0 <= i < j < events.len() implies rank(#[trigger] all[i])
            < rank(#[trigger] all[j]) || all[j] == Stage::Closed by {
            assert(all[j] == rest[j - 1]);
            if i > 0 {
                assert(all[i] == rest[i - 1]);
            }
        }
    }
}

/// The identity made of the certificates and the keys that were found in the
/// two files: all the certificates, and the first of the keys.
pub open spec fn identity_of(certs: Option<Seq<Seq<u8>>>, keys: Option<Seq<Seq<u8>>>) -> Result<
    (Seq<Seq<u8>>, Seq<u8>),
    TlsError,
> {
    match certs {
        Some(chain) => match keys {
            Some(found) => if found.len() > 0 {
                Ok((chain, found[0]))
            } else {
                Err(TlsError::NoKey)
            },
            None => Err(TlsError::InvalidKey),
        },
        None => Err(TlsError::InvalidCert),
    }
}

/// What was found in a PEM text, as sequences.
pub open spec fn found_in(r: Option<Vec<Vec<u8>>>) -> Option<Seq<Seq<u8>>> {
    match r {
        Some(v) => Some(blobs(v@)),
        None => None,
    }
}

impl<H: RouteDef + ?Sized> HttpServer<H> {
    /// Whether the server speaks TLS.
    pub open spec fn secure(&self) -> bool {
        self.identity is Some
    }

    /// Whether the server speaks TLS.
    pub fn is_secure(&self) -> (b: bool)
        ensures
            b == self.secure(),
    {
        self.identity.is_some()
    }

    /// A server for plain connections, without handlers.
    pub fn new() -> (r: Self)
        ensures
            r.routes@ == Map::<Seq<char>, crate::routes::Route<H>>::empty(),
            r.read_buffer_size == DEFAULT_READ_BUFFER_SIZE,
            r.identity is None,
    {
        HttpServer {
            routes: Routes::new(),
            read_buffer_size: DEFAULT_READ_BUFFER_SIZE,
            identity: None,
        }
    }

    /// A server for TLS connections, without handlers, with the identity
    /// that the PEM texts of a certificate file and of a key file define.
    pub fn new_tls(cert_pem: &[u8], key_pem: &[u8]) -> (r: Result<Self, TlsError>)
        ensures
            match identity_of(pem_certs(cert_pem@), pem_rsa_keys(key_pem@)) {
                Ok((chain, key)) => r matches Ok(server) && server.identity matches Some(id)
                    && blobs(id.certs@) == chain && id.key@ == key && server.routes@ == Map::<
                    Seq<char>,
                    crate::routes::Route<H>,
                >::empty() && server.read_buffer_size == DEFAULT_READ_BUFFER_SIZE,
                Err(e) => r matches Err(x) && x == e,
            },
    {
        match TlsIdentity::load(cert_pem, key_pem) {
            Ok(identity) => Ok(
                HttpServer {
                    routes: Routes::new(),
                    read_buffer_size: DEFAULT_READ_BUFFER_SIZE,
                    identity: Some(identity),
                },
            ),
            Err(e) => Err(e),
        }
    }

    /// Sets the size of the read buffer.
    pub fn set_read_buffer_size(&mut self, size: usize) -> (r: Result<(), &'static str>)
        ensures
            r is Ok,
            final(self).read_buffer_size == size,
            final(self).identity == old(self).identity,
            final(self).routes == old(self).routes,
    {
        self.read_buffer_size = size;
        Ok(())
    }

    /// The transport for a connection that was accepted.
    pub fn connection(&self) -> (r: Connection)
        ensures
            r.buffer_size() == self.read_buffer_size,
            r.kind() == if self.secure() {
                ConnectionType::TLS
            } else {
                ConnectionType::Plain
            },
    {
        if self.is_secure() {
            Connection::new(ConnectionType::TLS, self.read_buffer_size)
        } else {
            Connection::new(ConnectionType::Plain, self.read_buffer_size)
        }
    }

    /// What is to be done next with the connection of the peer at `addr`,
    /// which stands at `stage`, given what was last reported about it; and
    /// the stage at which the connection stands then.
    ///
    /// A connection is accepted, shakes hands if the server speaks TLS,
    /// has its one request read and answered, and is closed. A request for
    /// a file has the file read first. Whatever fails, and whatever is
    /// reported out of turn, the connection is closed, and the reason is
    /// given: a text that is no request is rejected with its parse error.
    /// The table has to have an answer for the request that is read.
    pub fn handle_connection(&self, stage: Stage, event: ServerEvent, addr: PeerAddr) -> (r: (
        Stage,
        ServerAction,
    ))
        requires
            stage == Stage::Reading ==> (event matches ServerEvent::RequestRead(text)
                ==> answerable(self.routes@.dom(), request_path(text@))),
        ensures
            r.0 == next_stage(self.secure(), stage, event),
            r.0 == stage_of(r.1),
            r.1 matches ServerAction::Read(size) ==> size == self.read_buffer_size,
            r.1 matches ServerAction::Close(reason) ==> reason == closing(
                self.secure(),
                stage,
                event,
            ),
            match (stage, event) {
                (Stage::Reading, ServerEvent::RequestRead(text)) => match parse(
                    text@,
                    self.secure(),
                ) {
                    Ok(q) => if is_static(q.uri) {
                        r.1 matches ServerAction::ReadFile(path) && path@ == static_path(q.uri)
                    } else {
                        r.1 matches ServerAction::Write(data) && self.routes@[route_key(
                            self.routes@.dom(),
                            q.uri,
                        )].answers_to(q, addr, data)
                    },
                    Err(e) => r.1 == ServerAction::Close(Closing::Rejected(e)),
                },
                (Stage::Loading, ServerEvent::FileRead(file)) => r.1 matches ServerAction::Write(
                    data,
                ) && data@ == static_payload(
                    match file {
                        Some(content) => Some(content@),
                        None => None,
                    },
                ),
                _ => true,
            },
    {
        match stage {
            Stage::Accepting => match event {
                ServerEvent::Accepted => {
                    if self.is_secure() {
                        (Stage::Handshaking, ServerAction::Handshake)
                    } else {
                        (Stage::Reading, ServerAction::Read(self.read_buffer_size))
                    }
                },
                _ => (Stage::Closed, ServerAction::Close(Closing::OutOfTurn)),
            },
            Stage::Handshaking => match event {
                ServerEvent::HandshakeDone => (
                    Stage::Reading,
                    ServerAction::Read(self.read_buffer_size),
                ),
                ServerEvent::HandshakeFailed => (
                    Stage::Closed,
                    ServerAction::Close(Closing::HandshakeFailed),
                ),
                _ => (Stage::Closed, ServerAction::Close(Closing::OutOfTurn)),
            },
            Stage::Reading => match event {
                ServerEvent::RequestRead(text) => {
                    match self.routes.get_route(text, addr, self.is_secure()) {
                        Ok(Dispatch::Reply(data)) => (Stage::Writing, ServerAction::Write(data)),
                        Ok(Dispatch::ReadFile(path)) => (
                            Stage::Loading,
                            ServerAction::ReadFile(path),
                        ),
                        Err(e) => (Stage::Closed, ServerAction::Close(Closing::Rejected(e))),
                    }
                },
                ServerEvent::ReadFailed => (
                    Stage::Closed,
                    ServerAction::Close(Closing::ReadFailed),
                ),
                _ => (Stage::Closed, ServerAction::Close(Closing::OutOfTurn)),
            },
            Stage::Loading => match event {
                ServerEvent::FileRead(file) => (
                    Stage::Writing,
                    ServerAction::Write(DataType::from_static(file)),
                ),
                _ => (Stage::Closed, ServerAction::Close(Closing::OutOfTurn)),
            },
            Stage::Writing => match event {
                ServerEvent::Written => (Stage::Closed, ServerAction::Close(Closing::Served)),
                ServerEvent::WriteFailed => (
                    Stage::Closed,
                    ServerAction::Close(Closing::WriteFailed),
                ),
                _ => (Stage::Closed, ServerAction::Close(Closing::OutOfTurn)),
            },
            Stage::Closed => (Stage::Closed, ServerAction::Close(Closing::OutOfTurn)),
        }
    }
}

/// The address to listen on.
pub fn bind_address(ip: &str, port: &str) -> (r: String)
    ensures
        r@ == address(ip@, port@),
{
    String::from_str(ip).concat(":").concat(port)
}

impl TlsError {
    /// A sentence for the error.
    pub fn message(&self) -> (m: &'static str)
        ensures
            m@ == match *self {
                TlsError::InvalidCert => "invalid cert"@,
                TlsError::InvalidKey => "invalid key"@,
                TlsError::NoKey => "no key"@,
            },
    {
        match self {
            TlsError::InvalidCert => "invalid cert",
            TlsError::InvalidKey => "invalid key",
            TlsError::NoKey => "no key",
        }
    }
}

/// The certificates of a PEM text.
pub fn load_certs(pem: &[u8]) -> (r: Option<Vec<Vec<u8>>>)
    ensures
        found_in(r) == pem_certs(pem@),
{
    match read_pem_certs(pem) {
        Ok(found) => Some(found),
        Err(_) => None,
    }
}

/// The RSA private keys of a PEM text.
pub fn load_keys(pem: &[u8]) -> (r: Option<Vec<Vec<u8>>>)
    ensures
        found_in(r) == pem_rsa_keys(pem@),
{
    match read_pem_rsa_keys(pem) {
        Ok(found) => Some(found),
        Err(_) => None,
    }
}

impl TlsIdentity {
    /// The identity made of what was found in the certificate file and in
    /// the key file.
    pub fn from_found(certs: Option<Vec<Vec<u8>>>, keys: Option<Vec<Vec<u8>>>) -> (r: Result<
        TlsIdentity,
        TlsError,
    >)
        ensures
            match identity_of(found_in(certs), found_in(keys)) {
                Ok((chain, key)) => r matches Ok(id) && blobs(id.certs@) == chain && id.key@ == key,
                Err(e) => r matches Err(x) && x == e,
            },
    {
        match certs {
            Some(chain) => match keys {
                Some(mut found) => {
                    if found.len() > 0 {
                        let key = found.swap_remove(0);
                        Ok(TlsIdentity { certs: chain, key })
                    } else {
                        Err(TlsError::NoKey)
                    }
                },
                None => Err(TlsError::InvalidKey),
            },
            None => Err(TlsError::InvalidCert),
        }
    }

    /// The identity that the PEM texts of a certificate file and of a key
    /// file define.
    pub fn load(cert_pem: &[u8], key_pem: &[u8]) -> (r: Result<TlsIdentity, TlsError>)
        ensures
            match identity_of(pem_certs(cert_pem@), pem_rsa_keys(key_pem@)) {
                Ok((chain, key)) => r matches Ok(id) && blobs(id.certs@) == chain && id.key@ == key,
                Err(e) => r matches Err(x) && x == e,
            },
    {
        TlsIdentity::from_found(load_certs(cert_pem), load_keys(key_pem))
    }
}

} // verus!
