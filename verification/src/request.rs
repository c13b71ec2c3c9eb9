//! The structured form of a request and the parser that builds it.
//!
//! The grammar is deliberately permissive. The text is cut into rows at
//! every `"\r\n"` and then at every `';'`; the method is the first token,
//! anywhere, that is one of the eight verbs; the target is the second token
//! of the first row. Nothing is percent-decoded.

use vstd::prelude::*;
use vstd::std_specs::convert::FromSpec;
use crate::form::{field_values, post_of};
use crate::string_map::StringMap;
use crate::text::{
    find, find_from, lacks, copy, copy_range, cut, cut_all, from_chars, is_str, lemma_split_all_concat,
    lemma_split_all_empty, lemma_split_all_push, matches_at, replace_char, split, split_all,
    lemma_split_nonempty, texts, to_chars, views,
};

verus! {

/// The methods that a request can name.
#[derive(Debug, Clone, Copy, PartialEq, Eq, PartialOrd, Ord, Structural)]
pub enum HttpMethod {
    Get,
    Post,
    Head,
    Put,
    Delete,
    Connect,
    Options,
    Trace,
}

/// Why a request could not be parsed.
#[derive(Debug, Clone, Copy, PartialEq, Eq, Structural)]
pub enum ParseError {
    /// A form content type is announced, but no empty row parts the headers
    /// from the body.
    MissingSeparator,
    /// A pair of a url-encoded body has no `'='`.
    MalformedPair,
    /// A boundary row or an attribute row of a multipart body does not have
    /// the expected shape.
    MalformedMultipart,
    /// A multipart payload is too short to lose its first and last byte.
    ShortPayload,
    /// A pattern used on a multipart body could not be compiled.
    Pattern,
}

impl ParseError {
    /// A sentence for the error.
    pub fn message(&self) -> (m: &'static str)
        ensures
            m@ == match *self {
                ParseError::MissingSeparator => "request has no empty line before its body"@,
                ParseError::MalformedPair => "form pair has no value"@,
                ParseError::MalformedMultipart => "multipart form data is invalid"@,
                ParseError::ShortPayload => "multipart payload is too short"@,
                ParseError::Pattern => "multipart pattern does not compile"@,
            },
    {
        match self {
            ParseError::MissingSeparator => "request has no empty line before its body",
            ParseError::MalformedPair => "form pair has no value",
            ParseError::MalformedMultipart => "multipart form data is invalid",
            ParseError::ShortPayload => "multipart payload is too short",
            ParseError::Pattern => "multipart pattern does not compile",
        }
    }
}

/// One field of a posted form.
#[derive(Debug, PartialEq, Eq)]
pub struct PostRequest {
    /// The name of the form field.
    pub name: String,
    /// The name of the uploaded file; empty where the field is no upload.
    pub file_name: String,
    /// The raw payload.
    pub data: Vec<u8>,
}

/// What a form field holds.
pub struct PostField {
    pub name: Seq<char>,
    pub file_name: Seq<char>,
    pub data: Seq<u8>,
}

impl View for PostRequest {
    type V = PostField;

    open spec fn view(&self) -> PostField {
        PostField { name: self.name@, file_name: self.file_name@, data: self.data@ }
    }
}

/// The address of the peer, as plain values.
#[derive(Debug, PartialEq, Eq)]
pub struct PeerAddr {
    /// The host part, as the transport prints it.
    pub host: String,
    /// The port.
    pub port: u16,
}

impl Clone for PeerAddr {
    fn clone(&self) -> (r: Self)
        ensures
            r == *self,
    {
        PeerAddr { host: self.host.clone(), port: self.port }
    }
}

/// A parsed request.
#[derive(Debug)]
pub struct Request {
    /// The method, where the request names one.
    pub method: Option<HttpMethod>,
    /// The path of the target.
    pub uri: String,
    /// The user agent, `"none"` where the request names none.
    pub user_agent: String,
    /// The address of the peer.
    pub user_addr: PeerAddr,
    /// The parameters of the query.
    pub get_request: StringMap<String>,
    /// The fields of the posted form.
    pub post_request: StringMap<PostRequest>,
    /// The rows of the request, for access to other headers.
    pub raw_request: Vec<String>,
    /// Whether the request came over TLS.
    pub secure: bool,
}

/// What a parsed request holds, the peer's address apart.
pub struct RequestModel {
    pub method: Option<HttpMethod>,
    pub uri: Seq<char>,
    pub user_agent: Seq<char>,
    pub get_request: Map<Seq<char>, Seq<char>>,
    pub post_request: Map<Seq<char>, PostField>,
    pub raw_request: Seq<Seq<char>>,
    pub secure: bool,
}

impl View for Request {
    type V = RequestModel;

    open spec fn view(&self) -> RequestModel {
        RequestModel {
            method: self.method,
            uri: self.uri@,
            user_agent: self.user_agent@,
            get_request: string_values(self.get_request@),
            post_request: field_values(self.post_request@),
            raw_request: texts(self.raw_request@),
            secure: self.secure,
        }
    }
}

/// The rows of a request text: its lines, each cut further at every `';'`.
pub open spec fn rows(text: Seq<char>) -> Seq<Seq<char>> {
    split_all(split(text, "\r\n"@), ";"@)
}

/// The verb that a token spells.
pub open spec fn verb(token: Seq<char>) -> Option<HttpMethod> {
    if token == "GET"@ {
        Some(HttpMethod::Get)
    } else if token == "POST"@ {
        Some(HttpMethod::Post)
    } else if token == "HEAD"@ {
        Some(HttpMethod::Head)
    } else if token == "PUT"@ {
        Some(HttpMethod::Put)
    } else if token == "DELETE"@ {
        Some(HttpMethod::Delete)
    } else if token == "CONNECT"@ {
        Some(HttpMethod::Connect)
    } else if token == "OPTIONS"@ {
        Some(HttpMethod::Options)
    } else if token == "TRACE"@ {
        Some(HttpMethod::Trace)
    } else {
        None
    }
}

/// The verb of the first token that spells one.
pub open spec fn first_verb(tokens: Seq<Seq<char>>) -> Option<HttpMethod>
    decreases tokens.len(),
{
    if tokens.len() == 0 {
        None
    } else {
        match verb(tokens.first()) {
            Some(m) => Some(m),
            None => first_verb(tokens.drop_first()),
        }
    }
}

/// The tokens of all rows, in order: each row cut at every space.
pub open spec fn tokens(rows: Seq<Seq<char>>) -> Seq<Seq<char>> {
    split_all(rows, " "@)
}

/// The method of a request: the first verb among the tokens of its rows.
pub open spec fn method_of(rows: Seq<Seq<char>>) -> Option<HttpMethod> {
    first_verb(tokens(rows))
}

/// The target of a request: the second token of the first row, and
/// `"/error"` where the first row has no second token.
pub open spec fn uri_of(rows: Seq<Seq<char>>) -> Seq<char> {
    let t = split(rows[0], " "@);
    if t.len() > 1 {
        t[1]
    } else {
        "/error"@
    }
}

/// The path of a target: what stands before its first `'?'`, and the whole
/// target where it has none.
pub open spec fn path_of(uri: Seq<char>) -> Seq<char> {
    match find(uri, "?"@) {
        Some(i) => uri.take(i),
        None => uri,
    }
}

/// The query of a target: all that follows its first `'?'`, a later `'?'`
/// included, if it has a `'?'` at all.
pub open spec fn query_of(uri: Seq<char>) -> Option<Seq<char>> {
    match find(uri, "?"@) {
        Some(i) => Some(uri.skip(i + 1)),
        None => None,
    }
}

/// The path that the text of a request asks for.
pub open spec fn request_path(text: Seq<char>) -> Seq<char> {
    path_of(uri_of(rows(text)))
}

/// The value of a query parameter as it is handed out: each `'+'` stands
/// for a space, and nothing else is decoded.
pub open spec fn decode_plus(value: Seq<char>) -> Seq<char> {
    replace_char(value, '+', ' ')
}

/// The parameters that a list of `key=value` pairs defines. A pair without
/// `'='` defines nothing, and a later pair overrides an earlier one with
/// the same key.
pub open spec fn pairs_map(pairs: Seq<Seq<char>>) -> Map<Seq<char>, Seq<char>>
    decreases pairs.len(),
{
    if pairs.len() == 0 {
        Map::empty()
    } else {
        let before = pairs_map(pairs.drop_last());
        let kv = split(pairs.last(), "="@);
        if kv.len() > 1 {
            before.insert(kv[0], decode_plus(kv[1]))
        } else {
            before
        }
    }
}

/// The query parameters of a target.
pub open spec fn vars_of(uri: Seq<char>) -> Map<Seq<char>, Seq<char>> {
    match query_of(uri) {
        Some(q) => pairs_map(split(q, "&"@)),
        None => Map::empty(),
    }
}

/// The user agent of a request: what follows `"User-Agent: "` in the first
/// row that begins with it, and `"none"` where no row does.
pub open spec fn user_agent_of(rows: Seq<Seq<char>>) -> Seq<char>
    decreases rows.len(),
{
    if rows.len() == 0 {
        "none"@
    } else if "User-Agent: "@.is_prefix_of(rows.first()) {
        rows.first().skip("User-Agent: "@.len() as int)
    } else {
        user_agent_of(rows.drop_first())
    }
}

/// The texts that the strings of a map hold.
pub open spec fn string_values(m: Map<Seq<char>, String>) -> Map<Seq<char>, Seq<char>> {
    m.map_values(|s: String| s@)
}

/// The request that a text spells, or the reason why it spells none.
pub open spec fn parse(text: Seq<char>, secure: bool) -> Result<RequestModel, ParseError> {
    let r = rows(text);
    match post_of(r) {
        Ok(fields) => Ok(
            RequestModel {
                method: method_of(r),
                uri: path_of(uri_of(r)),
                user_agent: user_agent_of(r),
                get_request: vars_of(uri_of(r)),
                post_request: fields,
                raw_request: r,
                secure,
            },
        ),
        Err(e) => Err(e),
    }
}

/// Whether `r` is what the conversion makes of `bytes`, as far as the
/// conversion is specified.
pub open spec fn converts<T: From<Vec<u8>>>(bytes: Vec<u8>, r: T) -> bool {
    T::obeys_from_spec() ==> r == T::from_spec(bytes)
}

/// Decoding a query value changes nothing but `'+'`, which becomes a
/// space: a percent escape stays as it is written.
pub proof fn lemma_decode_plus(value: Seq<char>)
    ensures
        decode_plus(value).len() == value.len(),
        forall|i: int|
            0 <= i < value.len() ==> #[trigger] decode_plus(value)[i] == if value[i] == '+' {
                ' '
            } else {
                value[i]
            },
        lacks(value, '+') ==> decode_plus(value) == value,
{
    if lacks(value, '+') {
        assert(decode_plus(value) =~= value);
    }
}

/// The first verb of a concatenation is that of the left part, or else
/// that of the right part.
pub proof fn lemma_first_verb_concat(a: Seq<Seq<char>>, b: Seq<Seq<char>>)
    ensures
        first_verb(a + b) == match first_verb(a) {
            Some(m) => Some(m),
            None => first_verb(b),
        },
    decreases a.len(),
{
    if a.len() == 0 {
        assert(a + b =~= b);
    } else {
        assert((a + b).first() == a.first());
        assert((a + b).drop_first() =~= a.drop_first() + b);
        lemma_first_verb_concat(a.drop_first(), b);
    }
}

/// A text has at least one row.
pub proof fn lemma_rows_nonempty(text: Seq<char>)
    ensures
        rows(text).len() >= 1,
{
    reveal_strlit("\r\n");
    reveal_strlit(";");
    let lines = split(text, "\r\n"@);
    lemma_split_nonempty(text, "\r\n"@);
    lemma_split_nonempty(lines.first(), ";"@);
    let pieces = lines.map_values(|row: Seq<char>| split(row, ";"@));
    assert(pieces.first() == split(lines.first(), ";"@));
    assert(pieces.flatten() == pieces.first().add(pieces.drop_first().flatten()));
}

impl PostRequest {
    /// A field with the given name, file name and payload.
    pub fn new(name: String, file_name: String, data: Vec<u8>) -> (r: Self)
        ensures
            r.name == name,
            r.file_name == file_name,
            r.data == data,
    {
        Self { name, file_name, data }
    }

    /// The payload, converted from a copy of its bytes.
    pub fn get_data<T: From<Vec<u8>>>(&self) -> (r: T)
        ensures
            exists|bytes: Vec<u8>| bytes@ == self.data@ && #[trigger] converts(bytes, r),
    {
        let bytes = copy_range(self.data.as_slice(), 0, self.data.len());
        let ghost copied = bytes;
        assert(copied@ =~= self.data@);
        let r = T::from(bytes);
        assert(converts(copied, r));
        r
    }
}

impl Request {
    /// Parses the text of a request received from the peer at `user_addr`.
    pub fn new(request: String, user_addr: PeerAddr, is_secure: bool) -> (r: Result<
        Self,
        ParseError,
    >)
        ensures
            match parse(request@, is_secure) {
                Ok(q) => r matches Ok(asked) && asked@ == q && asked.user_addr == user_addr,
                Err(e) => r matches Err(x) && x == e,
            },
    {
        let text = to_chars(request.as_str());
        let strings = Request::split_to_row(text.as_slice());
        proof {
            lemma_rows_nonempty(request@);
        }
        let method = Request::get_method(&strings);
        let target = Request::get_uri(&strings);
        let user_agent = Request::get_user_agent(&strings);
        let (get_request, path) = Request::get_vars(target.as_slice());
        let post_request = match Request::get_post_request(&strings) {
            Ok(fields) => fields,
            Err(e) => {
                return Err(e);
            },
        };
        Ok(
            Request {
                method,
                uri: from_chars(path.as_slice()),
                user_agent: from_chars(user_agent.as_slice()),
                user_addr,
                get_request,
                post_request,
                raw_request: to_strings(&strings),
                secure: is_secure,
            },
        )
    }

    /// The path that the text of a request asks for.
    pub fn get_path(request: &str) -> (r: Vec<char>)
        ensures
            r@ == request_path(request@),
    {
        let text = to_chars(request);
        let strings = Request::split_to_row(text.as_slice());
        proof {
            lemma_rows_nonempty(request@);
        }
        let target = Request::get_uri(&strings);
        let (_, path) = Request::get_vars(target.as_slice());
        path
    }

    /// Cuts the text of a request into rows.
    pub fn split_to_row(string: &[char]) -> (r: Vec<Vec<char>>)
        ensures
            views(r@) == rows(string@),
    {
        proof {
            reveal_strlit("\r\n");
            reveal_strlit(";");
        }
        let lines = cut(string, "\r\n");
        assert(views(lines@).skip(0) =~= views(lines@));
        cut_all(&lines, 0, ";")
    }

    /// The method that the request names.
    pub fn get_method(strings: &Vec<Vec<char>>) -> (r: Option<HttpMethod>)
        ensures
            r == method_of(views(strings@)),
    {
        let ghost all = views(strings@);
        let mut i: usize = 0;
        proof {
            lemma_split_all_empty(" "@);
            assert(all.take(0) =~= Seq::<Seq<char>>::empty());
        }
        while i < strings.len()
            invariant
                i <= strings.len(),
                all == views(strings@),
                first_verb(tokens(all.take(i as int))) is None,
            decreases strings.len() - i,
        {
            let found = row_method(strings[i].as_slice());
            proof {
                lemma_split_all_push(all, " "@, i as int);
                lemma_first_verb_concat(tokens(all.take(i as int)), split(all[i as int], " "@));
            }
            if found.is_some() {
                proof {
                    assert(all =~= all.take(i + 1) + all.skip(i + 1));
                    lemma_split_all_concat(all.take(i + 1), all.skip(i + 1), " "@);
                    lemma_first_verb_concat(
                        tokens(all.take(i + 1)),
                        tokens(all.skip(i + 1)),
                    );
                }
                return found;
            }
            i += 1;
        }
        assert(all.take(i as int) =~= all);
        None
    }

    /// The target that the request names.
    pub fn get_uri(strings: &Vec<Vec<char>>) -> (r: Vec<char>)
        requires
            strings.len() > 0,
        ensures
            r@ == uri_of(views(strings@)),
    {
        proof {
            reveal_strlit(" ");
        }
        let words = cut(strings[0].as_slice(), " ");
        if words.len() > 1 {
            copy(words[1].as_slice())
        } else {
            to_chars("/error")
        }
    }

    /// The path of a target and the parameters of its query.
    pub fn get_vars(uri: &[char]) -> (r: (StringMap<String>, Vec<char>))
        ensures
            string_values(r.0@) == vars_of(uri@),
            r.1@ == path_of(uri@),
    {
        proof {
            reveal_strlit("?");
            reveal_strlit("&");
            reveal_strlit("=");
        }
        let mark = to_chars("?");
        let mut vars: StringMap<String> = StringMap::new();
        proof {
            assert(string_values(vars@) =~= Map::<Seq<char>, Seq<char>>::empty());
            assert(uri@.skip(0) =~= uri@);
        }
        let first = match find_from(uri, mark.as_slice(), 0) {
            Some(i) => i,
            None => {
                return (vars, copy(uri));
            },
        };
        let path = copy_range(uri, 0, first);
        let query = copy_range(uri, first + 1, uri.len());
        proof {
            assert(uri@.take(first as int) =~= uri@.subrange(0, first as int));
            assert(uri@.skip(first + 1) =~= uri@.subrange(first + 1, uri@.len() as int));
        }
        let pairs = cut(query.as_slice(), "&");
        let ghost all = views(pairs@);
        let mut i: usize = 0;
        assert(all.take(0) =~= Seq::<Seq<char>>::empty());
        while i < pairs.len()
            invariant
                i <= pairs.len(),
                all == views(pairs@),
                "="@.len() == 1,
                string_values(vars@) == pairs_map(all.take(i as int)),
            decreases pairs.len() - i,
        {
            let kv = cut(pairs[i].as_slice(), "=");
            proof {
                assert(all.take(i + 1).drop_last() =~= all.take(i as int));
                assert(all.take(i + 1).last() == all[i as int]);
            }
            if kv.len() > 1 {
                let key = copy(kv[0].as_slice());
                let value = from_chars(plus_decoded(kv[1].as_slice()).as_slice());
                let ghost before = vars@;
                vars.insert_text(key, value);
                assert(string_values(before.insert(key@, value)) =~= string_values(
                    before,
                ).insert(key@, value@));
            }
            i += 1;
        }
        assert(all.take(i as int) =~= all);
        (vars, path)
    }

    /// The user agent that the request names.
    pub fn get_user_agent(strings: &Vec<Vec<char>>) -> (r: Vec<char>)
        ensures
            r@ == user_agent_of(views(strings@)),
    {
        proof {
            reveal_strlit("User-Agent: ");
        }
        let prefix = to_chars("User-Agent: ");
        let ghost all = views(strings@);
        let mut i: usize = 0;
        assert(all.skip(0) =~= all);
        while i < strings.len()
            invariant
                i <= strings.len(),
                all == views(strings@),
                prefix@ == "User-Agent: "@,
                prefix@.len() == 12,
                user_agent_of(all) == user_agent_of(all.skip(i as int)),
            decreases strings.len() - i,
        {
            let row = strings[i].as_slice();
            proof {
                assert(all.skip(i as int).first() == row@);
                assert(all.skip(i as int).drop_first() =~= all.skip(i + 1));
                if prefix@.is_prefix_of(row@) {
                    assert(row@.subrange(0, 0 + prefix@.len() as int) =~= prefix@);
                }
            }
            if matches_at(row, prefix.as_slice(), 0) {
                let r = copy_range(row, prefix.len(), row.len());
                return r;
            }
            i += 1;
        }
        to_chars("none")
    }
}

/// The verb that a token spells.
pub fn verb_of(token: &[char]) -> (r: Option<HttpMethod>)
    ensures
        r == verb(token@),
{
    if is_str(token, "GET") {
        Some(HttpMethod::Get)
    } else if is_str(token, "POST") {
        Some(HttpMethod::Post)
    } else if is_str(token, "HEAD") {
        Some(HttpMethod::Head)
    } else if is_str(token, "PUT") {
        Some(HttpMethod::Put)
    } else if is_str(token, "DELETE") {
        Some(HttpMethod::Delete)
    } else if is_str(token, "CONNECT") {
        Some(HttpMethod::Connect)
    } else if is_str(token, "OPTIONS") {
        Some(HttpMethod::Options)
    } else if is_str(token, "TRACE") {
        Some(HttpMethod::Trace)
    } else {
        None
    }
}

/// The first verb among the tokens of one row.
fn row_method(row: &[char]) -> (r: Option<HttpMethod>)
    ensures
        r == first_verb(split(row@, " "@)),
{
    proof {
        reveal_strlit(" ");
    }
    let words = cut(row, " ");
    let ghost all = views(words@);
    let mut j: usize = 0;
    while j < words.len()
        invariant
            j <= words.len(),
            all == views(words@),
            all == split(row@, " "@),
            first_verb(all.take(j as int)) is None,
        decreases words.len() - j,
    {
        let found = verb_of(words[j].as_slice());
        proof {
            assert(all.take(j + 1) =~= all.take(j as int) + seq![all[j as int]]);
            lemma_first_verb_concat(all.take(j as int), seq![all[j as int]]);
            assert(seq![all[j as int]].drop_first() =~= Seq::<Seq<char>>::empty());
            assert(first_verb(Seq::<Seq<char>>::empty()) is None);
            assert(first_verb(seq![all[j as int]]) == verb(all[j as int]));
        }
        if found.is_some() {
            proof {
                assert(all =~= all.take(j + 1) + all.skip(j + 1));
                lemma_first_verb_concat(all.take(j + 1), all.skip(j + 1));
            }
            return found;
        }
        j += 1;
    }
    assert(all.take(j as int) =~= all);
    None
}

/// A copy of `value` in which each `'+'` has become a space.
pub fn plus_decoded(value: &[char]) -> (r: Vec<char>)
    ensures
        r@ == decode_plus(value@),
{
    let mut r: Vec<char> = Vec::new();
    let mut i: usize = 0;
    while i < value.len()
        invariant
            i <= value.len(),
            r@ == decode_plus(value@).take(i as int),
        decreases value.len() - i,
    {
        let c = value[i];
        if c == '+' {
            r.push(' ');
        } else {
            r.push(c);
        }
        assert(r@ =~= decode_plus(value@).take(i + 1));
        i += 1;
    }
    assert(decode_plus(value@).take(i as int) =~= decode_plus(value@));
    r
}

/// Strings that hold the given texts.
pub fn to_strings(rows: &Vec<Vec<char>>) -> (r: Vec<String>)
    ensures
        texts(r@) == views(rows@),
{
    let mut r: Vec<String> = Vec::new();
    let mut i: usize = 0;
    while i < rows.len()
        invariant
            i <= rows.len(),
            texts(r@) == views(rows@).take(i as int),
        decreases rows.len() - i,
    {
        let ghost before = r@;
        let row = from_chars(rows[i].as_slice());
        r.push(row);
        proof {
            assert(texts(before.push(row)) =~= texts(before).push(row@));
            assert(views(rows@).take(i + 1) =~= views(rows@).take(i as int).push(rows@[i as int]@));
        }
        i += 1;
    }
    assert(views(rows@).take(i as int) =~= views(rows@));
    r
}

} // verus!
