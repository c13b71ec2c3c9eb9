//! What the parser recovers from a well-formed request line.

use vstd::prelude::*;
use crate::form::{form_kind, FormKind, MULTIPART, URLENCODED};
use crate::request::{
    decode_plus, first_verb, lemma_first_verb_concat, method_of, pairs_map, parse, path_of, rows,
    uri_of, user_agent_of, vars_of, verb, HttpMethod, ParseError, RequestModel,
};
use crate::text::{
    lacks, lemma_lacks, lemma_lacks_concat, lemma_split_all_concat, lemma_split_all_single,
    lemma_split_first, split, split_all,
};

verus! {

/// How a method is spelled.
pub open spec fn method_name(m: HttpMethod) -> Seq<char> {
    match m {
        HttpMethod::Get => "GET"@,
        HttpMethod::Post => "POST"@,
        HttpMethod::Head => "HEAD"@,
        HttpMethod::Put => "PUT"@,
        HttpMethod::Delete => "DELETE"@,
        HttpMethod::Connect => "CONNECT"@,
        HttpMethod::Options => "OPTIONS"@,
        HttpMethod::Trace => "TRACE"@,
    }
}

/// A text without any of the characters at which the parser cuts: space,
/// carriage return, `';'`, `'?'`, `'&'` and `'='`.
pub open spec fn is_plain(s: Seq<char>) -> bool {
    &&& lacks(s, ' ')
    &&& lacks(s, '\r')
    &&& lacks(s, ';')
    &&& lacks(s, '?')
    &&& lacks(s, '&')
    &&& lacks(s, '=')
}

/// The target `path?key=value`.
pub open spec fn target(path: Seq<char>, key: Seq<char>, value: Seq<char>) -> Seq<char> {
    path + "?"@ + (key + "="@ + value)
}

/// The request line `METHOD path?key=value HTTP/1.1`.
pub open spec fn request_line(
    m: HttpMethod,
    path: Seq<char>,
    key: Seq<char>,
    value: Seq<char>,
) -> Seq<char> {
    method_name(m) + " "@ + (target(path, key, value) + " "@ + "HTTP/1.1"@)
}

/// The one parameter `key`, with the decoded `value`.
pub open spec fn one_var(key: Seq<char>, value: Seq<char>) -> Map<Seq<char>, Seq<char>> {
    Map::<Seq<char>, Seq<char>>::empty().insert(key, decode_plus(value))
}

/// The spelling of a method is read as that method, holds none of the
/// characters at which the parser cuts, and has a capital as its second
/// letter.
pub proof fn lemma_method_name(m: HttpMethod)
    ensures
        verb(method_name(m)) == Some(m),
        is_plain(method_name(m)),
        method_name(m).len() >= 3,
        method_name(m)[1] != 'o',
        method_name(m)[1] != 's',
{
    reveal_strlit("GET");
    reveal_strlit("POST");
    reveal_strlit("HEAD");
    reveal_strlit("PUT");
    reveal_strlit("DELETE");
    reveal_strlit("CONNECT");
    reveal_strlit("OPTIONS");
    reveal_strlit("TRACE");
    assert("GET"@[0] == 'G' && "POST"@[1] == 'O' && "HEAD"@[0] == 'H' && "PUT"@[1] == 'U'
        && "DELETE"@[0] == 'D' && "CONNECT"@[0] == 'C' && "OPTIONS"@[0] == 'O' && "TRACE"@[0]
        == 'T');
    assert("POST"@[0] == 'P' && "PUT"@[0] == 'P');
}

/// The target of a well-formed request line lacks the characters at which
/// rows and tokens are cut.
pub proof fn lemma_target_lacks(path: Seq<char>, key: Seq<char>, value: Seq<char>, c: char)
    requires
        lacks(path, c),
        lacks(key, c),
        lacks(value, c),
        c != '?',
        c != '=',
    ensures
        lacks(target(path, key, value), c),
{
    reveal_strlit("?");
    reveal_strlit("=");
    lemma_lacks_concat(path, "?"@, c);
    lemma_lacks_concat(key, "="@, c);
    lemma_lacks_concat(key + "="@, value, c);
    lemma_lacks_concat(path + "?"@, key + "="@ + value, c);
}

/// The target of a well-formed request line is cut into its path and its
/// one parameter.
pub proof fn lemma_target(path: Seq<char>, key: Seq<char>, value: Seq<char>)
    requires
        is_plain(path),
        is_plain(key),
        is_plain(value),
    ensures
        path_of(target(path, key, value)) == path,
        vars_of(target(path, key, value)) == one_var(key, value),
{
    reveal_strlit("?");
    reveal_strlit("&");
    reveal_strlit("=");
    let pair = key + "="@ + value;
    lemma_lacks_concat(key, "="@, '?');
    lemma_lacks_concat(key + "="@, value, '?');
    lemma_lacks_concat(key, "="@, '&');
    lemma_lacks_concat(key + "="@, value, '&');
    lemma_split_first(path, "?"@, pair);
    lemma_lacks(pair, "&"@);
    let t = target(path, key, value);
    assert(t.take(path.len() as int) =~= path);
    assert(t.skip(path.len() as int + 1) =~= pair);
    lemma_split_first(key, "="@, value);
    lemma_lacks(value, "="@);
    assert(split(pair, "="@) =~= seq![key, value]);
    let pairs = seq![pair];
    assert(pairs.drop_last() =~= Seq::<Seq<char>>::empty());
    assert(pairs_map(pairs.drop_last()) =~= Map::<Seq<char>, Seq<char>>::empty());
}

/// A well-formed request line is cut into three tokens: the method, the
/// target and the version.
pub proof fn lemma_line_tokens(m: HttpMethod, path: Seq<char>, key: Seq<char>, value: Seq<char>)
    requires
        is_plain(path),
        is_plain(key),
        is_plain(value),
    ensures
        split(request_line(m, path, key, value), " "@) == seq![
            method_name(m),
            target(path, key, value),
            "HTTP/1.1"@,
        ],
        lacks(request_line(m, path, key, value), '\r'),
        lacks(request_line(m, path, key, value), ';'),
{
    reveal_strlit(" ");
    reveal_strlit("HTTP/1.1");
    let name = method_name(m);
    let t = target(path, key, value);
    let version = "HTTP/1.1"@;
    lemma_method_name(m);
    lemma_target_lacks(path, key, value, ' ');
    lemma_target_lacks(path, key, value, '\r');
    lemma_target_lacks(path, key, value, ';');
    lemma_split_first(name, " "@, t + " "@ + version);
    lemma_split_first(t, " "@, version);
    lemma_lacks(version, " "@);
    assert(seq![name] + (seq![t] + seq![version]) =~= seq![name, t, version]);
    lemma_lacks_concat(t, " "@, '\r');
    lemma_lacks_concat(t + " "@, version, '\r');
    lemma_lacks_concat(name, " "@, '\r');
    lemma_lacks_concat(name + " "@, t + " "@ + version, '\r');
    lemma_lacks_concat(t, " "@, ';');
    lemma_lacks_concat(t + " "@, version, ';');
    lemma_lacks_concat(name, " "@, ';');
    lemma_lacks_concat(name + " "@, t + " "@ + version, ';');
}

/// What is recovered from rows whose first is a well-formed request line.
pub proof fn lemma_first_row(
    m: HttpMethod,
    path: Seq<char>,
    key: Seq<char>,
    value: Seq<char>,
    others: Seq<Seq<char>>,
)
    requires
        is_plain(path),
        is_plain(key),
        is_plain(value),
    ensures
        ({
            let r = seq![request_line(m, path, key, value)] + others;
            &&& method_of(r) == Some(m)
            &&& path_of(uri_of(r)) == path
            &&& vars_of(uri_of(r)) == one_var(key, value)
        }),
{
    let line = request_line(m, path, key, value);
    let r = seq![line] + others;
    lemma_line_tokens(m, path, key, value);
    lemma_target(path, key, value);
    lemma_method_name(m);
    assert(r[0] == line);
    lemma_split_all_concat(seq![line], others, " "@);
    lemma_split_all_single(line, " "@);
    let words = split(line, " "@);
    lemma_first_verb_concat(words, split_all(others, " "@));
    assert(first_verb(words) == Some(m));
}

/// The rows of a text that begins with a well-formed request line.
pub proof fn lemma_rows(
    m: HttpMethod,
    path: Seq<char>,
    key: Seq<char>,
    value: Seq<char>,
    rest: Seq<char>,
)
    requires
        is_plain(path),
        is_plain(key),
        is_plain(value),
    ensures
        rows(request_line(m, path, key, value)) == seq![request_line(m, path, key, value)],
        rows(request_line(m, path, key, value) + "\r\n"@ + rest) == seq![
            request_line(m, path, key, value),
        ] + rows(rest),
{
    reveal_strlit("\r\n");
    reveal_strlit(";");
    let line = request_line(m, path, key, value);
    lemma_line_tokens(m, path, key, value);
    lemma_lacks(line, "\r\n"@);
    lemma_lacks(line, ";"@);
    lemma_split_all_single(line, ";"@);
    lemma_split_first(line, "\r\n"@, rest);
    lemma_split_all_concat(seq![line], split(rest, "\r\n"@), ";"@);
}

/// From a request that begins with the well-formed line
/// `METHOD path?key=value HTTP/1.1`, whatever follows that line, the parser
/// recovers the method, the path, and the one parameter `key` with `value`
/// in which each `'+'` stands for a space.
///
/// Well-formed means that `path`, `key` and `value` hold none of the
/// characters at which the parser cuts.
pub proof fn lemma_request_line(
    m: HttpMethod,
    path: Seq<char>,
    key: Seq<char>,
    value: Seq<char>,
    rest: Seq<char>,
    secure: bool,
)
    requires
        is_plain(path),
        is_plain(key),
        is_plain(value),
    ensures
        ({
            let r = rows(request_line(m, path, key, value) + "\r\n"@ + rest);
            &&& method_of(r) == Some(m)
            &&& path_of(uri_of(r)) == path
            &&& vars_of(uri_of(r)) == one_var(key, value)
        }),
        parse(request_line(m, path, key, value) + "\r\n"@ + rest, secure) matches Ok(q) ==> q.method
            == Some(m) && q.uri == path && q.get_request == one_var(key, value),
{
    lemma_rows(m, path, key, value, rest);
    lemma_first_row(m, path, key, value, rows(rest));
}

/// A request that is nothing but the well-formed line
/// `METHOD path?key=value HTTP/1.1` is parsed, and the result holds the
/// method, the path, the one parameter, no posted field and no user agent.
pub proof fn lemma_request_line_alone(
    m: HttpMethod,
    path: Seq<char>,
    key: Seq<char>,
    value: Seq<char>,
    secure: bool,
)
    requires
        is_plain(path),
        is_plain(key),
        is_plain(value),
    ensures
        parse(request_line(m, path, key, value), secure) == Ok::<RequestModel, ParseError>(
            RequestModel {
                method: Some(m),
                uri: path,
                user_agent: "none"@,
                get_request: one_var(key, value),
                post_request: Map::empty(),
                raw_request: seq![request_line(m, path, key, value)],
                secure,
            },
        ),
{
    let line = request_line(m, path, key, value);
    let r = seq![line];
    lemma_rows(m, path, key, value, Seq::empty());
    lemma_first_row(m, path, key, value, Seq::empty());
    assert(seq![line] + Seq::<Seq<char>>::empty() =~= r);
    lemma_method_name(m);
    reveal_strlit("Content-Type: application/x-www-form-urlencoded");
    reveal_strlit("Content-Type: multipart/form-data");
    reveal_strlit("User-Agent: ");
    assert(line[1] == method_name(m)[1]);
    assert(URLENCODED@[1] == 'o');
    assert(MULTIPART@[1] == 'o');
    assert(!r.contains(URLENCODED@));
    assert(!r.contains(MULTIPART@));
    assert(form_kind(r) == FormKind::Absent);
    assert(!"User-Agent: "@.is_prefix_of(line)) by {
        if "User-Agent: "@.is_prefix_of(line) {
            assert("User-Agent: "@[1] == line.subrange(0, "User-Agent: "@.len() as int)[1]);
        }
    }
    assert(r.drop_first() =~= Seq::<Seq<char>>::empty());
    assert(r.first() == line);
    assert(user_agent_of(Seq::<Seq<char>>::empty()) == "none"@);
    assert(user_agent_of(r) == "none"@);
}

} // verus!
