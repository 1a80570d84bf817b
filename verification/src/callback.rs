//! The login callback request that the browser sends to the local listener:
//! which page to answer with, and what the login gets from it.

use vstd::prelude::*;
use crate::auth::{
    find_char, find_char_index, pairs_view, parse_query, query_value, slice_chars, spec_parse_query,
    spec_query_value, QueryPair,
};
use crate::text::{chars_of, owned, push_str, push_unsigned, same_text, spec_decimal, spec_words, string_from_chars, words_of};

verus! {

/// The first line of a text, as `str::lines` gives it: up to the first
/// `\n`, without a `\r` just before it.
pub open spec fn spec_first_line(s: Seq<char>) -> Seq<char> {
    match find_char(s, '\n') {
        Some(i) => {
            let l = s.take(i);
            if l.len() > 0 && l.last() == '\r' {
                l.drop_last()
            } else {
                l
            }
        },
        None => s,
    }
}

/// The request target: the second word of the request's first line.
pub open spec fn spec_request_target(request: Seq<char>) -> Option<Seq<char>> {
    let words = spec_words(spec_first_line(request));
    if words.len() >= 2 {
        Some(words[1])
    } else {
        None
    }
}

/// Path and query of a target, split at its first `?`.
pub open spec fn spec_split_target(target: Seq<char>) -> (Seq<char>, Seq<char>) {
    match find_char(target, '?') {
        Some(i) => (target.take(i), target.skip(i + 1)),
        None => (target, Seq::empty()),
    }
}

/// The page shown in the browser after the callback.
pub open spec fn spec_callback_body(path: Seq<char>, callback_path: Seq<char>, pairs: Seq<(Seq<char>, Seq<char>)>) -> Seq<char> {
    if path != callback_path {
        "EVE Metrade received an unexpected callback path."@
    } else {
        match spec_query_value(pairs, "error"@) {
            Some(e) => "EVE Metrade login failed: "@ + e + match spec_query_value(pairs, "error_description"@) {
                Some(d) => " "@ + d,
                None => Seq::empty(),
            },
            None => "EVE Metrade received the login callback. You can close this tab and return to the app."@,
        }
    }
}

/// A plain-text `200 OK` HTTP response with this body; the length counts the body's UTF-8 bytes.
pub open spec fn spec_http_response(body: Seq<char>) -> Seq<char> {
    "HTTP/1.1 200 OK\r\nContent-Type: text/plain; charset=utf-8\r\nContent-Length: "@ + spec_decimal(
        (vstd::utf8::encode_utf8(body).len() as usize) as int,
    ) + "\r\nConnection: close\r\n\r\n"@ + body
}

pub open spec fn unexpected_path_message(path: Seq<char>) -> Seq<char> {
    "Unexpected login callback path: "@ + path
}

/// The answer to a callback request and what the login gets from it: the
/// query's parameters, or an error when the path is not the callback path.
#[derive(Debug)]
pub struct CallbackReply {
    pub response: String,
    pub login: Result<Vec<QueryPair>, String>,
}

fn first_line(s: &Vec<char>) -> (r: Vec<char>)
    ensures
        r@ == spec_first_line(s@),
{
    match find_char_index(s, '\n') {
        Some(i) => {
            let l = slice_chars(s, 0, i);
            assert(l@ =~= s@.take(i as int));
            if l.len() > 0 && l[l.len() - 1] == '\r' {
                let m = slice_chars(&l, 0, l.len() - 1);
                assert(m@ =~= l@.drop_last());
                m
            } else {
                l
            }
        },
        None => slice_chars(s, 0, s.len()),
    }
}

/// Reads a callback request and builds the page to answer with. A request
/// whose first line has no target is invalid.
pub fn callback_reply(request: &str, callback_path: &str) -> (r: Result<CallbackReply, String>)
    ensures
        match spec_request_target(request@) {
            None => r matches Err(e) && e@ == "Invalid EVE login callback."@,
            Some(target) => {
                let (path, query) = spec_split_target(target);
                let pairs = spec_parse_query(query);
                &&& r matches Ok(reply)
                &&& reply.response@ == spec_http_response(spec_callback_body(path, callback_path@, pairs))
                &&& path != callback_path@ ==> (reply.login matches Err(e) && e@ == unexpected_path_message(path))
                &&& path == callback_path@ ==> (reply.login matches Ok(v) && pairs_view(v@) == pairs)
            },
        },
{
    let req = chars_of(request);
    let line = first_line(&req);
    let words = words_of(&line);
    if words.len() < 2 {
        return Err(owned("Invalid EVE login callback."));
    }
    let target = &words[1];
    let (path, query) = match find_char_index(target, '?') {
        Some(i) => {
            let p = slice_chars(target, 0, i);
            let q = slice_chars(target, i + 1, target.len());
            assert(p@ =~= target@.take(i as int));
            assert(q@ =~= target@.skip(i + 1));
            (p, q)
        },
        None => {
            let p = slice_chars(target, 0, target.len());
            assert(p@ =~= target@);
            (p, Vec::new())
        },
    };
    let path_text = string_from_chars(path.as_slice());
    let query_text = string_from_chars(query.as_slice());
    let pairs = parse_query(query_text.as_str());
    let ghost spairs = spec_parse_query(query_text@);
    assert(pairs_view(pairs@) =~= spairs);
    let on_path = same_text(path_text.as_str(), callback_path);
    let mut body: Vec<char> = Vec::new();
    if !on_path {
        push_str(&mut body, "EVE Metrade received an unexpected callback path.");
    } else {
        match query_value(&pairs, "error") {
            Some(e) => {
                push_str(&mut body, "EVE Metrade login failed: ");
                push_str(&mut body, e);
                match query_value(&pairs, "error_description") {
                    Some(d) => {
                        push_str(&mut body, " ");
                        push_str(&mut body, d);
                    },
                    None => {},
                }
            },
            None => {
                push_str(&mut body, "EVE Metrade received the login callback. You can close this tab and return to the app.");
            },
        }
    }
    assert(body@ =~= spec_callback_body(path_text@, callback_path@, spairs));
    let body_text = string_from_chars(body.as_slice());
    let mut response: Vec<char> = Vec::new();
    push_str(&mut response, "HTTP/1.1 200 OK\r\nContent-Type: text/plain; charset=utf-8\r\nContent-Length: ");
    push_unsigned(&mut response, body_text.as_str().len() as u64);
    push_str(&mut response, "\r\nConnection: close\r\n\r\n");
    push_str(&mut response, body_text.as_str());
    assert(response@ =~= spec_http_response(body@));
    let login = if on_path {
        Ok(pairs)
    } else {
        let mut m: Vec<char> = Vec::new();
        push_str(&mut m, "Unexpected login callback path: ");
        push_str(&mut m, path_text.as_str());
        assert(m@ =~= unexpected_path_message(path_text@));
        Err(string_from_chars(m.as_slice()))
    };
    Ok(CallbackReply { response: string_from_chars(response.as_slice()), login })
}

} // verus!
