//! Which methods, headers and origins browsers may use.
use crate::lists::{collected, collected_all, collected_next};
use crate::text::{list_has, lower, opt_view, views};
use vstd::prelude::*;

verus! {

/// Whether a character may stand in the name of a method or of a header.
pub open spec fn is_token_char(c: char) -> bool {
    ||| '0' <= c && c <= '9'
    ||| 'A' <= c && c <= 'Z'
    ||| 'a' <= c && c <= 'z'
    ||| c == '!'
    ||| c == '#'
    ||| c == '$'
    ||| c == '%'
    ||| c == '&'
    ||| c == '\''
    ||| c == '*'
    ||| c == '+'
    ||| c == '-'
    ||| c == '.'
    ||| c == '^'
    ||| c == '_'
    ||| c == '`'
    ||| c == '|'
    ||| c == '~'
}

/// Whether a text is the name of a method or of a header, as far as its
/// characters go.
pub open spec fn is_token(text: Seq<char>) -> bool {
    text.len() > 0 && forall|i: int| 0 <= i < text.len() ==> is_token_char(#[trigger] text[i])
}

/// The method that a text names: itself, where it is one.
pub open spec fn method_named(text: Seq<char>) -> Option<Seq<char>> {
    if is_token(text) {
        Some(text)
    } else {
        None
    }
}

/// The header that a text names: itself in lower case, where it is one and not
/// too long.
pub open spec fn header_named(text: Seq<char>) -> Option<Seq<char>> {
    if is_token(text) && text.len() <= 65535 {
        Some(lower(text))
    } else {
        None
    }
}

/// `axum::http::Method::from_bytes`, shown by `as_str`: the text itself, where
/// every character may stand in a method's name.
#[verifier::external_body]
fn method_from_text(text: &str) -> (r: Option<String>)
    ensures
        opt_view(r) == method_named(text@),
{
    axum::http::Method::from_bytes(text.as_bytes()).ok().map(|m| m.as_str().to_string())
}

/// `axum::http::HeaderName::from_bytes`, shown by `as_str`: the text in lower
/// case, where every character may stand in a header's name and there are no
/// more than 65535 of them.
#[verifier::external_body]
fn header_from_text(text: &str) -> (r: Option<String>)
    ensures
        opt_view(r) == header_named(text@),
{
    axum::http::HeaderName::from_bytes(text.as_bytes()).ok().map(|h| h.as_str().to_string())
}

/// The methods that are allowed: those that are methods.
pub fn parse_cors_methods(values: &Vec<String>) -> (r: Vec<String>)
    ensures
        views(r@) == collected(views(values@), |v: Seq<char>| method_named(v)),
{
    let ghost all = views(values@);
    let ghost f = |v: Seq<char>| method_named(v);
    let mut r: Vec<String> = Vec::new();
    let mut i: usize = 0;
    proof {
        collected_all(all, f);
        assert(views(r@) =~= collected(all.take(0), f));
    }
    while i < values.len()
        invariant
            i <= values@.len(),
            all == views(values@),
            f == (|v: Seq<char>| method_named(v)),
            views(r@) == collected(all.take(i as int), f),
        decreases values@.len() - i,
    {
        proof {
            collected_next(all, f, i as int);
            assert(all[i as int] == values@[i as int]@);
        }
        if let Some(m) = method_from_text(values[i].as_str()) {
            let ghost so_far = views(r@);
            let ghost v = m@;
            r.push(m);
            assert(views(r@) =~= so_far.push(v));
        }
        i += 1;
    }
    r
}

/// The headers that are allowed: those that are headers, in lower case.
pub fn parse_cors_headers(values: &Vec<String>) -> (r: Vec<String>)
    ensures
        views(r@) == collected(views(values@), |v: Seq<char>| header_named(v)),
{
    let ghost all = views(values@);
    let ghost f = |v: Seq<char>| header_named(v);
    let mut r: Vec<String> = Vec::new();
    let mut i: usize = 0;
    proof {
        collected_all(all, f);
        assert(views(r@) =~= collected(all.take(0), f));
    }
    while i < values.len()
        invariant
            i <= values@.len(),
            all == views(values@),
            f == (|v: Seq<char>| header_named(v)),
            views(r@) == collected(all.take(i as int), f),
        decreases values@.len() - i,
    {
        proof {
            collected_next(all, f, i as int);
            assert(all[i as int] == values@[i as int]@);
        }
        if let Some(h) = header_from_text(values[i].as_str()) {
            let ghost so_far = views(r@);
            let ghost v = h@;
            r.push(h);
            assert(views(r@) =~= so_far.push(v));
        }
        i += 1;
    }
    r
}

/// Whether every origin is allowed.
pub fn any_origin(origins: &Vec<String>) -> (r: bool)
    ensures
        r == views(origins@).contains("*"@),
{
    list_has(origins, "*")
}

} // verus!
