//! What HTTP requests carry and how HTTP replies are read: authentication, failed
//! statuses, and replies sent as server-sent events.

use vstd::prelude::*;
use vstd::string::*;

use crate::error::{is_error, AppError, ErrorKind};
use crate::pairs::pair_views;
use crate::text::{
    opt_view,
    chars_of, contains, has_prefix, index_of_char, starts_with, strip_prefixes, trim,
    trim_start_matches, trim_ws,
};

verus! {

/// The authentication header of a request: `X-API-Key` with the API key where one is set,
/// else `authorization` with `Bearer` and the token where one is set, else none.
pub open spec fn auth_header_for(api_key: Option<Seq<char>>, bearer: Option<Seq<char>>) -> Option<
    (Seq<char>, Seq<char>),
> {
    match api_key {
        Some(k) => Some(("X-API-Key"@, k)),
        None => match bearer {
            Some(t) => Some(("authorization"@, "Bearer "@ + t)),
            None => None,
        },
    }
}

/// The authentication header to send, from the API key and the bearer token that the
/// environment holds.
pub fn auth_header(api_key: Option<String>, bearer: Option<String>) -> (r: Option<(String, String)>)
    ensures
        match r {
            Some((n, v)) => auth_header_for(opt_view(api_key), opt_view(bearer)) == Some(
                (n@, v@),
            ),
            None => auth_header_for(opt_view(api_key), opt_view(bearer)) is None,
        },
{
    match api_key {
        Some(k) => Some((String::from_str("X-API-Key"), k)),
        None => match bearer {
            Some(t) => Some(
                (String::from_str("authorization"), String::from_str("Bearer ").concat(t.as_str())),
            ),
            None => None,
        },
    }
}

/// Two characters that are equal, or the same ASCII letter in two cases.
pub open spec fn same_ignoring_ascii_case(a: char, b: char) -> bool {
    let x = a as u32;
    let y = b as u32;
    ||| x == y
    ||| 0x41 <= x <= 0x5A && y == x + 32
    ||| 0x41 <= y <= 0x5A && x == y + 32
}

/// Two header names that HTTP takes as the same name: equal but for the case of ASCII
/// letters.
pub open spec fn same_header_name(a: Seq<char>, b: Seq<char>) -> bool {
    a.len() == b.len() && forall|i: int| 0 <= i < a.len() ==> same_ignoring_ascii_case(a[i], b[i])
}

/// A header that authenticates a request: `Authorization` or `X-API-Key`, in any case.
pub open spec fn is_auth_header_name(n: Seq<char>) -> bool {
    same_header_name(n, "authorization"@) || same_header_name(n, "x-api-key"@)
}

/// Some header of `hs` authenticates the request.
pub open spec fn has_auth_header(hs: Seq<(Seq<char>, Seq<char>)>) -> bool {
    exists|i: int| 0 <= i < hs.len() && is_auth_header_name(#[trigger] hs[i].0)
}

/// The headers that a request to an MCP server carries: the `--auth-header` ones, then the
/// authentication header of the environment unless one of them already authenticates the
/// request (`--auth-header` comes before the environment).
pub open spec fn merged_headers(
    custom: Seq<(Seq<char>, Seq<char>)>,
    api_key: Option<Seq<char>>,
    bearer: Option<Seq<char>>,
) -> Seq<(Seq<char>, Seq<char>)> {
    if has_auth_header(custom) {
        custom
    } else {
        match auth_header_for(api_key, bearer) {
            Some(h) => custom.push(h),
            None => custom,
        }
    }
}

/// Whether two header names are the same name to HTTP.
pub fn header_names_match(a: &str, b: &str) -> (r: bool)
    ensures
        r == same_header_name(a@, b@),
{
    let av = chars_of(a);
    let bv = chars_of(b);
    if av.len() != bv.len() {
        return false;
    }
    let mut i: usize = 0;
    while i < av.len()
        invariant
            av@ == a@,
            bv@ == b@,
            av@.len() == bv@.len(),
            i <= av@.len(),
            forall|k: int| 0 <= k < i ==> same_ignoring_ascii_case(a@[k], b@[k]),
        decreases av@.len() - i,
    {
        let x = av[i] as u32;
        let y = bv[i] as u32;
        if !(x == y || (0x41 <= x && x <= 0x5A && y == x + 32) || (0x41 <= y && y <= 0x5A && x == y
            + 32)) {
            return false;
        }
        i = i + 1;
    }
    true
}

/// The headers of a request to an MCP server: `custom`, then the authentication header of
/// the environment where no custom header authenticates the request.
pub fn request_headers(custom: &Vec<(String, String)>, api_key: Option<String>, bearer: Option<String>) -> (r:
    Vec<(String, String)>)
    ensures
        pair_views(r@) == merged_headers(pair_views(custom@), opt_view(api_key), opt_view(bearer)),
{
    let ghost c = pair_views(custom@);
    let mut out: Vec<(String, String)> = Vec::new();
    let mut authenticated = false;
    let mut i: usize = 0;
    while i < custom.len()
        invariant
            c == pair_views(custom@),
            i <= custom@.len(),
            pair_views(out@) == c.take(i as int),
            authenticated == exists|k: int| 0 <= k < i && is_auth_header_name(#[trigger] c[k].0),
        decreases custom@.len() - i,
    {
        let (k, v) = &custom[i];
        assert(c[i as int] == (k@, v@));
        let this_one = header_names_match(k.as_str(), "authorization") || header_names_match(
            k.as_str(),
            "x-api-key",
        );
        assert(this_one == is_auth_header_name(c[i as int].0));
        assert((authenticated || this_one) == exists|m: int|
            0 <= m < i + 1 && is_auth_header_name(#[trigger] c[m].0)) by {
            if this_one {
                assert(0 <= i < i + 1 && is_auth_header_name(c[i as int].0));
            }
            if exists|m: int| 0 <= m < i + 1 && is_auth_header_name(#[trigger] c[m].0) {
                let m = choose|m: int| 0 <= m < i + 1 && is_auth_header_name(#[trigger] c[m].0);
                if m < i {
                    assert(0 <= m < i && is_auth_header_name(c[m].0));
                }
            }
        }
        authenticated = authenticated || this_one;
        let ghost prev = pair_views(out@);
        out.push((k.clone(), v.clone()));
        assert(pair_views(out@) =~= prev.push(c[i as int]));
        assert(c.take(i + 1) =~= c.take(i as int).push(c[i as int]));
        i = i + 1;
    }
    assert(c.take(i as int) =~= c);
    if !authenticated {
        match auth_header(api_key, bearer) {
            Some(h) => {
                let ghost prev = pair_views(out@);
                let ghost hv = (h.0@, h.1@);
                out.push(h);
                assert(pair_views(out@) =~= prev.push(hv));
            },
            None => {},
        }
    }
    out
}

/// The message for a reply with a failed status: `HTTP`, the status, and the body.
pub open spec fn status_failure_message(status: Seq<char>, body: Seq<char>) -> Seq<char> {
    "HTTP "@ + status + ": "@ + body
}

/// The message for a reply with a failed status.
pub fn status_failure(status: &str, body: &str) -> (r: String)
    ensures
        r@ == status_failure_message(status@, body@),
{
    String::from_str("HTTP ").concat(status).concat(": ").concat(body)
}

/// Whether a reply's content type says that it is a stream of server-sent events.
pub fn is_event_stream(content_type: &str) -> (r: bool)
    ensures
        r == crate::text::contains_seq(content_type@, "text/event-stream"@),
{
    contains(content_type, "text/event-stream")
}

/// A line without the `\r` before its `\n`.
pub open spec fn strip_cr(l: Seq<char>) -> Seq<char> {
    if l.len() > 0 && l.last() == '\r' {
        l.drop_last()
    } else {
        l
    }
}

/// The lines of a text (`str::lines`): split at each `\n`, a `\r` before the `\n` dropped,
/// and no empty line after a final `\n`.
pub open spec fn lines_of(s: Seq<char>) -> Seq<Seq<char>>
    decreases s.len(),
{
    if s.len() == 0 {
        Seq::empty()
    } else {
        match index_of_char(s, '\n') {
            Some(i) => if i < s.len() {
                seq![strip_cr(s.take(i as int))] + lines_of(s.skip(i + 1 as int))
            } else {
                seq![s]
            },
            None => seq![s],
        }
    }
}

/// The first of `ls` that starts with `p`.
pub open spec fn first_with_prefix(ls: Seq<Seq<char>>, p: Seq<char>) -> Option<Seq<char>>
    decreases ls.len(),
{
    if ls.len() == 0 {
        None
    } else if has_prefix(ls[0], p) {
        Some(ls[0])
    } else {
        first_with_prefix(ls.drop_first(), p)
    }
}

/// The JSON that an event stream carries: the first `data:` line, without the `data:` and
/// without surrounding white space.
pub open spec fn event_stream_data(body: Seq<char>) -> Option<Seq<char>> {
    match first_with_prefix(lines_of(body), "data:"@) {
        Some(l) => Some(trim_ws(strip_prefixes(l, "data:"@))),
        None => None,
    }
}

/// The position of the first `\n` at or after `from`, or the length where there is none.
fn next_newline(sv: &Vec<char>, from: usize) -> (j: usize)
    requires
        from <= sv@.len(),
    ensures
        from <= j <= sv@.len(),
        match index_of_char(sv@.skip(from as int), '\n') {
            Some(k) => j == from + k && j < sv@.len(),
            None => j == sv@.len(),
        },
{
    let mut j = from;
    while j < sv.len() && sv[j] != '\n'
        invariant
            from <= j <= sv@.len(),
            index_of_char(sv@.skip(from as int), '\n') == match index_of_char(
                sv@.skip(j as int),
                '\n',
            ) {
                Some(k) => Some((k + (j - from)) as nat),
                None => None::<nat>,
            },
        decreases sv@.len() - j,
    {
        assert(sv@.skip(j as int).drop_first() =~= sv@.skip(j + 1));
        j = j + 1;
    }
    if j == sv.len() {
        assert(sv@.skip(j as int).len() == 0);
    }
    j
}

/// The JSON text of a reply sent as server-sent events.
pub fn event_stream_payload(body: &str) -> (r: Result<String, AppError>)
    ensures
        match r {
            Ok(d) => event_stream_data(body@) == Some(d@),
            Err(e) => event_stream_data(body@) is None && is_error(
                e,
                ErrorKind::Protocol,
                "No data line in SSE response"@,
            ),
        },
{
    let sv = chars_of(body);
    let n = sv.len();
    let mut pos: usize = 0;
    assert(body@.skip(0) =~= body@);
    while pos < n
        invariant
            sv@ == body@,
            n == body@.len(),
            pos <= n,
            first_with_prefix(lines_of(body@), "data:"@) == first_with_prefix(
                lines_of(body@.skip(pos as int)),
                "data:"@,
            ),
        decreases n - pos,
    {
        let j = next_newline(&sv, pos);
        let ghost rest = body@.skip(pos as int);
        let end = if j < n && j > pos && sv[j - 1] == '\r' {
            j - 1
        } else {
            j
        };
        let line = body.substring_char(pos, end);
        proof {
            if j < n {
                assert(rest.take(j - pos) =~= body@.subrange(pos as int, j as int));
                assert(rest.skip(j - pos + 1) =~= body@.skip(j + 1));
                assert(lines_of(rest) == seq![strip_cr(rest.take(j - pos))] + lines_of(
                    rest.skip(j - pos + 1),
                ));
                if j > pos && sv@[j - 1] == '\r' {
                    assert(strip_cr(rest.take(j - pos)) =~= body@.subrange(pos as int, end as int));
                } else {
                    assert(strip_cr(rest.take(j - pos)) =~= body@.subrange(pos as int, end as int));
                }
            } else {
                assert(rest =~= body@.subrange(pos as int, end as int));
                assert(lines_of(rest) == seq![rest]);
            }
        }
        if starts_with(line, "data:") {
            let d = trim(trim_start_matches(line, "data:").as_str());
            return Ok(d);
        }
        proof {
            if j < n {
                let ls = seq![strip_cr(rest.take(j - pos))] + lines_of(rest.skip(j - pos + 1));
                assert(ls.drop_first() =~= lines_of(body@.skip(j + 1)));
            } else {
                assert(seq![rest].drop_first() =~= Seq::<Seq<char>>::empty());
            }
        }
        if j == n {
            assert(first_with_prefix(lines_of(body@), "data:"@) is None) by {
                assert(lines_of(rest) == seq![rest]);
                assert(!has_prefix(rest, "data:"@));
                assert(first_with_prefix(seq![rest].drop_first(), "data:"@) is None);
            }
            return Err(AppError::Protocol(String::from_str("No data line in SSE response")));
        }
        pos = j + 1;
    }
    assert(body@.skip(pos as int).len() == 0);
    Err(AppError::Protocol(String::from_str("No data line in SSE response")))
}

} // verus!
