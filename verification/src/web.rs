//! The decisions of the embedded web server: which page or action a request
//! path names, the query-string lookups, the severity numbers of the JSON API,
//! and the public URL a `cloudflared` quick tunnel prints.

use crate::model::{level, InboxView, Severity};
use crate::state::{all_read, id_index, lemma_id_index, marked, same_but_mailbox, AppState};
use crate::text::{
    chars_of, find_chars, first_occurrence, lemma_first_occurrence, occurs_at, parse_u64,
    seq_contains, seq_ends_with, seq_starts_with, str_eq, u64_text,
};
use vstd::prelude::*;

verus! {

/// The severity as a number for the JSON API (0 = Clear … 3 = Emergency).
pub fn sev_num(s: Severity) -> (res: u8)
    ensures
        res == level(s),
{
    match s {
        Severity::Clear => 0,
        Severity::Advisory => 1,
        Severity::Warning => 2,
        Severity::Emergency => 3,
    }
}

/// The public URL in a line of `cloudflared` output: from the first
/// `https://` through the first `.trycloudflare.com` after it.
pub open spec fn tunnel_url(line: Seq<char>) -> Option<Seq<char>> {
    match first_occurrence(line, "https://"@) {
        Some(s) => {
            let rest = line.skip(s);
            match first_occurrence(rest, ".trycloudflare.com"@) {
                Some(e) => Some(rest.take(e + ".trycloudflare.com"@.len())),
                None => None,
            }
        },
        None => None,
    }
}

/// The public URL a `cloudflared` quick tunnel prints, if this line has one.
pub fn find_tunnel_url(line: &str) -> (res: Option<String>)
    ensures
        match res {
            Some(u) => tunnel_url(line@) == Some(u@),
            None => tunnel_url(line@) is None,
        },
{
    let v = chars_of(line);
    let scheme = chars_of("https://");
    proof {
        lemma_first_occurrence(v@, scheme@);
    }
    let start = match find_chars(&v, &scheme) {
        Some(s) => s,
        None => return None,
    };
    let rest = line.substring_char(start, v.len());
    let r = chars_of(rest);
    let host = chars_of(".trycloudflare.com");
    proof {
        lemma_first_occurrence(r@, host@);
    }
    let e = match find_chars(&r, &host) {
        Some(e) => e,
        None => return None,
    };
    assert(occurs_at(r@, host@, e as int));
    let end = e + host.len();
    assert(rest@ =~= line@.skip(start as int));
    let url = rest.substring_char(0, end).to_owned();
    assert(url@ =~= line@.skip(start as int).take(end as int));
    Some(url)
}

/// A URL split at its first `?` into path and query (empty without one).
pub open spec fn url_parts(url: Seq<char>) -> (Seq<char>, Seq<char>) {
    match first_occurrence(url, seq!['?']) {
        Some(i) => (url.take(i), url.skip(i + 1)),
        None => (url, Seq::empty()),
    }
}

/// Splits a request URL into its path and its query string.
pub fn split_url(url: &str) -> (res: (String, String))
    ensures
        (res.0@, res.1@) == url_parts(url@),
{
    let v = chars_of(url);
    let q = chars_of("?");
    proof {
        reveal_strlit("?");
        assert(q@ =~= seq!['?']);
        lemma_first_occurrence(v@, q@);
    }
    match find_chars(&v, &q) {
        Some(i) => {
            assert(occurs_at(v@, q@, i as int));
            assert(q@.len() == 1);
            assert(i < v.len());
            let path = url.substring_char(0, i).to_owned();
            let query = url.substring_char(i + 1, v.len()).to_owned();
            assert(path@ =~= url@.take(i as int));
            assert(query@ =~= url@.skip(i + 1));
            (path, query)
        },
        None => (url.to_owned(), String::new()),
    }
}

/// The `&`-separated segments of a query string (`str::split('&')`).
pub open spec fn segments(q: Seq<char>) -> Seq<Seq<char>>
    decreases q.len(),
{
    match first_occurrence(q, seq!['&']) {
        Some(i) => if 0 <= i < q.len() {
            seq![q.take(i)] + segments(q.skip(i + 1))
        } else {
            seq![q]
        },
        None => seq![q],
    }
}

/// The value of the first segment `key=value` whose key is `key`; segments
/// without `=` are passed over.
pub open spec fn param_in(segs: Seq<Seq<char>>, key: Seq<char>) -> Option<Seq<char>>
    decreases segs.len(),
{
    if segs.len() == 0 {
        None
    } else {
        let kv = segs[0];
        match first_occurrence(kv, seq!['=']) {
            Some(i) => if kv.take(i) == key {
                Some(kv.skip(i + 1))
            } else {
                param_in(segs.drop_first(), key)
            },
            None => param_in(segs.drop_first(), key),
        }
    }
}

/// The value of `key` in a query string.
pub open spec fn query_param(query: Seq<char>, key: Seq<char>) -> Option<Seq<char>> {
    param_in(segments(query), key)
}

/// The value of `key` in a query string `a=1&b=2`.
pub fn param(query: &str, key: &str) -> (res: Option<String>)
    ensures
        match res {
            Some(v) => query_param(query@, key@) == Some(v@),
            None => query_param(query@, key@) is None,
        },
{
    let amp = chars_of("&");
    let eq = chars_of("=");
    proof {
        reveal_strlit("&");
        reveal_strlit("=");
        assert(amp@ =~= seq!['&']);
        assert(eq@ =~= seq!['=']);
    }
    let mut rest = query.to_owned();
    loop
        invariant
            amp@ == seq!['&'],
            eq@ == seq!['='],
            query_param(query@, key@) == param_in(segments(rest@), key@),
        decreases rest@.len(),
    {
        let v = chars_of(rest.as_str());
        proof {
            lemma_first_occurrence(v@, amp@);
        }
        let cut = find_chars(&v, &amp);
        let seg = match cut {
            Some(i) => rest.as_str().substring_char(0, i).to_owned(),
            None => rest.clone(),
        };
        proof {
            match cut {
                Some(i) => {
                    assert(occurs_at(v@, amp@, i as int));
                    assert(seg@ =~= rest@.take(i as int));
                    assert(segments(rest@) == seq![rest@.take(i as int)] + segments(rest@.skip(i + 1)));
                },
                None => {},
            }
            assert(segments(rest@)[0] == seg@);
            assert(segments(rest@).drop_first() == match cut {
                Some(i) => segments(rest@.skip(i + 1)),
                None => Seq::<Seq<char>>::empty(),
            }) by {
                match cut {
                    Some(i) => {
                        assert((seq![rest@.take(i as int)] + segments(rest@.skip(i + 1))).drop_first()
                            =~= segments(rest@.skip(i + 1)));
                    },
                    None => {
                        assert(seq![rest@].drop_first() =~= Seq::<Seq<char>>::empty());
                    },
                }
            }
        }
        let sv = chars_of(seg.as_str());
        proof {
            lemma_first_occurrence(sv@, eq@);
        }
        let eqpos = find_chars(&sv, &eq);
        match eqpos {
            Some(j) => {
                assert(occurs_at(sv@, eq@, j as int));
                assert(eq@.len() == 1);
                assert(j < sv.len());
                let k = seg.as_str().substring_char(0, j);
                assert(k@ =~= seg@.take(j as int));
                if str_eq(k, key) {
                    let val = seg.as_str().substring_char(j + 1, sv.len()).to_owned();
                    assert(val@ =~= seg@.skip(j + 1));
                    return Some(val);
                }
            },
            None => {},
        }
        assert(param_in(segments(rest@), key@) == param_in(segments(rest@).drop_first(), key@));
        match cut {
            Some(i) => {
                assert(occurs_at(v@, amp@, i as int));
                assert(amp@.len() == 1);
                assert(i < v.len());
                let next = rest.as_str().substring_char(i + 1, v.len()).to_owned();
                assert(next@ =~= rest@.skip(i + 1));
                rest = next;
            },
            None => {
                assert(param_in(Seq::<Seq<char>>::empty(), key@) is None);
                return None;
            },
        }
    }
}


/// What a request asks of the server.
#[derive(Clone, Debug, PartialEq, Eq, Structural)]
pub enum Request {
    /// `/`: the public display page.
    DisplayPage,
    /// `/inbox`: the mailbox page.
    MailboxPage,
    /// `/healthz`.
    Health,
    /// `/api/state`: the state as JSON.
    StateApi,
    /// `/api/xml?id=N`: the raw XML of a mailbox item (no id when the
    /// parameter is missing or not a number).
    XmlApi(Option<u64>),
    /// `/api/read?all=true`.
    ReadAll,
    /// `/api/read?id=N[&read=false]`.
    ReadOne(u64, bool),
    /// `/api/read` with neither a usable `all` nor `id`.
    ReadNothing,
    /// Any other path.
    Unknown,
}

/// The numeric value of a query parameter, if it has one.
pub open spec fn number_param(query: Seq<char>, key: Seq<char>) -> Option<u64> {
    match query_param(query, key) {
        Some(v) => u64_text(v),
        None => None,
    }
}

/// The request that a path and query string name.
pub open spec fn request_of(path: Seq<char>, query: Seq<char>) -> Request {
    if path == "/"@ {
        Request::DisplayPage
    } else if path == "/inbox"@ {
        Request::MailboxPage
    } else if path == "/healthz"@ {
        Request::Health
    } else if path == "/api/state"@ {
        Request::StateApi
    } else if path == "/api/xml"@ {
        Request::XmlApi(number_param(query, "id"@))
    } else if path == "/api/read"@ {
        if query_param(query, "all"@) == Some("true"@) {
            Request::ReadAll
        } else {
            match number_param(query, "id"@) {
                Some(id) => Request::ReadOne(id, query_param(query, "read"@) != Some("false"@)),
                None => Request::ReadNothing,
            }
        }
    } else {
        Request::Unknown
    }
}

/// The numeric value of the query parameter `key`.
fn number_param_exec(query: &str, key: &str) -> (res: Option<u64>)
    ensures
        res == number_param(query@, key@),
{
    match param(query, key) {
        Some(v) => parse_u64(v.as_str()),
        None => None,
    }
}

/// Whether the query parameter `key` is present with exactly `value`.
fn param_is(query: &str, key: &str, value: &str) -> (res: bool)
    ensures
        res == (query_param(query@, key@) == Some(value@)),
{
    match param(query, key) {
        Some(v) => str_eq(v.as_str(), value),
        None => false,
    }
}

/// Decides what a request path and query string ask for.
pub fn route(path: &str, query: &str) -> (res: Request)
    ensures
        res == request_of(path@, query@),
{
    if str_eq(path, "/") {
        Request::DisplayPage
    } else if str_eq(path, "/inbox") {
        Request::MailboxPage
    } else if str_eq(path, "/healthz") {
        Request::Health
    } else if str_eq(path, "/api/state") {
        Request::StateApi
    } else if str_eq(path, "/api/xml") {
        Request::XmlApi(number_param_exec(query, "id"))
    } else if str_eq(path, "/api/read") {
        if param_is(query, "all", "true") {
            Request::ReadAll
        } else {
            match number_param_exec(query, "id") {
                Some(id) => Request::ReadOne(id, !param_is(query, "read", "false")),
                None => Request::ReadNothing,
            }
        }
    } else {
        Request::Unknown
    }
}

/// The two HTML pages the server hands out.
#[derive(Clone, Copy, Debug, PartialEq, Eq, Structural)]
pub enum Page {
    Display,
    Mailbox,
}

/// The answer to a request.
#[derive(Clone, Debug)]
pub enum Reply {
    Html(Page),
    /// `text/plain` "ok".
    Text,
    /// The state as JSON.
    StateJson,
    /// A mailbox item's raw XML.
    Xml(String),
    NotFound,
}

/// The XML of the mailbox item with id `id`.
pub open spec fn item_xml(h: Seq<InboxView>, id: u64) -> Option<Seq<char>> {
    match id_index(h, id, 0) {
        Some(i) => Some(h[i].xml),
        None => None,
    }
}

/// The reply a request gets from a state (the mailbox changes are stated
/// on [`respond`]).
pub open spec fn reply_of(h: Seq<InboxView>, req: Request, res: Reply) -> bool {
    match req {
        Request::DisplayPage => res matches Reply::Html(p) && p == Page::Display,
        Request::MailboxPage => res matches Reply::Html(p) && p == Page::Mailbox,
        Request::Health => res is Text,
        Request::StateApi => res is StateJson,
        Request::XmlApi(id) => match id {
            Some(id) => match item_xml(h, id) {
                Some(x) => res matches Reply::Xml(body) && body@ == x,
                None => res is NotFound,
            },
            None => res is NotFound,
        },
        Request::ReadAll => res is Text,
        Request::ReadOne(_, _) => res is Text,
        Request::ReadNothing => res is Text,
        Request::Unknown => res is NotFound,
    }
}

/// Answers one request: the pages and the health check, the state for the
/// JSON API, a mailbox item's XML, or read marks on the mailbox.
pub fn respond(state: &mut AppState, path: &str, query: &str) -> (res: Reply)
    requires
        old(state).inv(),
    ensures
        final(state).inv(),
        reply_of(old(state).hist(), request_of(path@, query@), res),
        same_but_mailbox(*final(state), *old(state)),
        match request_of(path@, query@) {
            Request::ReadAll => final(state).hist() == all_read(old(state).hist()),
            Request::ReadOne(id, read) => final(state).hist() == marked(old(state).hist(), id, read),
            _ => *final(state) == *old(state),
        },
{
    let req = route(path, query);
    match req {
        Request::DisplayPage => Reply::Html(Page::Display),
        Request::MailboxPage => Reply::Html(Page::Mailbox),
        Request::Health => Reply::Text,
        Request::StateApi => Reply::StateJson,
        Request::XmlApi(id) => match id {
            Some(id) => {
                proof {
                    if let Some(i) = id_index(state.hist(), id, 0) {
                        lemma_id_index(state.hist(), id, 0);
                    }
                }
                match state.item(id) {
                    Some(it) => Reply::Xml(it.xml.clone()),
                    None => Reply::NotFound,
                }
            },
            None => Reply::NotFound,
        },
        Request::ReadAll => {
            state.mark_all_read();
            Reply::Text
        },
        Request::ReadOne(id, read) => {
            state.mark_read(id, read);
            Reply::Text
        },
        Request::ReadNothing => Reply::Text,
        Request::Unknown => Reply::NotFound,
    }
}


/// The public URL found in a `cloudflared` line is a piece of that line that
/// starts with `https://` and ends with `.trycloudflare.com`.
pub proof fn law_tunnel_url_shape(line: Seq<char>)
    ensures
        tunnel_url(line) matches Some(u) ==> seq_starts_with(u, "https://"@) && seq_ends_with(
            u,
            ".trycloudflare.com"@,
        ) && seq_contains(line, u),
{
    reveal_strlit("https://");
    reveal_strlit(".trycloudflare.com");
    lemma_first_occurrence(line, "https://"@);
    if let Some(st) = first_occurrence(line, "https://"@) {
        let rest = line.skip(st);
        let host = ".trycloudflare.com"@;
        lemma_first_occurrence(rest, host);
        if let Some(e) = first_occurrence(rest, host) {
            let u = rest.take(e + host.len());
            assert(u.subrange(0, "https://"@.len() as int) =~= line.subrange(
                st,
                st + "https://"@.len(),
            ));
            assert(u.subrange(u.len() - host.len(), u.len() as int) =~= rest.subrange(
                e,
                e + host.len(),
            ));
            assert(line.subrange(st, st + u.len()) =~= u);
            assert(occurs_at(line, u, st));
        }
    }
}

/// A URL is its path, then `?` and its query when it has a `?`; the path
/// holds no `?`.
pub proof fn law_url_parts_rejoin(url: Seq<char>)
    ensures
        !seq_contains(url_parts(url).0, seq!['?']),
        seq_contains(url, seq!['?']) ==> url_parts(url).0 + seq!['?'] + url_parts(url).1 == url,
        !seq_contains(url, seq!['?']) ==> url_parts(url).0 == url && url_parts(url).1.len() == 0,
{
    lemma_first_occurrence(url, seq!['?']);
    if let Some(i) = first_occurrence(url, seq!['?']) {
        let p = url.take(i);
        assert(url.subrange(i, i + 1) =~= seq!['?']);
        assert(p + seq!['?'] + url.skip(i + 1) =~= url);
        assert forall|j: int| !occurs_at(p, seq!['?'], j) by {
            if occurs_at(p, seq!['?'], j) {
                assert(p.subrange(j, j + 1) =~= url.subrange(j, j + 1));
                assert(occurs_at(url, seq!['?'], j));
            }
        }
    }
}

} // verus!
