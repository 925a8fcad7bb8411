//! What the Canvas HTTP client decides: request URLs, the CSRF header, the
//! `Link` header's next page, and when a 401 calls for a fresh login.

use vstd::prelude::*;

use crate::session::Session;
use crate::strs::{contains_seq, find_char_seq, spec_trim, split_char};

verus! {

/// A single page of paginated results.
#[derive(Debug, Clone)]
pub struct PaginatedResponse<T> {
    pub items: Vec<T>,
    /// The URL of the next page, from the `Link` header.
    pub next_url: Option<String>,
}

/// The URL a request goes to: absolute URLs as they are, paths appended to
/// the session's base URL.
pub open spec fn request_url(base: Seq<char>, path: Seq<char>) -> Seq<char> {
    if "http"@.is_prefix_of(path) {
        path
    } else {
        base + path
    }
}

/// The URL for `path` under the session's base URL.
pub fn build_url(session: &Session, path: &str) -> (r: String)
    ensures
        r@ == request_url(session.base_url@, path@),
{
    let p = crate::strs::chars_of(path);
    let http = crate::strs::chars_of("http");
    if crate::strs::starts_with_chars(&p, &http) {
        crate::strs::owned(path)
    } else {
        let mut s = session.base_url.clone();
        crate::strs::push_str(&mut s, path);
        s
    }
}

/// The value of the `X-CSRF-Token` header: the `_csrf_token` cookie,
/// percent-decoded (as it is when decoding fails).
pub fn csrf_token(session: &Session) -> (r: Option<String>)
    ensures
        match r {
            Some(t) => exists|i: int|
                0 <= i < session.cookies@.len() && session.cookies@[i].0@ == "_csrf_token"@
                    && t@ == crate::saml::decoded(session.cookies@[i].1@),
            None => forall|i: int|
                0 <= i < session.cookies@.len() ==> session.cookies@[i].0@ != "_csrf_token"@,
        },
{
    match session.cookie("_csrf_token") {
        Some(raw) => match crate::saml::url_decode(raw.as_str()) {
            Some(d) => Some(d),
            None => Some(raw),
        },
        None => None,
    }
}

/// The `rel="next"` URL of a `Link` header: in the first comma-separated
/// part (trimmed) that mentions `rel="next"`, the text between its first
/// `<` and first `>`; nothing when that part lacks either.
pub open spec fn link_next(link: Seq<char>) -> Option<Seq<char>> {
    link_next_in(split_char(link, ','))
}

/// `link_next` over the parts of the header, first to last.
pub open spec fn link_next_in(parts: Seq<Seq<char>>) -> Option<Seq<char>>
    decreases parts.len(),
{
    if parts.len() == 0 {
        None
    } else {
        let part = spec_trim(parts[0]);
        if contains_seq(part, "rel=\"next\""@) {
            match (find_char_seq(part, '<'), find_char_seq(part, '>')) {
                (Some(a), Some(b)) => Some(part.subrange(a + 1, b)),
                _ => None,
            }
        } else {
            link_next_in(parts.drop_first())
        }
    }
}

/// The first part naming the next page has its first `<` before its first
/// `>` (slicing it would fail otherwise); later parts are never read.
pub open spec fn link_well_formed(link: Seq<char>) -> bool {
    link_well_formed_in(split_char(link, ','))
}

/// `link_well_formed` over the parts of the header, first to last.
pub open spec fn link_well_formed_in(parts: Seq<Seq<char>>) -> bool
    decreases parts.len(),
{
    if parts.len() == 0 {
        true
    } else {
        let part = spec_trim(parts[0]);
        if contains_seq(part, "rel=\"next\""@) {
            match (find_char_seq(part, '<'), find_char_seq(part, '>')) {
                (Some(a), Some(b)) => a + 1 <= b,
                _ => true,
            }
        } else {
            link_well_formed_in(parts.drop_first())
        }
    }
}

/// The next page's URL from a `Link` header value.
pub fn parse_link_next(link: &str) -> (r: Option<String>)
    requires
        link_well_formed(link@),
    ensures
        match r {
            Some(u) => link_next(link@) == Some(u@),
            None => link_next(link@) is None,
        },
{
    let v = crate::strs::chars_of(link);
    let parts = crate::saml::split_all(&v, ',');
    let ghost pv = parts@.map_values(|p: Vec<char>| p@);
    let pat = crate::strs::chars_of("rel=\"next\"");
    let mut i: usize = 0;
    assert(pv.skip(0) =~= pv);
    while i < parts.len()
        invariant
            i <= parts.len(),
            pv == parts@.map_values(|p: Vec<char>| p@),
            pv == split_char(link@, ','),
            link_well_formed_in(pv.skip(i as int)),
            pat@ == "rel=\"next\""@,
            link_next_in(pv) == link_next_in(pv.skip(i as int)),
        decreases parts.len() - i,
    {
        assert(pv.skip(i as int).drop_first() =~= pv.skip(i + 1));
        assert(pv.skip(i as int)[0] == pv[i as int]);
        let part = crate::strs::trim_chars(&parts[i]);
        if crate::strs::contains_chars(&part, &pat) {
            let a = crate::strs::find_char(&part, '<');
            let b = crate::strs::find_char(&part, '>');
            match (a, b) {
                (Some(a), Some(b)) => {
                    assert(a + 1 <= b);
                    let s = crate::strs::string_of_range(&part, a + 1, b);
                    return Some(s);
                },
                _ => {
                    return None;
                },
            }
        }
        i = i + 1;
    }
    assert(pv.skip(parts.len() as int) =~= Seq::<Seq<char>>::empty());
    None
}

/// A failed request was refused as unauthorized (HTTP 401).
pub fn is_unauthorized(status: Option<u16>) -> (r: bool)
    ensures
        r == (status == Some(401u16)),
{
    match status {
        Some(s) => s == 401,
        None => false,
    }
}

/// The session a client holds, with a counter of successful re-logins so
/// that concurrent 401s re-login once.
#[derive(Debug, Clone)]
pub struct SessionState {
    pub session: Option<Session>,
    pub gen: u64,
}

impl SessionState {
    /// A caller that saw generation `observed` and got a 401 must log in
    /// again, unless someone else already did (a newer generation with a
    /// session).
    pub fn needs_relogin(&self, observed: u64) -> (r: bool)
        ensures
            r == relogin_needed(self.gen, self.session is Some, observed),
    {
        !(self.gen > observed && self.session.is_some())
    }

    /// Install the session of a successful re-login.
    pub fn install(&mut self, s: Session)
        ensures
            final(self).session == Some(s),
            final(self).gen == next_gen(old(self).gen),
    {
        self.session = Some(s);
        self.gen = if self.gen == u64::MAX {
            u64::MAX
        } else {
            self.gen + 1
        };
    }
}

impl SessionState {
    /// The session and generation a request starts from; `None` when no
    /// session exists yet, so the request must first log in (as after a 401
    /// seen at generation 0).
    pub fn snapshot(&self) -> (r: Option<(&Session, u64)>)
        ensures
            match self.session {
                Some(s) => r == Some((&s, self.gen)),
                None => r is None,
            },
    {
        match &self.session {
            Some(s) => Some((s, self.gen)),
            None => None,
        }
    }
}

/// The client state a command starts from: the session saved on disk, if
/// one could be read, and no re-login yet. The first authenticated request
/// logs in with the saved credentials when no session was found.
pub fn get_client(saved: Option<Session>) -> (c: SessionState)
    ensures
        c.session == saved,
        c.gen == 0,
{
    SessionState { session: saved, gen: 0 }
}

/// How a request that was sent came back.
#[derive(Debug, Clone, Copy, PartialEq, Eq, Structural)]
pub enum Reply {
    Success,
    /// HTTP 401.
    Unauthorized,
    /// Any other failure.
    Failed,
}

/// Which sending of a request this is.
#[derive(Debug, Clone, Copy, PartialEq, Eq, Structural)]
pub enum Attempt {
    First,
    /// The one retry after a re-login.
    Retry,
}

/// What a client does with a request after a reply.
#[derive(Debug, Clone, Copy, PartialEq, Eq, Structural)]
pub enum RequestStep {
    /// Hand the reply to the caller.
    Finish,
    /// Log in again unless someone re-logged in after this generation, then
    /// send the request once more.
    ReloginAndRetry(u64),
}

/// The step after `reply` to the `attempt` of a request sent with the
/// session of generation `gen`: only a 401 on the first sending leads to a
/// re-login and one retry.
pub open spec fn step_after(attempt: Attempt, reply: Reply, gen: u64) -> RequestStep {
    if attempt == Attempt::First && reply == Reply::Unauthorized {
        RequestStep::ReloginAndRetry(gen)
    } else {
        RequestStep::Finish
    }
}

/// What to do after a reply (see `step_after`): the common course of every
/// GET, POST, PUT, PATCH and DELETE of the client.
pub fn next_step(attempt: Attempt, reply: Reply, gen: u64) -> (s: RequestStep)
    ensures
        s == step_after(attempt, reply, gen),
{
    match (attempt, reply) {
        (Attempt::First, Reply::Unauthorized) => RequestStep::ReloginAndRetry(gen),
        _ => RequestStep::Finish,
    }
}

/// A request is sent at most twice: whatever the retry gets back goes to the
/// caller, and a first reply other than a 401 goes to the caller at once.
pub proof fn law_at_most_one_retry(reply: Reply, gen: u64)
    ensures
        step_after(Attempt::Retry, reply, gen) == RequestStep::Finish,
        reply != Reply::Unauthorized ==> step_after(Attempt::First, reply, gen)
            == RequestStep::Finish,
{
}

/// Whether a caller that saw generation `observed` must log in again.
pub open spec fn relogin_needed(gen: u64, has_session: bool, observed: u64) -> bool {
    !(gen > observed && has_session)
}

/// The generation after a successful re-login (saturating).
pub open spec fn next_gen(gen: u64) -> u64 {
    if gen == u64::MAX {
        u64::MAX
    } else {
        (gen + 1) as u64
    }
}

/// Single flight: once one caller has re-logged in after seeing generation
/// `g`, every other caller that saw `g` finds no re-login needed; a caller
/// that saw the new generation would log in again on its own 401.
pub proof fn law_single_relogin(g: u64)
    requires
        g < u64::MAX,
    ensures
        !relogin_needed(next_gen(g), true, g),
        relogin_needed(next_gen(g), true, next_gen(g)),
        relogin_needed(g, false, g),
{
}


/// The items of a paginated listing gathered page after page: every page is
/// fetched in turn until one names no next page; a page that fails ends the
/// listing with what was gathered so far.
#[derive(Debug)]
pub struct PageCollector<T> {
    pub items: Vec<T>,
    /// The page to fetch next; `None` once the listing is complete.
    pub next_url: Option<String>,
}

impl<T> PageCollector<T> {
    /// Start from the first page.
    pub fn start(first: PaginatedResponse<T>) -> (c: PageCollector<T>)
        ensures
            c.items@ == first.items@,
            c.next_url == first.next_url,
    {
        PageCollector { items: first.items, next_url: first.next_url }
    }

    /// Take in the answer to the request for `next_url`: a page adds its
    /// items after those gathered and names the next page; a failure stops
    /// the listing.
    pub fn page_received<E>(&mut self, page: Result<PaginatedResponse<T>, E>)
        ensures
            match page {
                Ok(p) => {
                    &&& final(self).items@ == old(self).items@ + p.items@
                    &&& final(self).next_url == p.next_url
                },
                Err(_) => {
                    &&& final(self).items@ == old(self).items@
                    &&& final(self).next_url is None
                },
            },
    {
        match page {
            Ok(p) => {
                let mut more = p.items;
                self.items.append(&mut more);
                self.next_url = p.next_url;
            },
            Err(_) => {
                self.next_url = None;
            },
        }
    }
}

} // verus!

verus! {

/// `link_next_in` over the parts: the URL comes from the first part that
/// names the next page, between that part's first `<` and first `>`; no part
/// naming the next page gives no URL.
proof fn lemma_link_next_in(parts: Seq<Seq<char>>)
    ensures
        (forall|k: int| 0 <= k < parts.len() ==> !contains_seq(spec_trim(#[trigger] parts[k]), "rel=\"next\""@))
            ==> link_next_in(parts) is None,
        link_next_in(parts) is Some ==> exists|k: int|
            0 <= k < parts.len() && contains_seq(spec_trim(#[trigger] parts[k]), "rel=\"next\""@) && (forall|j: int|
                0 <= j < k ==> !contains_seq(spec_trim(#[trigger] parts[j]), "rel=\"next\""@)) && (find_char_seq(
                spec_trim(parts[k]),
                '<',
            ) matches Some(a) && find_char_seq(spec_trim(parts[k]), '>') matches Some(b)
                && link_next_in(parts)->0 == spec_trim(parts[k]).subrange(a + 1, b)),
    decreases parts.len(),
{
    if parts.len() > 0 {
        let rest = parts.drop_first();
        lemma_link_next_in(rest);
        if !contains_seq(spec_trim(parts[0]), "rel=\"next\""@) {
            assert forall|k: int| 0 <= k < rest.len() implies rest[k] == parts[k + 1] by {}
            if link_next_in(parts) is Some {
                let k = choose|k: int|
                    0 <= k < rest.len() && contains_seq(spec_trim(#[trigger] rest[k]), "rel=\"next\""@) && (forall|j: int|
                        0 <= j < k ==> !contains_seq(spec_trim(#[trigger] rest[j]), "rel=\"next\""@)) && (find_char_seq(
                        spec_trim(rest[k]),
                        '<',
                    ) matches Some(a) && find_char_seq(spec_trim(rest[k]), '>') matches Some(b)
                        && link_next_in(rest)->0 == spec_trim(rest[k]).subrange(a + 1, b));
                assert(parts[k + 1] == rest[k]);
                assert forall|j: int| 0 <= j < k + 1 implies !contains_seq(
                    spec_trim(#[trigger] parts[j]),
                    "rel=\"next\""@,
                ) by {
                    if j > 0 {
                        assert(parts[j] == rest[j - 1]);
                    }
                }
            }
            if forall|k: int| 0 <= k < parts.len() ==> !contains_seq(spec_trim(#[trigger] parts[k]), "rel=\"next\""@) {
                assert forall|k: int| 0 <= k < rest.len() implies !contains_seq(
                    spec_trim(#[trigger] rest[k]),
                    "rel=\"next\""@,
                ) by {
                    assert(rest[k] == parts[k + 1]);
                }
            }
        }
    }
}

/// Pagination follows only a `rel="next"` link: the next page's URL is
/// taken from the first comma-separated part of the `Link` header that names
/// the next page, between its first `<` and first `>`; a header with no such
/// part (as on the last page, whatever `prev`, `first` or `last` links it
/// has) gives no next page.
pub proof fn law_link_next_only_from_next(link: Seq<char>)
    ensures
        (forall|k: int|
            0 <= k < split_char(link, ',').len() ==> !contains_seq(
                spec_trim(#[trigger] split_char(link, ',')[k]),
                "rel=\"next\""@,
            )) ==> link_next(link) is None,
        link_next(link) is Some ==> exists|k: int|
            0 <= k < split_char(link, ',').len() && contains_seq(
                spec_trim(#[trigger] split_char(link, ',')[k]),
                "rel=\"next\""@,
            ) && (forall|j: int|
                0 <= j < k ==> !contains_seq(spec_trim(#[trigger] split_char(link, ',')[j]), "rel=\"next\""@))
                && (find_char_seq(spec_trim(split_char(link, ',')[k]), '<') matches Some(a) && find_char_seq(
                spec_trim(split_char(link, ',')[k]),
                '>',
            ) matches Some(b) && link_next(link)->0 == spec_trim(split_char(link, ',')[k]).subrange(
                a + 1,
                b,
            )),
{
    lemma_link_next_in(split_char(link, ','));
}

} // verus!
