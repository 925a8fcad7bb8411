//! The saved Canvas session: cookies from a SAML login, with the time it was
//! created, and what the HTTP client derives from it.

use vstd::prelude::*;

use crate::assignments::{ts_valid, Timestamp};
use crate::error::Error;
use crate::paths::{join2, XdgDirs};
use crate::tui_app::{hours_until, trunc_div};

verus! {

/// Hours after which a session is treated as expired: NTU COOL's SAML
/// logins last about a day.
pub const SESSION_HARD_TTL_HOURS: i64 = 24;

/// The format version written to `session.json`.
pub const SESSION_VERSION: u32 = 1;

/// A Canvas session.
#[derive(Debug, Clone)]
pub struct Session {
    pub version: u32,
    pub created_at: Timestamp,
    pub base_url: String,
    /// Cookie name and value; no name occurs twice.
    pub cookies: Vec<(String, String)>,
}

/// The plain content of a cookie list.
pub open spec fn cookies_view(c: Seq<(String, String)>) -> Seq<(Seq<char>, Seq<char>)> {
    c.map_values(|p: (String, String)| (p.0@, p.1@))
}

/// The `Cookie` header: `name=value` pairs joined by `; `.
pub open spec fn cookie_header_text(c: Seq<(Seq<char>, Seq<char>)>) -> Seq<char> {
    crate::strs::join_seqs(c.map_values(|p: (Seq<char>, Seq<char>)| p.0 + "="@ + p.1), "; "@)
}

/// The total nanoseconds from `a` to `b`.
pub open spec fn nanos_between(a: Timestamp, b: Timestamp) -> int {
    (b.secs - a.secs) * 1_000_000_000 + (b.nanos - a.nanos)
}

impl Session {
    /// A session created at `now` for `base_url` with these cookies.
    pub fn new(base_url: String, cookies: Vec<(String, String)>, now: Timestamp) -> (r: Session)
        ensures
            r.version == SESSION_VERSION,
            r.created_at == now,
            r.base_url@ == base_url@,
            r.cookies@ == cookies@,
    {
        Session { version: SESSION_VERSION, created_at: now, base_url, cookies }
    }

    /// `$XDG_DATA_HOME/ntucool/session.json`.
    pub fn default_path(dirs: &XdgDirs) -> (r: String)
        ensures
            r@ == join2(dirs.data_home@, "ntucool"@, "session.json"@),
    {
        crate::paths::session_path(dirs)
    }

    /// Whole hours since the session was created, as `chrono` counts them.
    pub fn age_hours(&self, now: Timestamp) -> (r: i64)
        requires
            ts_valid(now),
            ts_valid(self.created_at),
        ensures
            r == hours_until(now, self.created_at),
    {
        crate::tui_app::hours_left(now, self.created_at)
    }

    /// More than 24 hours have passed since the session was created.
    pub fn is_likely_expired(&self, now: Timestamp) -> (r: bool)
        requires
            ts_valid(now),
            ts_valid(self.created_at),
        ensures
            r == (nanos_between(self.created_at, now) > SESSION_HARD_TTL_HOURS * 3600 * 1_000_000_000),
    {
        let ds: i64 = now.secs - self.created_at.secs;
        let limit: i64 = SESSION_HARD_TTL_HOURS * 3600;
        let r = ds > limit || (ds == limit && now.nanos > self.created_at.nanos);
        proof {
            let dn: int = now.nanos - self.created_at.nanos;
            let n = nanos_between(self.created_at, now);
            assert(n == ds * 1_000_000_000 + dn);
            assert(-1_000_000_000 < dn < 1_000_000_000);
            assert(r == (n > limit * 1_000_000_000)) by (nonlinear_arith)
                requires
                    n == ds * 1_000_000_000 + dn,
                    -1_000_000_000 < dn < 1_000_000_000,
                    r == (ds > limit || (ds == limit && dn > 0)),
            {
            }
        }
        r
    }

    /// The `Cookie` header sent with every request.
    pub fn cookie_header(&self) -> (r: String)
        ensures
            r@ == cookie_header_text(cookies_view(self.cookies@)),
    {
        let mut parts: Vec<String> = Vec::new();
        let mut i: usize = 0;
        while i < self.cookies.len()
            invariant
                i <= self.cookies.len(),
                crate::assignments::strs_view(parts@) == cookies_view(self.cookies@).take(i as int).map_values(
                    |p: (Seq<char>, Seq<char>)| p.0 + "="@ + p.1,
                ),
            decreases self.cookies.len() - i,
        {
            let mut kv = self.cookies[i].0.clone();
            crate::strs::push_str(&mut kv, "=");
            crate::strs::push_str(&mut kv, self.cookies[i].1.as_str());
            let ghost before = crate::assignments::strs_view(parts@);
            parts.push(kv);
            proof {
                let cv = cookies_view(self.cookies@);
                assert(cv.take(i + 1) =~= cv.take(i as int).push(cv[i as int]));
                assert(crate::assignments::strs_view(parts@) =~= before.push(cv[i as int].0 + "="@ + cv[i as int].1));
            }
            i = i + 1;
        }
        assert(cookies_view(self.cookies@).take(self.cookies.len() as int) =~= cookies_view(self.cookies@));
        crate::strs::join_strings(&parts, "; ")
    }

    /// The value of cookie `name`, if set.
    pub fn cookie(&self, name: &str) -> (r: Option<String>)
        ensures
            match r {
                Some(v) => exists|i: int|
                    0 <= i < self.cookies@.len() && self.cookies@[i].0@ == name@ && self.cookies@[i].1@
                        == v@,
                None => forall|i: int| 0 <= i < self.cookies@.len() ==> self.cookies@[i].0@ != name@,
            },
    {
        let mut i: usize = 0;
        while i < self.cookies.len()
            invariant
                i <= self.cookies.len(),
                forall|k: int| 0 <= k < i ==> self.cookies@[k].0@ != name@,
            decreases self.cookies.len() - i,
        {
            if crate::strs::str_eq(self.cookies[i].0.as_str(), name) {
                return Some(self.cookies[i].1.clone());
            }
            i = i + 1;
        }
        None
    }
}

/// What reading and parsing `session.json` gave.
#[derive(Debug, Clone)]
pub enum SessionRead {
    /// The file could not be read; the system's message.
    Unreadable(String),
    /// Not valid session JSON; the parser's message.
    Malformed(String),
    /// The parsed session.
    Parsed(Session),
}

/// The session from what reading `session.json` gave: both failures are
/// `SessionLoad` with their message.
pub fn load_session(read: SessionRead) -> (r: Result<Session, Error>)
    ensures
        match read {
            SessionRead::Unreadable(m) => r matches Err(Error::SessionLoad(x)) && x@ == m@,
            SessionRead::Malformed(m) => r matches Err(Error::SessionLoad(x)) && x@ == m@,
            SessionRead::Parsed(s) => r matches Ok(t) && t.created_at == s.created_at && t.base_url
                == s.base_url && t.cookies == s.cookies && t.version == s.version,
        },
{
    match read {
        SessionRead::Unreadable(m) => Err(Error::SessionLoad(m)),
        SessionRead::Malformed(m) => Err(Error::SessionLoad(m)),
        SessionRead::Parsed(s) => Ok(s),
    }
}

/// A session is "likely expired" exactly when more than 24 hours separate
/// its creation from now; a session checked at its creation is not.
pub proof fn law_fresh_session_not_expired(created: Timestamp)
    ensures
        !(nanos_between(created, created) > SESSION_HARD_TTL_HOURS * 3600 * 1_000_000_000),
{
}

} // verus!
