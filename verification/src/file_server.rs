//! Publishing cached files to the MCP client without ever exposing the
//! server's cache paths.
//!
//! Two modes: stdio copies the bytes into a separate output directory and
//! hands out a `file://` URI; http mints an opaque, time-limited token and
//! hands out `<public_base>/files/<token>`. The copying and serving are done
//! around this module; the naming, the token registry and its expiry rules
//! are here.

use rand::Rng;
use vstd::prelude::*;

use crate::assignments::{spec_rfc3339, ts_before, ts_valid, Timestamp};
use crate::types::FilesFetchResult;

verus! {

/// A file in the server's download cache.
#[derive(Debug, Clone)]
pub struct CachedFile {
    pub file_id: i64,
    pub display_name: String,
    pub mime_type: Option<String>,
    pub size_bytes: i64,
    /// Where the bytes are cached; never shown to the client.
    pub path: String,
    /// Canvas `updated_at` as Unix seconds, the cache key's second half.
    pub updated_at_unix: i64,
}

/// A span of time, as `std::time::Duration` holds it.
#[derive(Debug, Clone, Copy, PartialEq, Eq, Structural)]
pub struct Ttl {
    pub secs: u64,
    pub nanos: u32,
}

impl Ttl {
    /// Whole seconds.
    pub fn as_secs(&self) -> (r: u64)
        ensures
            r == self.secs,
    {
        self.secs
    }
}

/// `a` comes strictly after `b`.
pub open spec fn later(a: Timestamp, b: Timestamp) -> bool {
    ts_before(b, a)
}

/// `now + ttl`, with the nanoseconds carried.
pub open spec fn add_ttl(now: Timestamp, ttl: Ttl) -> Timestamp {
    let n = now.nanos + ttl.nanos;
    if n >= 1_000_000_000 {
        Timestamp { secs: (now.secs + ttl.secs + 1) as i64, nanos: (n - 1_000_000_000) as u32 }
    } else {
        Timestamp { secs: (now.secs + ttl.secs) as i64, nanos: n as u32 }
    }
}

/// `now + ttl` stays inside the range that can be rendered.
pub open spec fn ttl_fits(now: Timestamp, ttl: Ttl) -> bool {
    ts_valid(now) && ttl.nanos < 1_000_000_000 && now.secs + ttl.secs + 1 <= 8_000_000_000_000
}

fn add_ttl_exec(now: Timestamp, ttl: Ttl) -> (r: Timestamp)
    requires
        ttl_fits(now, ttl),
    ensures
        r == add_ttl(now, ttl),
        ts_valid(r),
        later(r, now) || (ttl.secs == 0 && ttl.nanos == 0),
{
    let n: u32 = now.nanos + ttl.nanos;
    let s: i64 = now.secs + (ttl.secs as i64);
    if n >= 1_000_000_000 {
        Timestamp { secs: s + 1, nanos: n - 1_000_000_000 }
    } else {
        Timestamp { secs: s, nanos: n }
    }
}

fn is_later(a: Timestamp, b: Timestamp) -> (r: bool)
    ensures
        r == later(a, b),
{
    crate::assignments::is_before(b, a)
}

// ───────────────────────────── stdio mode ─────────────────────────────

/// Copies cached files into `output_dir/<file_id>/<name>`.
#[derive(Debug, Clone)]
pub struct StdioPublisher {
    output_dir: String,
}

impl StdioPublisher {
    /// The output directory.
    pub closed spec fn dir(self) -> Seq<char> {
        self.output_dir@
    }

    /// A publisher writing under `output_dir` (which the caller creates).
    pub fn new(output_dir: String) -> (r: StdioPublisher)
        ensures
            r.dir() == output_dir@,
    {
        StdioPublisher { output_dir }
    }

    /// The directory published files are copied into.
    pub fn output_dir(&self) -> (r: &str)
        ensures
            r@ == self.dir(),
    {
        self.output_dir.as_str()
    }

    /// The directory for one file: `output_dir/<file_id>`.
    pub fn id_dir(&self, file_id: i64) -> (r: String)
        ensures
            r@ == crate::config::spec_join(self.dir(), crate::num::dec_int(file_id as int)),
    {
        let d = crate::strs::chars_of(self.output_dir.as_str());
        let id = crate::num::i64_to_string(file_id);
        crate::config::join_path(&d, id.as_str())
    }
}

/// `char::is_control`: the Unicode general category Cc.
pub open spec fn is_control(c: char) -> bool {
    (c as u32) <= 0x1f || (0x7f <= (c as u32) && (c as u32) <= 0x9f)
}

/// A character that may not appear in a published file name.
pub open spec fn unsafe_in_name(c: char) -> bool {
    c == '/' || c == '\\' || c == '\0' || is_control(c)
}

/// The published name: each separator, NUL or control character becomes
/// `_`; an empty name becomes `file`.
pub open spec fn sanitized_name(name: Seq<char>) -> Seq<char> {
    if name.len() == 0 {
        "file"@
    } else {
        name.map_values(|c: char| if unsafe_in_name(c) { '_' } else { c })
    }
}

/// Make a display name safe as a single file name.
pub fn sanitize_filename(name: &str) -> (r: String)
    ensures
        r@ == sanitized_name(name@),
{
    let v = crate::strs::chars_of(name);
    if v.len() == 0 {
        return crate::strs::owned("file");
    }
    let mut out = String::new();
    let mut i: usize = 0;
    while i < v.len()
        invariant
            i <= v.len(),
            v@ == name@,
            out@ == v@.take(i as int).map_values(|c: char| if unsafe_in_name(c) { '_' } else { c }),
        decreases v.len() - i,
    {
        let c = v[i];
        let u = c as u32;
        let bad = c == '/' || c == '\\' || c == '\0' || u <= 0x1f || (0x7f <= u && u <= 0x9f);
        let ghost before = out@;
        if bad {
            crate::strs::push_char(&mut out, '_');
        } else {
            crate::strs::push_char(&mut out, c);
        }
        assert(v@.take(i + 1).map_values(|c: char| if unsafe_in_name(c) { '_' } else { c })
            =~= before.push(if unsafe_in_name(c) { '_' } else { c }));
        i = i + 1;
    }
    assert(v@.take(v.len() as int) =~= v@);
    out
}

/// The `file://` URI of an absolute path.
pub fn file_uri(abs_path: &str) -> (r: String)
    ensures
        r@ == "file://"@ + abs_path@,
{
    let mut s = crate::strs::owned("file://");
    crate::strs::push_str(&mut s, abs_path);
    s
}

/// The stdio-mode result for a cached file copied to `abs_path`.
pub fn stdio_result(cached: CachedFile, abs_path: &str) -> (r: FilesFetchResult)
    ensures
        r.file_id == cached.file_id,
        r.display_name@ == cached.display_name@,
        r.mime_type == cached.mime_type,
        r.size_bytes == cached.size_bytes,
        r.uri@ == "file://"@ + abs_path@,
        r.expires_at is None,
{
    FilesFetchResult {
        file_id: cached.file_id,
        display_name: cached.display_name,
        mime_type: cached.mime_type,
        size_bytes: cached.size_bytes,
        uri: file_uri(abs_path),
        expires_at: None,
    }
}

// ───────────────────────────── tokens ─────────────────────────────

/// A lower-case hexadecimal digit for `d < 16`.
pub open spec fn hex_digit(d: int) -> char {
    if d < 10 {
        (d + ('0' as int)) as char
    } else {
        (d - 10 + ('a' as int)) as char
    }
}

/// Two lower-case hex digits per byte, most significant first.
pub open spec fn hex_of(bytes: Seq<u8>) -> Seq<char>
    decreases bytes.len(),
{
    if bytes.len() == 0 {
        seq![]
    } else {
        let b = bytes.last();
        hex_of(bytes.drop_last()) + seq![hex_digit((b / 16) as int), hex_digit((b % 16) as int)]
    }
}

proof fn lemma_hex_len(b: Seq<u8>)
    ensures
        hex_of(b).len() == 2 * b.len(),
    decreases b.len(),
{
    if b.len() > 0 {
        lemma_hex_len(b.drop_last());
    }
}

fn hex_char(d: u8) -> (c: char)
    requires
        d < 16,
    ensures
        c == hex_digit(d as int),
{
    if d < 10 {
        (48u8 + d) as char
    } else {
        (87u8 + d) as char
    }
}

/// Lower-case hex of a byte string.
pub fn hex_encode(bytes: &[u8]) -> (r: String)
    ensures
        r@ == hex_of(bytes@),
{
    let mut s = String::new();
    let mut i: usize = 0;
    while i < bytes.len()
        invariant
            i <= bytes.len(),
            s@ == hex_of(bytes@.take(i as int)),
        decreases bytes.len() - i,
    {
        let b = bytes[i];
        let ghost before = s@;
        crate::strs::push_char(&mut s, hex_char(b / 16));
        crate::strs::push_char(&mut s, hex_char(b % 16));
        assert(bytes@.take(i + 1).drop_last() =~= bytes@.take(i as int));
        assert(s@ =~= before + seq![hex_digit((b / 16) as int), hex_digit((b % 16) as int)]);
        i = i + 1;
    }
    assert(bytes@.take(bytes.len() as int) =~= bytes@);
    s
}

/// 16 random bytes from the thread-local generator (`rand::thread_rng().gen()`).
/// Nothing is stated of their value.
#[verifier::external_body]
fn random_bytes() -> (r: [u8; 16]) {
    rand::thread_rng().gen()
}

/// A fresh opaque token: 16 random bytes in lower-case hex (32 characters).
pub fn mint_token() -> (r: String)
    ensures
        exists|b: Seq<u8>| b.len() == 16 && r@ == hex_of(b),
{
    let bytes = random_bytes();
    let r = hex_encode(&bytes);
    assert(bytes@.len() == 16);
    r
}

/// What the server keeps for a token.
#[derive(Debug, Clone)]
pub struct TokenEntry {
    pub cache_path: String,
    pub display_name: String,
    pub mime_type: Option<String>,
    pub size_bytes: i64,
    pub expires_at: Timestamp,
}

/// What a token entry holds, as plain values.
pub struct EntryView {
    pub path: Seq<char>,
    pub name: Seq<char>,
    pub mime: Option<Seq<char>>,
    pub size: i64,
    pub expires: Timestamp,
}

/// The plain view of a token entry.
pub open spec fn entry_view(e: TokenEntry) -> EntryView {
    EntryView {
        path: e.cache_path@,
        name: e.display_name@,
        mime: crate::views::opt_text(e.mime_type),
        size: e.size_bytes,
        expires: e.expires_at,
    }
}

fn copy_entry(e: &TokenEntry) -> (r: TokenEntry)
    ensures
        entry_view(r) == entry_view(*e),
{
    let mime_type = match &e.mime_type {
        Some(m) => Some(m.clone()),
        None => None,
    };
    TokenEntry {
        cache_path: e.cache_path.clone(),
        display_name: e.display_name.clone(),
        mime_type,
        size_bytes: e.size_bytes,
        expires_at: e.expires_at,
    }
}

/// What a request for a token is answered with.
#[derive(Debug, Clone)]
pub enum TokenLookup {
    /// The token is known and not expired: serve this file.
    Live(TokenEntry),
    /// The token is known but expired (HTTP 410).
    Gone,
    /// The token is unknown (HTTP 404).
    NotFound,
}

/// A lookup answer as plain values.
pub enum LookupView {
    Live(EntryView),
    Gone,
    NotFound,
}

/// The plain view of an answer.
pub open spec fn lookup_view_of(r: TokenLookup) -> LookupView {
    match r {
        TokenLookup::Live(e) => LookupView::Live(entry_view(e)),
        TokenLookup::Gone => LookupView::Gone,
        TokenLookup::NotFound => LookupView::NotFound,
    }
}

/// The plain content of a registry: token → what was registered for it, and
/// cache path → token last handed out for it.
pub struct RegistryView {
    pub tokens: Map<Seq<char>, EntryView>,
    pub by_cache: Map<Seq<char>, Seq<char>>,
}

/// The answer to a request for `t` at `now`.
pub open spec fn answer(v: RegistryView, t: Seq<char>, now: Timestamp) -> LookupView {
    if !v.tokens.dom().contains(t) {
        LookupView::NotFound
    } else if later(v.tokens[t].expires, now) {
        LookupView::Live(v.tokens[t])
    } else {
        LookupView::Gone
    }
}

/// The live token already handed out for path `p`, with its expiry.
pub open spec fn reuse(v: RegistryView, p: Seq<char>, now: Timestamp) -> Option<(Seq<char>, Timestamp)> {
    if v.by_cache.dom().contains(p) && v.tokens.dom().contains(v.by_cache[p]) && later(
        v.tokens[v.by_cache[p]].expires,
        now,
    ) {
        Some((v.by_cache[p], v.tokens[v.by_cache[p]].expires))
    } else {
        None
    }
}

/// `v` after recording token `t` for the entry `e`.
pub open spec fn registered(v: RegistryView, t: Seq<char>, e: EntryView) -> RegistryView {
    RegistryView { tokens: v.tokens.insert(t, e), by_cache: v.by_cache.insert(e.path, t) }
}

/// Every expiry in the registry can be rendered.
pub open spec fn all_renderable(v: RegistryView) -> bool {
    forall|t: Seq<char>| #[trigger] v.tokens.dom().contains(t) ==> ts_valid(v.tokens[t].expires)
}

/// The tokens handed out by an http publisher, each with its expiry, and the
/// token last handed out for each cache path.
#[derive(Debug, Clone)]
pub struct TokenRegistry {
    tokens: Vec<(String, TokenEntry)>,
    by_cache: Vec<(String, String)>,
}

/// The last index of `k` among the keys of `v`, or -1.
pub open spec fn last_key_index<T>(v: Seq<(String, T)>, k: Seq<char>) -> int
    decreases v.len(),
{
    if v.len() == 0 {
        -1
    } else if v.last().0@ == k {
        v.len() - 1
    } else {
        last_key_index(v.drop_last(), k)
    }
}

proof fn lemma_last_key_index<T>(v: Seq<(String, T)>, k: Seq<char>)
    ensures
        -1 <= last_key_index(v, k) < v.len(),
        last_key_index(v, k) >= 0 ==> v[last_key_index(v, k)].0@ == k,
    decreases v.len(),
{
    if v.len() > 0 && v.last().0@ != k {
        lemma_last_key_index(v.drop_last(), k);
    }
}

fn find_last_key<T>(v: &Vec<(String, T)>, k: &str) -> (r: Option<usize>)
    ensures
        match r {
            Some(i) => i as int == last_key_index(v@, k@),
            None => last_key_index(v@, k@) == -1,
        },
{
    let mut j = v.len();
    assert(v@.take(j as int) =~= v@);
    while j > 0
        invariant
            j <= v.len(),
            last_key_index(v@, k@) == last_key_index(v@.take(j as int), k@),
        decreases j,
    {
        assert(v@.take(j as int).drop_last() =~= v@.take(j - 1));
        assert(v@.take(j as int).last() == v@[j - 1]);
        if crate::strs::str_eq(v[j - 1].0.as_str(), k) {
            return Some(j - 1);
        }
        j = j - 1;
    }
    None
}

impl View for TokenRegistry {
    type V = RegistryView;

    closed spec fn view(&self) -> RegistryView {
        RegistryView {
            tokens: Map::new(
                |t: Seq<char>| last_key_index(self.tokens@, t) >= 0,
                |t: Seq<char>| entry_view(self.tokens@[last_key_index(self.tokens@, t)].1),
            ),
            by_cache: Map::new(
                |p: Seq<char>| last_key_index(self.by_cache@, p) >= 0,
                |p: Seq<char>| self.by_cache@[last_key_index(self.by_cache@, p)].1@,
            ),
        }
    }
}

impl TokenRegistry {
    proof fn lemma_view(self, t: Seq<char>)
        ensures
            self@.tokens.dom().contains(t) == (last_key_index(self.tokens@, t) >= 0),
            self@.by_cache.dom().contains(t) == (last_key_index(self.by_cache@, t) >= 0),
            last_key_index(self.tokens@, t) >= 0 ==> self@.tokens[t] == entry_view(
                self.tokens@[last_key_index(self.tokens@, t)].1,
            ),
            last_key_index(self.by_cache@, t) >= 0 ==> self@.by_cache[t]
                == self.by_cache@[last_key_index(self.by_cache@, t)].1@,
    {
    }

    /// No token handed out yet.
    pub fn new() -> (r: TokenRegistry)
        ensures
            r@.tokens == Map::<Seq<char>, EntryView>::empty(),
            r@.by_cache == Map::<Seq<char>, Seq<char>>::empty(),
    {
        let r = TokenRegistry { tokens: Vec::new(), by_cache: Vec::new() };
        assert(r@.tokens =~= Map::<Seq<char>, EntryView>::empty());
        assert(r@.by_cache =~= Map::<Seq<char>, Seq<char>>::empty());
        r
    }

    /// What a request for `token` at `now` is answered with.
    pub fn lookup(&self, token: &str, now: Timestamp) -> (r: TokenLookup)
        ensures
            lookup_view_of(r) == answer(self@, token@, now),
    {
        proof {
            self.lemma_view(token@);
        }
        match find_last_key(&self.tokens, token) {
            None => TokenLookup::NotFound,
            Some(i) => {
                proof {
                    lemma_last_key_index(self.tokens@, token@);
                }
                let e = &self.tokens[i].1;
                if is_later(e.expires_at, now) {
                    TokenLookup::Live(copy_entry(e))
                } else {
                    TokenLookup::Gone
                }
            },
        }
    }

    /// The live token already handed out for `path`, if any.
    pub fn reusable(&self, path: &str, now: Timestamp) -> (r: Option<(String, Timestamp)>)
        ensures
            match r {
                Some((t, e)) => reuse(self@, path@, now) == Some((t@, e)),
                None => reuse(self@, path@, now) is None,
            },
    {
        proof {
            self.lemma_view(path@);
        }
        match find_last_key(&self.by_cache, path) {
            None => None,
            Some(i) => {
                proof {
                    lemma_last_key_index(self.by_cache@, path@);
                }
                let t = self.by_cache[i].1.clone();
                proof {
                    self.lemma_view(t@);
                }
                match find_last_key(&self.tokens, t.as_str()) {
                    None => None,
                    Some(j) => {
                        proof {
                            lemma_last_key_index(self.tokens@, t@);
                        }
                        let exp = self.tokens[j].1.expires_at;
                        if is_later(exp, now) {
                            Some((t, exp))
                        } else {
                            None
                        }
                    },
                }
            },
        }
    }

    /// Record a freshly minted token for a cached file.
    pub fn register(&mut self, token: String, entry: TokenEntry)
        ensures
            final(self)@ == registered(old(self)@, token@, entry_view(entry)),
    {
        let path = entry.cache_path.clone();
        let ghost old_self = *self;
        let ghost old_v = self@;
        let ghost old_tokens = self.tokens@;
        let ghost old_by = self.by_cache@;
        let ghost p = entry.cache_path@;
        let ghost ev = entry_view(entry);
        self.by_cache.push((path, token.clone()));
        self.tokens.push((token, entry));
        proof {
            assert(self.tokens@.drop_last() =~= old_tokens);
            assert(self.by_cache@.drop_last() =~= old_by);
            assert forall|k: Seq<char>| #[trigger] self@.tokens.dom().contains(k) == old_v.tokens.insert(token@, ev).dom().contains(k) by {
                self.lemma_view(k);
                old_self.lemma_view(k);
            }
            assert forall|k: Seq<char>| #[trigger] self@.tokens.dom().contains(k) implies self@.tokens[k]
                == old_v.tokens.insert(token@, ev)[k] by {
                self.lemma_view(k);
                old_self.lemma_view(k);
                if k != token@ {
                    assert(last_key_index(self.tokens@, k) == last_key_index(old_tokens, k));
                    lemma_last_key_index(old_tokens, k);
                    let j = last_key_index(old_tokens, k);
                    assert(self.tokens@[j] == old_tokens[j]);
                }
            }
            assert(self@.tokens =~= old_v.tokens.insert(token@, ev));
            assert forall|k: Seq<char>| #[trigger] self@.by_cache.dom().contains(k) == old_v.by_cache.insert(
                p,
                token@,
            ).dom().contains(k) by {
                self.lemma_view(k);
                old_self.lemma_view(k);
            }
            assert forall|k: Seq<char>| #[trigger] self@.by_cache.dom().contains(k) implies self@.by_cache[k]
                == old_v.by_cache.insert(p, token@)[k] by {
                self.lemma_view(k);
                old_self.lemma_view(k);
                if k != p {
                    assert(last_key_index(self.by_cache@, k) == last_key_index(old_by, k));
                    lemma_last_key_index(old_by, k);
                    let j = last_key_index(old_by, k);
                    assert(self.by_cache@[j] == old_by[j]);
                }
            }
            assert(self@.by_cache =~= old_v.by_cache.insert(p, token@));
        }
    }
}

/// A token is served with the file it was registered for until it expires,
/// and answered `Gone` from its expiry on; a path keeps its live token.
pub proof fn law_read_after_register(v: RegistryView, t: Seq<char>, e: EntryView, now: Timestamp)
    ensures
        later(e.expires, now) ==> answer(registered(v, t, e), t, now) == LookupView::Live(e),
        !later(e.expires, now) ==> answer(registered(v, t, e), t, now) == LookupView::Gone,
        later(e.expires, now) ==> reuse(registered(v, t, e), e.path, now) == Some((t, e.expires)),
{
}

/// Registering a token changes the answer for no other token.
pub proof fn law_register_is_local(
    v: RegistryView,
    t: Seq<char>,
    e: EntryView,
    other: Seq<char>,
    now: Timestamp,
)
    requires
        other != t,
    ensures
        answer(registered(v, t, e), other, now) == answer(v, other, now),
{
}

// ───────────────────────────── http mode ─────────────────────────────

/// Serves cached files under opaque, expiring tokens.
#[derive(Debug, Clone)]
pub struct HttpPublisher {
    public_base: String,
    ttl: Ttl,
    registry: TokenRegistry,
}

/// The URI of a token: the public base without trailing `/`, then
/// `/files/<token>`.
pub open spec fn token_uri(base: Seq<char>, token: Seq<char>) -> Seq<char> {
    trim_end_slashes(base) + "/files/"@ + token
}

/// `str::trim_end_matches('/')`.
pub open spec fn trim_end_slashes(s: Seq<char>) -> Seq<char>
    decreases s.len(),
{
    if s.len() > 0 && s.last() == '/' {
        trim_end_slashes(s.drop_last())
    } else {
        s
    }
}

fn trim_end_slashes_exec(s: &str) -> (r: String)
    ensures
        r@ == trim_end_slashes(s@),
{
    let v = crate::strs::chars_of(s);
    let mut n = v.len();
    assert(v@.take(n as int) =~= v@);
    while n > 0 && v[n - 1] == '/'
        invariant
            n <= v.len(),
            trim_end_slashes(v@) == trim_end_slashes(v@.take(n as int)),
        decreases n,
    {
        assert(v@.take(n as int).drop_last() =~= v@.take(n - 1));
        n = n - 1;
    }
    crate::strs::string_of_range(&v, 0, n)
}

impl HttpPublisher {
    /// The public base URL.
    pub closed spec fn base(self) -> Seq<char> {
        self.public_base@
    }

    /// The token lifetime.
    pub closed spec fn lifetime(self) -> Ttl {
        self.ttl
    }

    /// The tokens handed out.
    pub closed spec fn tokens(self) -> RegistryView {
        self.registry@
    }

    /// A publisher behind `public_base` whose tokens live `ttl`.
    pub fn new(public_base: String, ttl: Ttl) -> (r: HttpPublisher)
        ensures
            r.base() == public_base@,
            r.lifetime() == ttl,
            r.tokens().tokens == Map::<Seq<char>, EntryView>::empty(),
    {
        HttpPublisher { public_base, ttl, registry: TokenRegistry::new() }
    }

    /// The base every token URI starts with.
    pub fn public_base(&self) -> (r: &str)
        ensures
            r@ == self.base(),
    {
        self.public_base.as_str()
    }

    /// How long a token stays valid.
    pub fn ttl(&self) -> (r: Ttl)
        ensures
            r == self.lifetime(),
    {
        self.ttl
    }

    /// The registry of tokens handed out.
    pub fn registry(&self) -> (r: &TokenRegistry)
        ensures
            r@ == self.tokens(),
    {
        &self.registry
    }

    /// Publish a cached file at `now`: reuse the live token of its cache path
    /// if there is one, else mint a token valid for the TTL. The URI never
    /// holds the cache path.
    pub fn publish(&mut self, cached: CachedFile, now: Timestamp) -> (r: FilesFetchResult)
        requires
            ttl_fits(now, old(self).lifetime()),
            all_renderable(old(self).tokens()),
        ensures
            r.file_id == cached.file_id,
            r.display_name@ == cached.display_name@,
            r.size_bytes == cached.size_bytes,
            r.mime_type == cached.mime_type,
            final(self).base() == old(self).base(),
            final(self).lifetime() == old(self).lifetime(),
            all_renderable(final(self).tokens()),
            match reuse(old(self).tokens(), cached.path@, now) {
                Some((t, e)) => {
                    &&& final(self).tokens() == old(self).tokens()
                    &&& r.uri@ == token_uri(old(self).base(), t)
                    &&& r.expires_at matches Some(x) && x@ == spec_rfc3339(e.secs, e.nanos)
                },
                None => exists|t: Seq<char>|
                    {
                        &&& t.len() == 32
                        &&& (exists|b: Seq<u8>| b.len() == 16 && t == hex_of(b))
                        &&& final(self).tokens() == registered(
                            old(self).tokens(),
                            t,
                            EntryView {
                                path: cached.path@,
                                name: cached.display_name@,
                                mime: crate::views::opt_text(cached.mime_type),
                                size: cached.size_bytes,
                                expires: add_ttl(now, old(self).lifetime()),
                            },
                        )
                        &&& r.uri@ == token_uri(old(self).base(), t)
                        &&& r.expires_at matches Some(x) && x@ == spec_rfc3339(
                            add_ttl(now, old(self).lifetime()).secs,
                            add_ttl(now, old(self).lifetime()).nanos,
                        )
                    },
            },
    {
        let (token, exp) = match self.registry.reusable(cached.path.as_str(), now) {
            Some((t, e)) => {
                assert(self.registry@.tokens.dom().contains(self.registry@.by_cache[cached.path@]));
                (t, e)
            },
            None => {
                let t = mint_token();
                proof {
                    let b = choose|b: Seq<u8>| b.len() == 16 && t@ == hex_of(b);
                    lemma_hex_len(b);
                }
                let exp = add_ttl_exec(now, self.ttl);
                let mime_type = match &cached.mime_type {
                    Some(m) => Some(m.clone()),
                    None => None,
                };
                let entry = TokenEntry {
                    cache_path: cached.path.clone(),
                    display_name: cached.display_name.clone(),
                    mime_type,
                    size_bytes: cached.size_bytes,
                    expires_at: exp,
                };
                let ghost before = self.registry@;
                self.registry.register(t.clone(), entry);
                proof {
                    assert forall|k: Seq<char>| #[trigger]
                        self.registry@.tokens.dom().contains(k) implies ts_valid(
                        self.registry@.tokens[k].expires,
                    ) by {
                        if k != t@ {
                            assert(before.tokens.dom().contains(k));
                        }
                    }
                }
                (t, exp)
            },
        };
        let base = trim_end_slashes_exec(self.public_base.as_str());
        let mut uri = base;
        crate::strs::push_str(&mut uri, "/files/");
        crate::strs::push_str(&mut uri, token.as_str());
        let stamp = crate::assignments::rfc3339(exp.secs, exp.nanos);
        FilesFetchResult {
            file_id: cached.file_id,
            display_name: cached.display_name,
            mime_type: cached.mime_type,
            size_bytes: cached.size_bytes,
            uri,
            expires_at: Some(stamp),
        }
    }

    /// What a request for `token` at `now` is answered with.
    pub fn serve(&self, token: &str, now: Timestamp) -> (r: TokenLookup)
        ensures
            lookup_view_of(r) == answer(self.tokens(), token@, now),
    {
        self.registry.lookup(token, now)
    }
}

/// The value of an HTTP `Content-Disposition` header for a download: the
/// display name with every `"` replaced by `_`.
pub fn content_disposition(display_name: &str) -> (r: String)
    ensures
        r@ == "attachment; filename=\""@ + display_name@.map_values(
            |c: char| if c == '"' { '_' } else { c },
        ) + "\""@,
{
    let v = crate::strs::chars_of(display_name);
    let mut s = crate::strs::owned("attachment; filename=\"");
    let ghost head = s@;
    let mut i: usize = 0;
    while i < v.len()
        invariant
            i <= v.len(),
            v@ == display_name@,
            s@ == head + v@.take(i as int).map_values(|c: char| if c == '"' { '_' } else { c }),
        decreases v.len() - i,
    {
        let c = v[i];
        let ghost before = s@;
        if c == '"' {
            crate::strs::push_char(&mut s, '_');
        } else {
            crate::strs::push_char(&mut s, c);
        }
        assert(v@.take(i + 1).map_values(|c: char| if c == '"' { '_' } else { c }) =~= v@.take(
            i as int,
        ).map_values(|c: char| if c == '"' { '_' } else { c }).push(if c == '"' { '_' } else { c }));
        i = i + 1;
    }
    assert(v@.take(v.len() as int) =~= v@);
    crate::strs::push_str(&mut s, "\"");
    s
}

// ───────────────────────────── dispatch ─────────────────────────────

/// The publisher chosen at start-up.
#[derive(Debug, Clone)]
pub enum FileServer {
    Stdio(StdioPublisher),
    Http(HttpPublisher),
}

/// The one-line description logged at start-up.
pub open spec fn describe_text(s: FileServer) -> Seq<char> {
    match s {
        FileServer::Stdio(p) => "stdio (output_dir="@ + p.dir() + ")"@,
        FileServer::Http(h) => "http (public_base="@ + h.base() + ", ttl="@ + crate::num::dec_nat(
            h.lifetime().secs as nat,
        ) + "s)"@,
    }
}

impl FileServer {
    /// `stdio (output_dir=…)` or `http (public_base=…, ttl=…s)`.
    pub fn describe(&self) -> (r: String)
        ensures
            r@ == describe_text(*self),
    {
        match self {
            FileServer::Stdio(s) => {
                let mut m = crate::strs::owned("stdio (output_dir=");
                crate::strs::push_str(&mut m, s.output_dir());
                crate::strs::push_str(&mut m, ")");
                m
            },
            FileServer::Http(h) => {
                let mut m = crate::strs::owned("http (public_base=");
                crate::strs::push_str(&mut m, h.public_base());
                crate::strs::push_str(&mut m, ", ttl=");
                crate::num::push_dec_u64(&mut m, h.ttl().as_secs());
                crate::strs::push_str(&mut m, "s)");
                m
            },
        }
    }
}

} // verus!
