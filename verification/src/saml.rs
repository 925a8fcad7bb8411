//! NTU COOL's ADFS SAML login as a state machine.
//!
//! The login is four HTTP exchanges: Canvas redirects to ADFS; the ADFS page
//! carries a form; posting the credentials to it yields a page whose form
//! holds the SAML assertion; posting that back to Canvas sets the session
//! cookies. The caller performs each request and hands back the reply; the
//! decisions — where to go next, what to post, what went wrong — are here.

use vstd::prelude::*;

use crate::error::Error;
use crate::strs::{contains_seq, find_char_seq, spec_trim, split_char};

verus! {

/// NTU COOL.
pub const BASE_URL: &'static str = "https://cool.ntu.edu.tw";

/// Where the credentials are posted.
pub const ADFS_POST_URL: &'static str = "https://adfs.ntu.edu.tw/adfs/ls/";

/// Prefix of relative ADFS form actions.
pub const ADFS_ORIGIN: &'static str = "https://adfs.ntu.edu.tw";

// ───────────────────────────── outside parsers ─────────────────────────────

/// The attributes of one `<input>`: `type`, `name`, `value`.
pub type InputAttrs = (Option<String>, Option<String>, Option<String>);

/// The plain content of an input's attributes.
pub type InputView = (Option<Seq<char>>, Option<Seq<char>>, Option<Seq<char>>);

/// What scraper finds for the first element of a full HTML document that
/// matches `selector`: its `action` attribute and, in document order, the
/// attributes of each `<input>` inside it. It depends on its arguments alone.
pub uninterp spec fn spec_first_form(html: Seq<char>, selector: Seq<char>) -> Option<(Option<Seq<char>>, Seq<InputView>)>;

/// The view of an optional string.
pub open spec fn ostr(o: Option<String>) -> Option<Seq<char>> {
    match o {
        Some(s) => Some(s@),
        None => None,
    }
}

/// The view of a found form.
pub open spec fn form_view(f: Option<(Option<String>, Vec<InputAttrs>)>) -> Option<(Option<Seq<char>>, Seq<InputView>)> {
    match f {
        Some((a, ins)) => Some(
            (ostr(a), ins@.map_values(|i: InputAttrs| (ostr(i.0), ostr(i.1), ostr(i.2)))),
        ),
        None => None,
    }
}

/// `scraper::Html::parse_document(html)`, the first match of `selector`, its
/// `action` attribute and the `type` / `name` / `value` attributes of the
/// `input` elements under it.
#[verifier::external_body]
fn first_form(html: &str, selector: &str) -> (r: Option<(Option<String>, Vec<InputAttrs>)>)
    requires
        selector@ == "form#MainForm"@ || selector@ == "form"@,
    ensures
        form_view(r) == spec_first_form(html@, selector@),
{
    let doc = scraper::Html::parse_document(html);
    let (fs, is) = (scraper::Selector::parse(selector).unwrap(), scraper::Selector::parse("input").unwrap());
    let attr = |e: &scraper::ElementRef, n: &str| e.value().attr(n).map(|s| s.to_string());
    doc.select(&fs).next().map(|f| (attr(&f, "action"), f.select(&is).map(
        |i| (attr(&i, "type"), attr(&i, "name"), attr(&i, "value")),
    ).collect()))
}

/// What `urlencoding::decode` gives: the percent-decoded text, or `None`
/// when it is not UTF-8. It depends on the argument alone.
pub uninterp spec fn spec_url_decode(s: Seq<char>) -> Option<Seq<char>>;

/// `urlencoding::decode(s)`, `None` on a decoding error.
#[verifier::external_body]
pub(crate) fn url_decode(s: &str) -> (r: Option<String>)
    ensures
        ostr(r) == spec_url_decode(s@),
{
    urlencoding::decode(s).ok().map(|c| c.into_owned())
}

/// Percent-decoded, or as it is when decoding fails.
pub open spec fn decoded(s: Seq<char>) -> Seq<char> {
    match spec_url_decode(s) {
        Some(d) => d,
        None => s,
    }
}

fn decode_or_raw(v: &Vec<char>) -> (r: String)
    ensures
        r@ == decoded(v@),
{
    let s = crate::strs::string_of(v);
    match url_decode(s.as_str()) {
        Some(d) => d,
        None => s,
    }
}

// ───────────────────────────── small helpers ─────────────────────────────

/// `pairs` with `k` set to `v`: replaced in place when present, else added.
pub open spec fn assoc_put(pairs: Seq<(Seq<char>, Seq<char>)>, k: Seq<char>, v: Seq<char>) -> Seq<(Seq<char>, Seq<char>)> {
    if exists|i: int| 0 <= i < pairs.len() && pairs[i].0 == k {
        let i = choose|i: int| 0 <= i < pairs.len() && pairs[i].0 == k;
        pairs.update(i, (k, v))
    } else {
        pairs.push((k, v))
    }
}

/// No key occurs twice.
pub open spec fn keys_unique(pairs: Seq<(Seq<char>, Seq<char>)>) -> bool {
    forall|i: int, j: int| 0 <= i < j < pairs.len() ==> pairs[i].0 != pairs[j].0
}

/// The plain content of a list of pairs.
pub open spec fn pairs_view(v: Seq<(String, String)>) -> Seq<(Seq<char>, Seq<char>)> {
    v.map_values(|p: (String, String)| (p.0@, p.1@))
}

/// Set `k` to `v` in a list of pairs without repeated keys.
pub fn put(pairs: &mut Vec<(String, String)>, k: String, v: String)
    requires
        keys_unique(pairs_view(old(pairs)@)),
    ensures
        keys_unique(pairs_view(final(pairs)@)),
        pairs_view(final(pairs)@) == assoc_put(pairs_view(old(pairs)@), k@, v@),
{
    let ghost old_v = pairs_view(pairs@);
    let mut i: usize = 0;
    while i < pairs.len()
        invariant
            i <= pairs.len(),
            pairs_view(pairs@) == old_v,
            old_v == pairs_view(old(pairs)@),
            keys_unique(old_v),
            forall|j: int| 0 <= j < i ==> old_v[j].0 != k@,
        decreases pairs.len() - i,
    {
        if crate::strs::str_eq(pairs[i].0.as_str(), k.as_str()) {
            let ghost kk = k@;
            let ghost vv = v@;
            assert(old_v[i as int] == (pairs@[i as int].0@, pairs@[i as int].1@));
            assert(old_v[i as int].0 == kk);
            pairs.set(i, (k, v));
            proof {
                let c = choose|j: int| 0 <= j < old_v.len() && old_v[j].0 == kk;
                assert(c == i) by {
                    if c != i {
                        if c < i {
                        } else {
                            assert(old_v[i as int].0 == old_v[c].0);
                        }
                    }
                }
                assert(pairs_view(pairs@) =~= old_v.update(i as int, (kk, vv)));
                assert(exists|j: int| 0 <= j < old_v.len() && old_v[j].0 == kk);
                assert(assoc_put(old_v, kk, vv) == old_v.update(c, (kk, vv)));
                let nv = pairs_view(pairs@);
                assert forall|a: int, b: int| 0 <= a < b < nv.len() implies nv[a].0 != nv[b].0 by {
                    assert(nv[a].0 == old_v[a].0 && nv[b].0 == old_v[b].0);
                }
            }
            return;
        }
        i = i + 1;
    }
    let ghost kk = k@;
    let ghost vv = v@;
    pairs.push((k, v));
    assert(pairs_view(pairs@) =~= old_v.push((kk, vv)));
}

/// The pieces of `v` between separators, empty ones included (`str::split`).
pub fn split_all(v: &Vec<char>, sep: char) -> (r: Vec<Vec<char>>)
    ensures
        r@.map_values(|p: Vec<char>| p@) == split_char(v@, sep),
{
    let mut r: Vec<Vec<char>> = Vec::new();
    let mut cur: Vec<char> = Vec::new();
    let mut i: usize = 0;
    assert(v@.take(0) =~= Seq::<char>::empty());
    while i < v.len()
        invariant
            i <= v.len(),
            r@.map_values(|p: Vec<char>| p@).push(cur@) == split_char(v@.take(i as int), sep),
        decreases v.len() - i,
    {
        let ghost prev = split_char(v@.take(i as int), sep);
        assert(v@.take(i + 1).drop_last() =~= v@.take(i as int));
        let c = v[i];
        if c == sep {
            let ghost old_r = r@.map_values(|p: Vec<char>| p@);
            let piece = cur;
            r.push(piece);
            cur = Vec::new();
            proof {
                assert(r@.map_values(|p: Vec<char>| p@) =~= old_r.push(prev.last()));
                assert(old_r.push(prev.last()) =~= prev);
                assert(r@.map_values(|p: Vec<char>| p@).push(cur@) =~= prev.push(seq![]));
            }
        } else {
            let ghost old_r = r@.map_values(|p: Vec<char>| p@);
            let ghost old_cur = cur@;
            cur.push(c);
            proof {
                assert(prev.last() == old_cur);
                assert(old_r.push(cur@) =~= prev.update(prev.len() - 1, old_cur.push(c)));
            }
        }
        i = i + 1;
    }
    assert(v@.take(v.len() as int) =~= v@);
    let ghost fin = r@.map_values(|p: Vec<char>| p@);
    r.push(cur);
    assert(r@.map_values(|p: Vec<char>| p@) =~= fin.push(cur@));
    r
}

// ───────────────────────────── the ADFS form ─────────────────────────────

/// What the ADFS page's `form#MainForm` yields.
#[derive(Debug, Clone)]
pub struct AdfsForm {
    /// The full form action URL.
    pub action: String,
    /// The query parameters of the action, percent-decoded.
    pub query_params: Vec<(String, String)>,
    /// Hidden fields (name → value), no name twice.
    pub hidden_fields: Vec<(String, String)>,
    /// The name of the `text` input.
    pub username_field: String,
    /// The name of the `password` input.
    pub password_field: String,
}

/// An optional attribute, empty when absent.
pub open spec fn or_empty(o: Option<Seq<char>>) -> Seq<char> {
    match o {
        Some(s) => s,
        None => seq![],
    }
}

/// Reading the form's inputs in order: the last `text` input names the
/// username field, the last `password` input the password field, and every
/// other input with a name and a value is a hidden field.
pub open spec fn adfs_scan(inputs: Seq<InputView>) -> (Seq<char>, Seq<char>, Seq<(Seq<char>, Seq<char>)>)
    decreases inputs.len(),
{
    if inputs.len() == 0 {
        (seq![], seq![], seq![])
    } else {
        let (a, p, f) = adfs_scan(inputs.drop_last());
        let inp = inputs.last();
        let ty = or_empty(inp.0);
        let name = or_empty(inp.1);
        if ty == "text"@ {
            (name, p, f)
        } else if ty == "password"@ {
            (a, name, f)
        } else if inp.2 is Some && name.len() > 0 {
            (a, p, assoc_put(f, name, inp.2->0))
        } else {
            (a, p, f)
        }
    }
}

/// One `key=value` piece of a query string, both sides decoded.
pub open spec fn query_pair(piece: Seq<char>) -> (Seq<char>, Seq<char>) {
    match find_char_seq(piece, '=') {
        Some(j) => (decoded(piece.take(j)), decoded(piece.skip(j + 1))),
        None => (decoded(piece), decoded(seq![])),
    }
}

/// The decoded query parameters of a URL: every `&`-separated piece after
/// the first `?`.
pub open spec fn query_params_of(url: Seq<char>) -> Seq<(Seq<char>, Seq<char>)> {
    match find_char_seq(url, '?') {
        Some(i) => split_char(url.skip(i + 1), '&').map_values(|p: Seq<char>| query_pair(p)),
        None => seq![],
    }
}

/// A relative form action made absolute on the ADFS host.
pub open spec fn full_action(action: Seq<char>) -> Seq<char> {
    if "http"@.is_prefix_of(action) {
        action
    } else {
        ADFS_ORIGIN@ + action
    }
}

/// The outcome of reading the ADFS page: the form, or an `Auth` message.
pub open spec fn spec_adfs_form(html: Seq<char>) -> Result<
    (Seq<char>, Seq<(Seq<char>, Seq<char>)>, Seq<(Seq<char>, Seq<char>)>, Seq<char>, Seq<char>),
    Seq<char>,
> {
    match spec_first_form(html, "form#MainForm"@) {
        None => Err("MainForm not found in ADFS page"@),
        Some((action, inputs)) => match action {
            None => Err("form action not found"@),
            Some(a) => {
                let (acc, pass, fields) = adfs_scan(inputs);
                if acc.len() == 0 || pass.len() == 0 {
                    Err("Could not find username/password fields in ADFS form"@)
                } else {
                    Ok((full_action(a), query_params_of(full_action(a)), fields, acc, pass))
                }
            },
        },
    }
}

/// The view of an ADFS form.
pub open spec fn adfs_view(f: AdfsForm) -> (
    Seq<char>,
    Seq<(Seq<char>, Seq<char>)>,
    Seq<(Seq<char>, Seq<char>)>,
    Seq<char>,
    Seq<char>,
) {
    (f.action@, pairs_view(f.query_params@), pairs_view(f.hidden_fields@), f.username_field@, f.password_field@)
}

fn opt_or_empty(o: &Option<String>) -> (r: String)
    ensures
        r@ == or_empty(ostr(*o)),
{
    match o {
        Some(s) => s.clone(),
        None => String::new(),
    }
}

fn query_params(url: &Vec<char>) -> (r: Vec<(String, String)>)
    ensures
        pairs_view(r@) == query_params_of(url@),
{
    let q = match crate::strs::find_char(url, '?') {
        Some(i) => i,
        None => return Vec::new(),
    };
    assert(q < url.len());
    let rest = crate::strs::sub_chars(url, q + 1, url.len());
    assert(rest@ =~= url@.skip(q + 1));
    let pieces = split_all(&rest, '&');
    let ghost pv = pieces@.map_values(|p: Vec<char>| p@);
    let mut out: Vec<(String, String)> = Vec::new();
    let mut k: usize = 0;
    while k < pieces.len()
        invariant
            k <= pieces.len(),
            pv == pieces@.map_values(|p: Vec<char>| p@),
            pairs_view(out@) == pv.take(k as int).map_values(|p: Seq<char>| query_pair(p)),
        decreases pieces.len() - k,
    {
        let piece = &pieces[k];
        let pair = match crate::strs::find_char(piece, '=') {
            Some(j) => {
                let key = crate::strs::sub_chars(piece, 0, j);
                let val = crate::strs::sub_chars(piece, j + 1, piece.len());
                assert(key@ =~= piece@.take(j as int));
                assert(val@ =~= piece@.skip(j + 1));
                (decode_or_raw(&key), decode_or_raw(&val))
            },
            None => {
                let empty: Vec<char> = Vec::new();
                assert(empty@ =~= Seq::<char>::empty());
                (decode_or_raw(piece), decode_or_raw(&empty))
            },
        };
        let ghost before = pairs_view(out@);
        out.push(pair);
        proof {
            assert(pv.take(k + 1) =~= pv.take(k as int).push(pv[k as int]));
            assert(pairs_view(out@) =~= before.push(query_pair(pv[k as int])));
        }
        k = k + 1;
    }
    assert(pv.take(pieces.len() as int) =~= pv);
    out
}

/// Read `form#MainForm` of the ADFS login page: its action (made absolute),
/// the action's query parameters, the hidden fields and the names of the
/// username and password inputs.
pub fn parse_adfs_form(html: &str) -> (r: Result<AdfsForm, Error>)
    ensures
        match spec_adfs_form(html@) {
            Ok(v) => r matches Ok(f) && adfs_view(f) == v,
            Err(m) => r matches Err(Error::Auth(x)) && x@ == m,
        },
        r matches Ok(f) ==> keys_unique(pairs_view(f.hidden_fields@)),
{
    proof {
        reveal_strlit("form#MainForm");
        reveal_strlit("form");
    }
    let form = match first_form(html, "form#MainForm") {
        Some(f) => f,
        None => return Err(Error::Auth(crate::strs::owned("MainForm not found in ADFS page"))),
    };
    let action = match &form.0 {
        Some(a) => a.clone(),
        None => return Err(Error::Auth(crate::strs::owned("form action not found"))),
    };
    let av = crate::strs::chars_of(action.as_str());
    let http = crate::strs::chars_of("http");
    let full = if crate::strs::starts_with_chars(&av, &http) {
        action
    } else {
        let mut s = crate::strs::owned(ADFS_ORIGIN);
        crate::strs::push_str(&mut s, action.as_str());
        s
    };
    let fv = crate::strs::chars_of(full.as_str());
    let query = query_params(&fv);
    let inputs = &form.1;
    let ghost iv = inputs@.map_values(|i: InputAttrs| (ostr(i.0), ostr(i.1), ostr(i.2)));
    let mut acc = String::new();
    let mut pass = String::new();
    let mut fields: Vec<(String, String)> = Vec::new();
    let mut k: usize = 0;
    while k < inputs.len()
        invariant
            k <= inputs.len(),
            iv == inputs@.map_values(|i: InputAttrs| (ostr(i.0), ostr(i.1), ostr(i.2))),
            (acc@, pass@, pairs_view(fields@)) == adfs_scan(iv.take(k as int)),
            keys_unique(pairs_view(fields@)),
        decreases inputs.len() - k,
    {
        proof {
            assert(iv.take(k + 1).drop_last() =~= iv.take(k as int));
            assert(iv.take(k + 1).last() == iv[k as int]);
            reveal_strlit("text");
            reveal_strlit("password");
        }
        let ty = opt_or_empty(&inputs[k].0);
        let name = opt_or_empty(&inputs[k].1);
        if crate::strs::str_eq(ty.as_str(), "text") {
            acc = name;
        } else if crate::strs::str_eq(ty.as_str(), "password") {
            pass = name;
        } else {
            match &inputs[k].2 {
                Some(val) => {
                    if !name.as_str().is_empty() {
                        put(&mut fields, name, val.clone());
                    }
                },
                None => {},
            }
        }
        k = k + 1;
    }
    assert(iv.take(inputs.len() as int) =~= iv);
    if acc.as_str().is_empty() || pass.as_str().is_empty() {
        return Err(Error::Auth(crate::strs::owned("Could not find username/password fields in ADFS form")));
    }
    Ok(AdfsForm { action: full, query_params: query, hidden_fields: fields, username_field: acc, password_field: pass })
}

// ───────────────────────────── the SAML assertion ─────────────────────────────

/// Every input of the SAML form with a name, name → value (value empty when
/// absent), later ones replacing earlier ones.
pub open spec fn assertion_scan(inputs: Seq<InputView>) -> Seq<(Seq<char>, Seq<char>)>
    decreases inputs.len(),
{
    if inputs.len() == 0 {
        seq![]
    } else {
        let f = assertion_scan(inputs.drop_last());
        let name = or_empty(inputs.last().1);
        if name.len() > 0 {
            assoc_put(f, name, or_empty(inputs.last().2))
        } else {
            f
        }
    }
}

/// Some pair has key `k`.
pub open spec fn has_key(pairs: Seq<(Seq<char>, Seq<char>)>, k: Seq<char>) -> bool {
    exists|i: int| 0 <= i < pairs.len() && pairs[i].0 == k
}

/// The outcome of reading the page ADFS answered the credentials with: the
/// assertion form's action and fields, or an `Auth` message.
pub open spec fn spec_saml_assertion(html: Seq<char>) -> Result<(Seq<char>, Seq<(Seq<char>, Seq<char>)>), Seq<char>> {
    match spec_first_form(html, "form"@) {
        None => Err("No form in SAML response (invalid credentials?)"@),
        Some((action, inputs)) => match action {
            None => Err("form action not found in SAML response"@),
            Some(a) => {
                let data = assertion_scan(inputs);
                if !has_key(data, "SAMLResponse"@) {
                    if contains_seq(html, "The user name or password is incorrect"@) {
                        Err("Login failed: incorrect username or password"@)
                    } else {
                        Err(
                            "Login failed: ADFS returned the login form instead of a SAML assertion (unknown error)"@,
                        )
                    }
                } else {
                    Ok((a, data))
                }
            },
        },
    }
}

fn has_key_exec(pairs: &Vec<(String, String)>, k: &str) -> (r: bool)
    ensures
        r == has_key(pairs_view(pairs@), k@),
{
    let mut i: usize = 0;
    while i < pairs.len()
        invariant
            i <= pairs.len(),
            forall|j: int| 0 <= j < i ==> pairs_view(pairs@)[j].0 != k@,
        decreases pairs.len() - i,
    {
        if crate::strs::str_eq(pairs[i].0.as_str(), k) {
            assert(pairs_view(pairs@)[i as int].0 == k@);
            return true;
        }
        i = i + 1;
    }
    false
}

/// The named inputs of the assertion form, name → value.
fn assertion_fields(inputs: &Vec<InputAttrs>) -> (r: Vec<(String, String)>)
    ensures
        pairs_view(r@) == assertion_scan(inputs@.map_values(|i: InputAttrs| (ostr(i.0), ostr(i.1), ostr(i.2)))),
{
    let ghost iv = inputs@.map_values(|i: InputAttrs| (ostr(i.0), ostr(i.1), ostr(i.2)));
    let mut data: Vec<(String, String)> = Vec::new();
    let mut k: usize = 0;
    while k < inputs.len()
        invariant
            k <= inputs.len(),
            iv == inputs@.map_values(|i: InputAttrs| (ostr(i.0), ostr(i.1), ostr(i.2))),
            pairs_view(data@) == assertion_scan(iv.take(k as int)),
            keys_unique(pairs_view(data@)),
        decreases inputs.len() - k,
    {
        proof {
            assert(iv.take(k + 1).drop_last() =~= iv.take(k as int));
            assert(iv.take(k + 1).last() == iv[k as int]);
        }
        let name = opt_or_empty(&inputs[k].1);
        let value = opt_or_empty(&inputs[k].2);
        if !name.as_str().is_empty() {
            put(&mut data, name, value);
        }
        k = k + 1;
    }
    assert(iv.take(inputs.len() as int) =~= iv);
    data
}

/// Read the SAML assertion form ADFS answers a good login with; a page
/// without `SAMLResponse` means the login was refused.
pub fn parse_saml_assertion(html: &str) -> (r: Result<(String, Vec<(String, String)>), Error>)
    ensures
        match spec_saml_assertion(html@) {
            Ok((a, d)) => r matches Ok((x, y)) && x@ == a && pairs_view(y@) == d,
            Err(m) => r matches Err(Error::Auth(x)) && x@ == m,
        },
{
    proof {
        reveal_strlit("form");
    }
    let form = match first_form(html, "form") {
        Some(f) => f,
        None => return Err(Error::Auth(crate::strs::owned("No form in SAML response (invalid credentials?)"))),
    };
    let action = match &form.0 {
        Some(a) => a.clone(),
        None => return Err(Error::Auth(crate::strs::owned("form action not found in SAML response"))),
    };
    let data = assertion_fields(&form.1);
    if !has_key_exec(&data, "SAMLResponse") {
        if crate::strs::contains_str(html, "The user name or password is incorrect") {
            return Err(Error::Auth(crate::strs::owned("Login failed: incorrect username or password")));
        }
        return Err(
            Error::Auth(
                crate::strs::owned(
                    "Login failed: ADFS returned the login form instead of a SAML assertion (unknown error)",
                ),
            ),
        );
    }
    Ok((action, data))
}

// ───────────────────────────── cookies ─────────────────────────────

/// The cookie a `Set-Cookie` header sets: the part before the first `;`,
/// split at its first `=`, both sides trimmed.
pub open spec fn cookie_of(header: Seq<char>) -> Option<(Seq<char>, Seq<char>)> {
    let kv = crate::attachments::cut_at(header, ';');
    match find_char_seq(kv, '=') {
        Some(j) => Some((spec_trim(kv.take(j)), spec_trim(kv.skip(j + 1)))),
        None => None,
    }
}

/// The cookies of the headers read so far, later ones replacing earlier.
pub open spec fn cookies_scan(headers: Seq<Seq<char>>) -> Seq<(Seq<char>, Seq<char>)>
    decreases headers.len(),
{
    if headers.len() == 0 {
        seq![]
    } else {
        let f = cookies_scan(headers.drop_last());
        match cookie_of(headers.last()) {
            Some((k, v)) => assoc_put(f, k, v),
            None => f,
        }
    }
}

/// The session cookies of Canvas's reply: `None` entries are headers that
/// are not valid text, which fails the login; so does a reply without any.
pub open spec fn spec_cookies(headers: Seq<Option<Seq<char>>>) -> Result<Seq<(Seq<char>, Seq<char>)>, Seq<char>> {
    if exists|i: int| 0 <= i < headers.len() && headers[i] is None {
        Err("invalid cookie header"@)
    } else {
        let cs = cookies_scan(headers.map_values(|h: Option<Seq<char>>| h->0));
        if cs.len() == 0 {
            Err("No cookies received from Canvas (login may have failed)"@)
        } else {
            Ok(cs)
        }
    }
}

/// Collect the cookies of Canvas's `Set-Cookie` headers.
pub fn extract_cookies(headers: &Vec<Option<String>>) -> (r: Result<Vec<(String, String)>, Error>)
    ensures
        match spec_cookies(headers@.map_values(|h: Option<String>| ostr(h))) {
            Ok(cs) => r matches Ok(v) && pairs_view(v@) == cs,
            Err(m) => r matches Err(Error::Auth(x)) && x@ == m,
        },
{
    let ghost hv = headers@.map_values(|h: Option<String>| ostr(h));
    let mut cookies: Vec<(String, String)> = Vec::new();
    let mut i: usize = 0;
    while i < headers.len()
        invariant
            i <= headers.len(),
            hv == headers@.map_values(|h: Option<String>| ostr(h)),
            forall|k: int| 0 <= k < i ==> hv[k] is Some,
            pairs_view(cookies@) == cookies_scan(hv.take(i as int).map_values(|h: Option<Seq<char>>| h->0)),
            keys_unique(pairs_view(cookies@)),
        decreases headers.len() - i,
    {
        let h = match &headers[i] {
            Some(h) => h,
            None => {
                assert(hv[i as int] is None);
                return Err(Error::Auth(crate::strs::owned("invalid cookie header")));
            },
        };
        proof {
            let t = hv.take(i + 1).map_values(|h: Option<Seq<char>>| h->0);
            assert(t.drop_last() =~= hv.take(i as int).map_values(|h: Option<Seq<char>>| h->0));
            assert(t.last() == h@);
        }
        let v = crate::strs::chars_of(h.as_str());
        let kv = match crate::strs::find_char(&v, ';') {
            Some(j) => crate::strs::sub_chars(&v, 0, j),
            None => v,
        };
        match crate::strs::find_char(&kv, '=') {
            Some(j) => {
                let name_part = crate::strs::sub_chars(&kv, 0, j);
                let value_part = crate::strs::sub_chars(&kv, j + 1, kv.len());
                assert(name_part@ =~= kv@.take(j as int));
                assert(value_part@ =~= kv@.skip(j + 1));
                let name = crate::strs::string_of(&crate::strs::trim_chars(&name_part));
                let value = crate::strs::string_of(&crate::strs::trim_chars(&value_part));
                put(&mut cookies, name, value);
            },
            None => {},
        }
        i = i + 1;
    }
    assert(hv.take(headers.len() as int) =~= hv);
    if cookies.len() == 0 {
        return Err(Error::Auth(crate::strs::owned("No cookies received from Canvas (login may have failed)")));
    }
    Ok(cookies)
}

// ───────────────────────────── the flow ─────────────────────────────

/// A request the login asks the caller to make.
#[derive(Debug, Clone)]
pub enum SamlRequest {
    /// GET `url` with this `Referer`, not following redirects; reply with
    /// the `Location` header.
    FetchRedirect { url: String, referer: String },
    /// GET the ADFS page with a cookie store; reply with its body.
    FetchAdfs(String),
    /// POST the form fields to `url` with the query parameters (form
    /// encoded, with the cookie store); reply with the body.
    PostCredentials { url: String, query: Vec<(String, String)>, form: Vec<(String, String)> },
    /// POST the assertion fields to `url`, not following redirects; reply
    /// with the `Set-Cookie` headers.
    PostAssertion { url: String, form: Vec<(String, String)> },
}

/// The caller's reply to a request.
#[derive(Debug, Clone)]
pub enum SamlReply {
    /// The `Location` header of the first reply, if any.
    Location(Option<String>),
    /// A page body.
    Body(String),
    /// The `Set-Cookie` headers; `None` where one is not valid text.
    SetCookies(Vec<Option<String>>),
    /// Sending failed, or (when `reading_body`) reading the body failed.
    Failed { reading_body: bool, message: String },
}

/// What the login does next.
#[derive(Debug, Clone)]
pub enum SamlNext {
    /// Make this request and reply.
    Send(SamlRequest),
    /// Logged in: the session cookies.
    Done(Vec<(String, String)>),
}

/// A login in progress.
#[derive(Debug, Clone)]
pub struct SamlLogin {
    /// 0: waiting for the redirect, 1: for the ADFS page, 2: for the answer
    /// to the credentials, 3: for the cookies.
    pub stage: u8,
    pub username: String,
    pub password: String,
}

/// The message prefix of a failure at a stage.
pub open spec fn failure_prefix(stage: u8, reading_body: bool) -> Seq<char> {
    if stage == 0 {
        "SAML redirect: "@
    } else if stage == 1 {
        if reading_body {
            "ADFS page body: "@
        } else {
            "ADFS page: "@
        }
    } else if stage == 2 {
        if reading_body {
            "SAML response body: "@
        } else {
            "ADFS post: "@
        }
    } else {
        "SAML assertion post: "@
    }
}

/// The reply kind a stage waits for.
pub open spec fn reply_fits(stage: u8, r: SamlReply) -> bool {
    match r {
        SamlReply::Failed { .. } => true,
        SamlReply::Location(_) => stage == 0,
        SamlReply::Body(_) => stage == 1 || stage == 2,
        SamlReply::SetCookies(_) => stage == 3,
    }
}

/// What one step does with a reply: the credentials are kept and the stage
/// stays below 4; a failure or a missing redirect ends the login with its
/// message; the redirect leads to the ADFS page; the ADFS page to the post of
/// the credentials into its form; the answer to the post of the assertion;
/// the cookies end the login.
pub open spec fn step_outcome(
    before: SamlLogin,
    reply: SamlReply,
    after: SamlLogin,
    r: Result<SamlNext, Error>,
) -> bool {
    &&& after.username == before.username
    &&& after.password == before.password
    &&& after.stage < 4
    &&& match reply {
        SamlReply::Failed { reading_body, message } => r matches Err(Error::Auth(m)) && m@
            == failure_prefix(before.stage, reading_body) + message@,
        SamlReply::Location(None) => r matches Err(Error::Auth(m)) && m@
            == "No redirect from /login/saml"@,
        SamlReply::Location(Some(u)) => after.stage == 1 && (r matches Ok(
            SamlNext::Send(SamlRequest::FetchAdfs(x)),
        ) && x@ == u@),
        SamlReply::Body(html) => if before.stage == 1 {
            match spec_adfs_form(html@) {
                Err(m) => r matches Err(Error::Auth(x)) && x@ == m,
                Ok((action, query, fields, acc, pass)) => {
                    &&& after.stage == 2
                    &&& r matches Ok(SamlNext::Send(SamlRequest::PostCredentials { url, query: q, form }))
                    &&& url@ == ADFS_POST_URL@
                    &&& pairs_view(q@) == query
                    &&& pairs_view(form@) == assoc_put(
                        assoc_put(fields, acc, before.username@),
                        pass,
                        before.password@,
                    )
                },
            }
        } else {
            match spec_saml_assertion(html@) {
                Err(m) => r matches Err(Error::Auth(x)) && x@ == m,
                Ok((a, d)) => after.stage == 3 && (r matches Ok(
                    SamlNext::Send(SamlRequest::PostAssertion { url, form }),
                ) && url@ == a && pairs_view(form@) == d),
            }
        },
        SamlReply::SetCookies(hs) => match spec_cookies(hs@.map_values(|h: Option<String>| ostr(h))) {
            Ok(cs) => r matches Ok(SamlNext::Done(v)) && pairs_view(v@) == cs,
            Err(m) => r matches Err(Error::Auth(x)) && x@ == m,
        },
    }
}

impl SamlLogin {
    /// Start a login: first ask Canvas where to go.
    pub fn start(username: String, password: String) -> (r: (SamlLogin, SamlRequest))
        ensures
            r.0.stage == 0,
            r.0.username@ == username@,
            r.0.password@ == password@,
            r.1 matches SamlRequest::FetchRedirect { url, referer } && url@ == BASE_URL@ + "/login/saml"@
                && referer@ == BASE_URL@ + "/login/portal"@,
    {
        let mut url = crate::strs::owned(BASE_URL);
        crate::strs::push_str(&mut url, "/login/saml");
        let mut referer = crate::strs::owned(BASE_URL);
        crate::strs::push_str(&mut referer, "/login/portal");
        (SamlLogin { stage: 0, username, password }, SamlRequest::FetchRedirect { url, referer })
    }

    /// Take the reply to the last request and decide what comes next.
    pub fn step(&mut self, reply: SamlReply) -> (r: Result<SamlNext, Error>)
        requires
            old(self).stage < 4,
            reply_fits(old(self).stage, reply),
        ensures
            step_outcome(*old(self), reply, *final(self), r),
    {
        match reply {
            SamlReply::Failed { reading_body, message } => {
                let prefix = if self.stage == 0 {
                    "SAML redirect: "
                } else if self.stage == 1 {
                    if reading_body {
                        "ADFS page body: "
                    } else {
                        "ADFS page: "
                    }
                } else if self.stage == 2 {
                    if reading_body {
                        "SAML response body: "
                    } else {
                        "ADFS post: "
                    }
                } else {
                    "SAML assertion post: "
                };
                let mut m = crate::strs::owned(prefix);
                crate::strs::push_str(&mut m, message.as_str());
                Err(Error::Auth(m))
            },
            SamlReply::Location(loc) => match loc {
                None => Err(Error::Auth(crate::strs::owned("No redirect from /login/saml"))),
                Some(u) => {
                    self.stage = 1;
                    Ok(SamlNext::Send(SamlRequest::FetchAdfs(u)))
                },
            },
            SamlReply::Body(html) => {
                if self.stage == 1 {
                    let form = match parse_adfs_form(html.as_str()) {
                        Ok(f) => f,
                        Err(e) => return Err(e),
                    };
                    let mut post = form.hidden_fields;
                    put(&mut post, form.username_field, self.username.clone());
                    put(&mut post, form.password_field, self.password.clone());
                    self.stage = 2;
                    Ok(
                        SamlNext::Send(
                            SamlRequest::PostCredentials {
                                url: crate::strs::owned(ADFS_POST_URL),
                                query: form.query_params,
                                form: post,
                            },
                        ),
                    )
                } else {
                    match parse_saml_assertion(html.as_str()) {
                        Ok((a, d)) => {
                            self.stage = 3;
                            Ok(SamlNext::Send(SamlRequest::PostAssertion { url: a, form: d }))
                        },
                        Err(e) => Err(e),
                    }
                }
            },
            SamlReply::SetCookies(hs) => match extract_cookies(&hs) {
                Ok(cs) => Ok(SamlNext::Done(cs)),
                Err(e) => Err(e),
            },
        }
    }
}

} // verus!

verus! {

/// A login whose four requests get the replies they ask for, none failing,
/// runs its stages in order and keeps the credentials: the redirect's target
/// is fetched, the credentials are filled into the ADFS form, the assertion
/// is posted where the answer says, and the cookies of the last reply end it.
pub proof fn law_login_runs_in_order(
    l0: SamlLogin,
    l1: SamlLogin,
    l2: SamlLogin,
    l3: SamlLogin,
    l4: SamlLogin,
    location: String,
    page: String,
    answer: String,
    headers: Vec<Option<String>>,
    r1: Result<SamlNext, Error>,
    r2: Result<SamlNext, Error>,
    r3: Result<SamlNext, Error>,
    r4: Result<SamlNext, Error>,
)
    requires
        l0.stage == 0,
        step_outcome(l0, SamlReply::Location(Some(location)), l1, r1),
        step_outcome(l1, SamlReply::Body(page), l2, r2),
        step_outcome(l2, SamlReply::Body(answer), l3, r3),
        step_outcome(l3, SamlReply::SetCookies(headers), l4, r4),
        spec_adfs_form(page@) is Ok,
        spec_saml_assertion(answer@) is Ok,
    ensures
        l1.stage == 1 && l2.stage == 2 && l3.stage == 3,
        l4.username == l0.username && l4.password == l0.password,
        r1 matches Ok(SamlNext::Send(SamlRequest::FetchAdfs(x))) && x@ == location@,
        spec_adfs_form(page@) matches Ok((_, query, fields, acc, pass)) ==> (r2 matches Ok(
            SamlNext::Send(SamlRequest::PostCredentials { url, query: q, form }),
        ) && url@ == ADFS_POST_URL@ && pairs_view(q@) == query && pairs_view(form@) == assoc_put(
            assoc_put(fields, acc, l0.username@),
            pass,
            l0.password@,
        )),
        spec_saml_assertion(answer@) matches Ok((a, d)) ==> (r3 matches Ok(
            SamlNext::Send(SamlRequest::PostAssertion { url, form }),
        ) && url@ == a && pairs_view(form@) == d),
        spec_cookies(headers@.map_values(|h: Option<String>| ostr(h))) matches Ok(cs) ==> (r4 matches Ok(
            SamlNext::Done(v),
        ) && pairs_view(v@) == cs),
        spec_cookies(headers@.map_values(|h: Option<String>| ostr(h))) matches Err(m) ==> (r4 matches Err(
            Error::Auth(x),
        ) && x@ == m),
{
}

} // verus!
