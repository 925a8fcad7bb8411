//! What the TUI's screens show: relative times, file sizes, cleaned-up
//! HTML, and the lines of the login form, the course panels and the detail
//! pop-ups. Drawing them is left to the terminal front end.

use vstd::prelude::*;

use crate::assignments::{ts_valid, Timestamp};
use crate::num::{dec_int, digit_char};
use crate::strs::spec_trim;
use crate::text::replaced;
use crate::modules::text_or;
use crate::strs::join_seqs;
use crate::tui::{urgency_of, CourseViewState, Urgency};
use crate::tui_app::{hours_until, secs_until, trunc_div, App};

verus! {

// ───────────────────────────── dates ─────────────────────────────

/// What `chrono::DateTime::<Utc>::from_timestamp(secs, nanos)` formatted with
/// `pattern` prints; it depends on the three arguments alone.
pub uninterp spec fn spec_utc_format(secs: i64, nanos: u32, pattern: Seq<char>) -> Seq<char>;

/// Formats a UTC timestamp with chrono's `format`, for the three patterns
/// the screens and listings use (all valid, so formatting cannot fail).
#[verifier::external_body]
pub(crate) fn utc_format(t: Timestamp, pattern: &str) -> (r: String)
    requires
        ts_valid(t),
        pattern@ == "%m/%d"@ || pattern@ == "%m/%d %H:%M"@ || pattern@ == "%Y-%m-%d %H:%M"@,
    ensures
        r@ == spec_utc_format(t.secs, t.nanos, pattern@),
{
    chrono::DateTime::from_timestamp(t.secs, t.nanos).unwrap().format(pattern).to_string()
}

/// How long ago `dt` was, as of `now`: `just now` under a minute, then
/// minutes, hours (under a day) and days (under a week); older dates show as
/// `MM/DD`.
pub open spec fn ago_text(dt: Timestamp, now: Timestamp) -> Seq<char> {
    let d = secs_until(now, dt);
    if trunc_div(d, 60) < 1 {
        "just now"@
    } else if trunc_div(d, 3600) < 1 {
        dec_int(trunc_div(d, 60)) + "m ago"@
    } else if trunc_div(d, 3600) < 24 {
        dec_int(trunc_div(d, 3600)) + "h ago"@
    } else if trunc_div(d, 86400) < 7 {
        dec_int(trunc_div(d, 86400)) + "d ago"@
    } else {
        spec_utc_format(dt.secs, dt.nanos, "%m/%d"@)
    }
}

/// A past duration in its largest whole unit: days, else hours, else
/// minutes.
pub open spec fn short_duration(secs: int) -> Seq<char> {
    if trunc_div(secs, 86400) > 0 {
        dec_int(trunc_div(secs, 86400)) + "d"@
    } else if trunc_div(secs, 3600) > 0 {
        dec_int(trunc_div(secs, 3600)) + "h"@
    } else {
        dec_int(trunc_div(secs, 60)) + "m"@
    }
}

/// A due date as seen from `now`: how long overdue, `in Hh Mm` within a
/// day, `in Nd` within a week, else `MM/DD HH:MM`.
pub open spec fn due_text(dt: Timestamp, now: Timestamp) -> Seq<char> {
    let s = secs_until(dt, now);
    if s < 0 {
        short_duration(secs_until(now, dt)) + " overdue"@
    } else if s / 3600 < 24 {
        "in "@ + dec_int(s / 3600) + "h "@ + dec_int((s / 60) % 60) + "m"@
    } else if s / 86400 < 7 {
        "in "@ + dec_int(s / 86400) + "d"@
    } else {
        spec_utc_format(dt.secs, dt.nanos, "%m/%d %H:%M"@)
    }
}

/// `label` followed by the decimal text of `n`.
fn with_number(label: &str, n: i64, suffix: &str) -> (r: String)
    ensures
        r@ == label@ + dec_int(n as int) + suffix@,
{
    let mut r = crate::strs::owned(label);
    crate::num::push_dec_i64(&mut r, n);
    crate::strs::push_str(&mut r, suffix);
    r
}

/// Format a datetime as a relative/short string (see `ago_text`).
pub fn format_datetime(dt: Timestamp, now: Timestamp) -> (r: String)
    requires
        ts_valid(dt),
        ts_valid(now),
    ensures
        r@ == ago_text(dt, now),
{
    proof {
        reveal_strlit("");
    }
    let d = crate::tui_app::whole_secs(now, dt);
    let minutes = crate::tui_app::trunc_div_i64(d, 60);
    let hours = crate::tui_app::trunc_div_i64(d, 3600);
    let days = crate::tui_app::trunc_div_i64(d, 86400);
    if minutes < 1 {
        crate::strs::owned("just now")
    } else if hours < 1 {
        with_number("", minutes, "m ago")
    } else if hours < 24 {
        with_number("", hours, "h ago")
    } else if days < 7 {
        with_number("", days, "d ago")
    } else {
        proof {
            reveal_strlit("%m/%d");
            reveal_strlit("%m/%d %H:%M");
        }
        utc_format(dt, "%m/%d")
    }
}

/// A past duration in its largest whole unit (see `short_duration`).
pub fn format_duration_short(secs: i64) -> (r: String)
    requires
        secs > i64::MIN,
    ensures
        r@ == short_duration(secs as int),
{
    proof {
        reveal_strlit("");
    }
    let days = crate::tui_app::trunc_div_i64(secs, 86400);
    let hours = crate::tui_app::trunc_div_i64(secs, 3600);
    if days > 0 {
        with_number("", days, "d")
    } else if hours > 0 {
        with_number("", hours, "h")
    } else {
        with_number("", crate::tui_app::trunc_div_i64(secs, 60), "m")
    }
}

/// Format a due date with urgency (see `due_text`).
pub fn format_due_date(dt: Timestamp, now: Timestamp) -> (r: String)
    requires
        ts_valid(dt),
        ts_valid(now),
    ensures
        r@ == due_text(dt, now),
{
    proof {
        reveal_strlit("");
    }
    let s = crate::tui_app::whole_secs(dt, now);
    if s < 0 {
        let past = crate::tui_app::whole_secs(now, dt);
        let mut r = format_duration_short(past);
        crate::strs::push_str(&mut r, " overdue");
        r
    } else if s / 3600 < 24 {
        let mut r = with_number("in ", s / 3600, "h ");
        crate::num::push_dec_i64(&mut r, (s / 60) % 60);
        crate::strs::push_str(&mut r, "m");
        r
    } else if s / 86400 < 7 {
        with_number("in ", s / 86400, "d")
    } else {
        proof {
            reveal_strlit("%m/%d");
            reveal_strlit("%m/%d %H:%M");
        }
        utc_format(dt, "%m/%d %H:%M")
    }
}

// ───────────────────────────── file sizes ─────────────────────────────

/// The number of binary digits of `b` (0 for 0).
pub open spec fn bit_len(b: nat) -> nat
    decreases b,
{
    if b == 0 {
        0
    } else {
        1 + bit_len(b / 2)
    }
}

/// `2^k`.
pub open spec fn pow2(k: nat) -> nat
    decreases k,
{
    if k == 0 {
        1
    } else {
        2 * pow2((k - 1) as nat)
    }
}

/// `n / m` rounded to the nearest integer, ties to the even one.
pub open spec fn div_round_even(n: nat, m: nat) -> nat {
    let q = n / m;
    let r = n % m;
    if 2 * r > m || (2 * r == m && q % 2 == 1) {
        q + 1
    } else {
        q
    }
}

/// The value `b as f64` holds: `b` rounded to 53 significant bits, ties to
/// even.
pub open spec fn as_f64(b: nat) -> nat {
    if bit_len(b) <= 53 {
        b
    } else {
        let k = (bit_len(b) - 53) as nat;
        div_round_even(b, pow2(k)) * pow2(k)
    }
}

/// `x / unit` in tenths, rounded as `{:.1}` rounds: to nearest, ties to
/// even.
pub open spec fn tenths(x: nat, unit: nat) -> nat {
    div_round_even(10 * x, unit)
}

/// A number of tenths written with one decimal.
pub open spec fn one_decimal(t: nat) -> Seq<char> {
    crate::num::dec_nat(t / 10) + "."@ + seq![digit_char((t % 10) as int)]
}

/// A file size in human-readable form: bytes under 1 KiB, else KB, MB or GB
/// (binary units) with one decimal, as the floating-point division prints.
pub open spec fn size_text(bytes: Option<i64>) -> Seq<char> {
    match bytes {
        None => "-"@,
        Some(b) => if b < 1024 {
            dec_int(b as int) + " B"@
        } else if b < 1048576 {
            one_decimal(tenths(as_f64(b as nat), 1024)) + " KB"@
        } else if b < 1073741824 {
            one_decimal(tenths(as_f64(b as nat), 1048576)) + " MB"@
        } else {
            one_decimal(tenths(as_f64(b as nat), 1073741824)) + " GB"@
        },
    }
}

/// Numbers below `2^k` have at most `k` binary digits.
proof fn lemma_bit_len_bound(x: nat, k: nat)
    requires
        x < pow2(k),
    ensures
        bit_len(x) <= k,
    decreases k,
{
    if k > 0 && x > 0 {
        lemma_bit_len_bound(x / 2, (k - 1) as nat);
    }
}

/// `n / m` rounded to nearest, ties to even.
fn div_round_even_u128(n: u128, m: u128) -> (r: u128)
    requires
        m >= 2,
    ensures
        r == div_round_even(n as nat, m as nat),
        r <= (n as int) / (m as int) + 1,
{
    let q = n / m;
    let r = n % m;
    proof {
        vstd::arithmetic::div_mod::lemma_div_is_ordered_by_denominator(n as int, 2, m as int);
    }
    if (r > m - r) || (r == m - r && q % 2 == 1) {
        q + 1
    } else {
        q
    }
}

/// The value `b as f64` holds (see `as_f64`).
fn f64_value(b: u64) -> (r: u128)
    requires
        b < 0x8000_0000_0000_0000,
    ensures
        r == as_f64(b as nat),
        r <= 0x8000_0000_0000_0000,
{
    let mut x = b;
    let mut n: u64 = 0;
    proof {
        lemma_pow2_63();
        lemma_bit_len_bound(b as nat, 63);
    }
    while x > 0
        invariant
            bit_len(b as nat) == n + bit_len(x as nat),
            bit_len(b as nat) <= 63,
        decreases x,
    {
        x = x / 2;
        n = n + 1;
    }
    if n <= 53 {
        return b as u128;
    }
    let k = n - 53;
    let mut m: u128 = 1;
    let mut j: u64 = 0;
    while j < k
        invariant
            j <= k <= 10,
            m == pow2(j as nat),
            1 <= m <= 1024,
            j > 0 ==> m >= 2,
        decreases k - j,
    {
        proof {
            lemma_pow2_10();
            lemma_pow2_mono(j as nat + 1, 10);
        }
        m = m * 2;
        j = j + 1;
    }
    let q = div_round_even_u128(b as u128, m);
    proof {
        assert(q <= (b as int) / (m as int) + 1);
        assert(q * m <= b + m) by (nonlinear_arith)
            requires
                q <= (b as int) / (m as int) + 1,
                m > 0,
                b >= 0,
        {
            assert((b as int) / (m as int) * (m as int) <= b) by {
                vstd::arithmetic::div_mod::lemma_fundamental_div_mod(b as int, m as int);
            }
        }
        assert(b + m <= 0x8000_0000_0000_0000 + 1024);
        lemma_rounded_bound(b as nat, k as nat);
    }
    q * m
}

/// `2^10`.
proof fn lemma_pow2_10()
    ensures
        pow2(10) == 1024,
{
    reveal_with_fuel(pow2, 11);
}

/// `2^63`.
proof fn lemma_pow2_63()
    ensures
        pow2(63) == 0x8000_0000_0000_0000,
{
    lemma_pow2_10();
    lemma_pow2_add(10, 10);
    assert(pow2(20) == 1048576);
    lemma_pow2_add(20, 20);
    assert(pow2(40) == 1099511627776);
    lemma_pow2_add(40, 20);
    assert(pow2(60) == 1152921504606846976);
    reveal_with_fuel(pow2, 4);
    assert(pow2(63) == 8 * pow2(60));
}

/// `2^a <= 2^b` for `a <= b`.
proof fn lemma_pow2_mono(a: nat, b: nat)
    requires
        a <= b,
    ensures
        pow2(a) <= pow2(b),
    decreases b,
{
    if a < b {
        lemma_pow2_mono(a, (b - 1) as nat);
    }
}

/// A number of 63 bits rounded to 53 stays within `2^63`.
proof fn lemma_rounded_bound(b: nat, k: nat)
    requires
        b < 0x8000_0000_0000_0000,
        bit_len(b) == k + 53,
        k <= 10,
    ensures
        div_round_even(b, pow2(k)) * pow2(k) <= 0x8000_0000_0000_0000,
{
    lemma_bit_len_upper(b);
    let m = pow2(k);
    lemma_pow2_pos(k);
    let q = b / m;
    let r = b % m;
    vstd::arithmetic::div_mod::lemma_fundamental_div_mod(b as int, m as int);
    lemma_pow2_add(k, 53);
    // b < 2^(k+53), so q < 2^53 and the rounded quotient is at most 2^53
    let p53 = pow2(53);
    assert(b < p53 * m);
    assert(q < p53) by (nonlinear_arith)
        requires
            b == m * q + r,
            r >= 0,
            b < p53 * m,
            m > 0,
            q >= 0,
    ;
    assert(div_round_even(b, m) <= pow2(53));
    assert(div_round_even(b, m) * m <= pow2(53) * m) by (nonlinear_arith)
        requires
            div_round_even(b, m) <= pow2(53),
            m > 0,
    ;
    assert(pow2(53) * m == pow2(k + 53));
    lemma_pow2_mono(k + 53, 63);
    lemma_pow2_63();
}

/// `b < 2^bit_len(b)`.
proof fn lemma_bit_len_upper(b: nat)
    ensures
        b < pow2(bit_len(b)),
    decreases b,
{
    if b > 0 {
        lemma_bit_len_upper(b / 2);
    }
}

/// Powers of two are positive.
proof fn lemma_pow2_pos(k: nat)
    ensures
        pow2(k) > 0,
    decreases k,
{
    if k > 0 {
        lemma_pow2_pos((k - 1) as nat);
    }
}

/// `2^a * 2^b == 2^(a+b)`.
proof fn lemma_pow2_add(a: nat, b: nat)
    ensures
        pow2(a) * pow2(b) == pow2(a + b),
    decreases a,
{
    if a > 0 {
        lemma_pow2_add((a - 1) as nat, b);
        assert(pow2(a) == 2 * pow2((a - 1) as nat));
        assert(pow2(a) * pow2(b) == 2 * (pow2((a - 1) as nat) * pow2(b))) by (nonlinear_arith)
            requires
                pow2(a) == 2 * pow2((a - 1) as nat),
        ;
        assert(((a - 1) as nat + b) as nat == (a + b - 1) as nat);
        assert(pow2(a + b) == 2 * pow2((a + b - 1) as nat));
    } else {
        assert(pow2(a) == 1);
        assert(pow2(a) * pow2(b) == pow2(b)) by (nonlinear_arith)
            requires
                pow2(a) == 1,
        ;
    }
}

/// `x / unit` with one decimal and a unit name.
fn scaled(x: u128, unit: u128, name: &str) -> (r: String)
    requires
        x <= 0x8000_0000_0000_0000,
        unit >= 1024,
    ensures
        r@ == one_decimal(tenths(x as nat, unit as nat)) + name@,
{
    let t = div_round_even_u128(10 * x, unit);
    proof {
        let tx = (10 * x) as int;
        assert(t <= tx / (unit as int) + 1);
        assert(tx / (unit as int) <= tx / 1024) by {
            vstd::arithmetic::div_mod::lemma_div_is_ordered_by_denominator(tx, 1024, unit as int);
        }
    }
    let mut r = String::new();
    crate::num::push_dec_u64(&mut r, (t / 10) as u64);
    crate::strs::push_str(&mut r, ".");
    let d = (t % 10) as u8;
    crate::strs::push_char(&mut r, (48u8 + d) as char);
    crate::strs::push_str(&mut r, name);
    proof {
        reveal_strlit(".");
        assert(((48u8 + d) as char) == digit_char((t % 10) as int));
    }
    r
}

/// Format file size in human-readable form (see `size_text`).
pub fn format_size(bytes: Option<i64>) -> (r: String)
    ensures
        r@ == size_text(bytes),
{
    match bytes {
        None => crate::strs::owned("-"),
        Some(b) => {
            if b < 1024 {
                let mut r = crate::num::i64_to_string(b);
                crate::strs::push_str(&mut r, " B");
                r
            } else {
                let x = f64_value(b as u64);
                if b < 1048576 {
                    scaled(x, 1024, " KB")
                } else if b < 1073741824 {
                    scaled(x, 1048576, " MB")
                } else {
                    scaled(x, 1073741824, " GB")
                }
            }
        },
    }
}

// ───────────────────────────── HTML for the detail pop-ups ─────────────────────────────

/// The replacements that keep some of an HTML text's structure once its tags
/// are removed: line breaks for block ends, a dash for list items, a rule for
/// `<hr>`, a bar between table cells.
pub open spec fn block_table() -> Seq<(Seq<char>, Seq<char>)> {
    seq![
        ("<br>"@, "\n"@),
        ("<br/>"@, "\n"@),
        ("<br />"@, "\n"@),
        ("</p>"@, "\n\n"@),
        ("</div>"@, "\n"@),
        ("</li>"@, "\n"@),
        ("<li>"@, "  - "@),
        ("</h1>"@, "\n"@),
        ("</h2>"@, "\n"@),
        ("</h3>"@, "\n"@),
        ("</h4>"@, "\n"@),
        ("<hr>"@, "\n────────────────────\n"@),
        ("<hr/>"@, "\n────────────────────\n"@),
        ("</tr>"@, "\n"@),
        ("</td>"@, " | "@),
        ("</th>"@, " | "@),
    ]
}

/// The first `n` replacements of a table, applied in order.
pub open spec fn apply_all(s: Seq<char>, table: Seq<(Seq<char>, Seq<char>)>, n: int) -> Seq<char>
    decreases n,
{
    if n <= 0 {
        s
    } else {
        replaced(apply_all(s, table, n - 1), table[n - 1].0, table[n - 1].1)
    }
}

/// What `regex::Regex::new(pattern)` then `replace_all(text, rep)` returns;
/// it depends on the three strings alone.
pub uninterp spec fn spec_regex_replace(pattern: Seq<char>, text: Seq<char>, rep: Seq<char>) -> Seq<
    char,
>;

/// `regex::Regex::replace_all` for the two patterns used here, both valid,
/// with replacements that hold no `$` group reference.
#[verifier::external_body]
fn regex_replace_all(pattern: &str, text: &str, rep: &str) -> (r: String)
    requires
        pattern@ == "<[^>]+>"@ || pattern@ == r"\n{3,}"@,
    ensures
        r@ == spec_regex_replace(pattern@, text@, rep@),
{
    regex::Regex::new(pattern).unwrap().replace_all(text, rep).to_string()
}

/// What `html_escape::decode_html_entities` returns; it depends on the text
/// alone.
pub uninterp spec fn spec_decode_entities(text: Seq<char>) -> Seq<char>;

/// `html_escape::decode_html_entities`.
#[verifier::external_body]
fn decode_entities(text: &str) -> (r: String)
    ensures
        r@ == spec_decode_entities(text@),
{
    html_escape::decode_html_entities(text).to_string()
}

/// HTML made readable: block ends become line breaks, tags are removed,
/// entities decoded, runs of three or more line breaks shortened to two, and
/// the result trimmed.
pub open spec fn stripped_html(html: Seq<char>) -> Seq<char> {
    let structured = apply_all(html, block_table(), 16);
    let untagged = spec_regex_replace("<[^>]+>"@, structured, ""@);
    spec_trim(spec_regex_replace(r"\n{3,}"@, spec_decode_entities(untagged), "\n\n"@))
}

/// The patterns of `block_table` are not empty.
proof fn lemma_block_patterns()
    ensures
        block_table().len() == 16,
        forall|i: int| 0 <= i < 16 ==> (#[trigger] block_table()[i]).0.len() > 0,
{
    reveal_strlit("<br>");
    reveal_strlit("<br/>");
    reveal_strlit("<br />");
    reveal_strlit("</p>");
    reveal_strlit("</div>");
    reveal_strlit("</li>");
    reveal_strlit("<li>");
    reveal_strlit("</h1>");
    reveal_strlit("</h2>");
    reveal_strlit("</h3>");
    reveal_strlit("</h4>");
    reveal_strlit("<hr>");
    reveal_strlit("<hr/>");
    reveal_strlit("</tr>");
    reveal_strlit("</td>");
    reveal_strlit("</th>");
}

/// Strip HTML tags from a string, preserving some structure (see
/// `stripped_html`).
pub fn strip_html(html: &str) -> (r: String)
    ensures
        r@ == stripped_html(html@),
{
    let table: Vec<(&str, &str)> = vec![
        ("<br>", "\n"),
        ("<br/>", "\n"),
        ("<br />", "\n"),
        ("</p>", "\n\n"),
        ("</div>", "\n"),
        ("</li>", "\n"),
        ("<li>", "  - "),
        ("</h1>", "\n"),
        ("</h2>", "\n"),
        ("</h3>", "\n"),
        ("</h4>", "\n"),
        ("<hr>", "\n────────────────────\n"),
        ("<hr/>", "\n────────────────────\n"),
        ("</tr>", "\n"),
        ("</td>", " | "),
        ("</th>", " | "),
    ];
    proof {
        lemma_block_patterns();
        assert forall|i: int| 0 <= i < 16 implies (#[trigger] table@[i]).0@ == block_table()[i].0
            && table@[i].1@ == block_table()[i].1 by {}
    }
    let mut cur = crate::strs::owned(html);
    let mut i: usize = 0;
    while i < table.len()
        invariant
            i <= table.len() == 16,
            block_table().len() == 16,
            forall|j: int| 0 <= j < 16 ==> (#[trigger] block_table()[j]).0.len() > 0,
            forall|j: int|
                0 <= j < 16 ==> (#[trigger] table@[j]).0@ == block_table()[j].0 && table@[j].1@
                    == block_table()[j].1,
            cur@ == apply_all(html@, block_table(), i as int),
        decreases table.len() - i,
    {
        let (pat, rep) = table[i];
        assert(block_table()[i as int].0.len() > 0);
        cur = crate::text::replace_all(cur.as_str(), pat, rep);
        i = i + 1;
    }
    proof {
        reveal_strlit("<[^>]+>");
        reveal_strlit(r"\n{3,}");
    }
    let untagged = regex_replace_all("<[^>]+>", cur.as_str(), "");
    let decoded = decode_entities(untagged.as_str());
    let collapsed = regex_replace_all(r"\n{3,}", decoded.as_str(), "\n\n");
    crate::strs::trim(collapsed.as_str())
}

// ───────────────────────────── login form ─────────────────────────────

/// `n` asterisks.
pub open spec fn stars(n: nat) -> Seq<char> {
    Seq::new(n, |i: int| '*')
}

/// The number of bytes of a character in UTF-8.
pub open spec fn utf8_width(c: char) -> nat {
    let u = c as u32;
    if u < 0x80 {
        1
    } else if u < 0x800 {
        2
    } else if u < 0x10000 {
        3
    } else {
        4
    }
}

/// The number of bytes of a text in UTF-8 (`str::len`).
pub open spec fn byte_len(s: Seq<char>) -> nat
    decreases s.len(),
{
    if s.len() == 0 {
        0
    } else {
        byte_len(s.drop_last()) + utf8_width(s.last())
    }
}

/// The number of bytes of a character in UTF-8.
fn utf8_width_of(c: char) -> (r: u128)
    ensures
        r == utf8_width(c),
{
    let u = c as u32;
    if u < 0x80 {
        1
    } else if u < 0x800 {
        2
    } else if u < 0x10000 {
        3
    } else {
        4
    }
}

/// The number of bytes of a text in UTF-8.
pub fn byte_count_of(s: &str) -> (r: u128)
    ensures
        r == byte_len(s@),
        r <= 4 * usize::MAX,
{
    let v = crate::strs::chars_of(s);
    let mut n: u128 = 0;
    let mut i: usize = 0;
    while i < v.len()
        invariant
            i <= v.len(),
            n == byte_len(v@.take(i as int)),
            n <= 4 * i,
        decreases v.len() - i,
    {
        assert(v@.take(i + 1).drop_last() =~= v@.take(i as int));
        n = n + utf8_width_of(v[i]);
        i = i + 1;
    }
    assert(v@.take(v.len() as int) =~= v@);
    n
}

/// What the login form shows.
#[derive(Debug, Clone)]
pub struct LoginView {
    /// The username box: the username, with a cursor when focused.
    pub username_line: String,
    /// The password box: one `*` per byte of the password, with a cursor
    /// when focused.
    pub password_line: String,
    pub username_focused: bool,
    pub password_focused: bool,
    /// The status line: logging in, or the key hints.
    pub status_line: String,
    /// The last login error, indented.
    pub error_line: Option<String>,
}

/// The cursor shown in a focused field.
pub open spec fn cursor(focused: bool) -> Seq<char> {
    if focused {
        "|"@
    } else {
        ""@
    }
}

/// The login form's status line.
pub open spec fn login_status(loading: bool) -> Seq<char> {
    if loading {
        "  Authenticating via SAML..."@
    } else {
        "  Press Enter to login  |  Tab to switch fields  |  Esc to quit"@
    }
}

/// A string option, by its view.
pub open spec fn opt_text(o: Option<String>) -> Option<Seq<char>> {
    match o {
        Some(s) => Some(s@),
        None => None,
    }
}

/// What the login form shows for an app state.
pub fn login_view(app: &App) -> (v: LoginView)
    ensures
        v.username_focused == (app.login_field == 0),
        v.password_focused == (app.login_field == 1),
        v.username_line@ == " "@ + app.login_username@ + cursor(app.login_field == 0),
        v.password_line@ == " "@ + stars(byte_len(app.login_password@)) + cursor(
            app.login_field == 1,
        ),
        v.status_line@ == login_status(app.login_loading),
        opt_text(v.error_line) == match app.login_error {
            Some(e) => Some("  "@ + e@),
            None => None,
        },
{
    proof {
        reveal_strlit("");
    }
    let mut username_line = crate::strs::owned(" ");
    crate::strs::push_str(&mut username_line, app.login_username.as_str());
    if app.login_field == 0 {
        crate::strs::push_str(&mut username_line, "|");
    }
    let n = byte_count_of(app.login_password.as_str());
    let mut password_line = crate::strs::owned(" ");
    let mut i: u128 = 0;
    while i < n
        invariant
            i <= n,
            password_line@ == " "@ + stars(i as nat),
        decreases n - i,
    {
        crate::strs::push_char(&mut password_line, '*');
        assert(" "@ + stars((i + 1) as nat) =~= (" "@ + stars(i as nat)).push('*'));
        i = i + 1;
    }
    if app.login_field == 1 {
        crate::strs::push_str(&mut password_line, "|");
    }
    let status_line = if app.login_loading {
        crate::strs::owned("  Authenticating via SAML...")
    } else {
        crate::strs::owned("  Press Enter to login  |  Tab to switch fields  |  Esc to quit")
    };
    let error_line = match &app.login_error {
        Some(e) => {
            let mut l = crate::strs::owned("  ");
            crate::strs::push_str(&mut l, e.as_str());
            Some(l)
        },
        None => None,
    };
    LoginView {
        username_line,
        password_line,
        username_focused: app.login_field == 0,
        password_focused: app.login_field == 1,
        status_line,
        error_line,
    }
}

// ───────────────────────────── detail pop-ups ─────────────────────────────

/// The lines `textwrap::wrap(text, width)` gives; they depend on the text
/// and the width alone.
pub uninterp spec fn spec_wrap(text: Seq<char>, width: usize) -> Seq<Seq<char>>;

/// `textwrap::wrap`, each line as an owned string.
#[verifier::external_body]
fn wrap_lines(text: &str, width: usize) -> (r: Vec<String>)
    ensures
        r@.map_values(|l: String| l@) == spec_wrap(text@, width),
{
    textwrap::wrap(text, width).into_iter().map(|l| l.into_owned()).collect()
}

/// The body of a detail pop-up: the HTML made readable, or a placeholder
/// when there is none.
pub open spec fn body_text(html: Option<String>, placeholder: Seq<char>) -> Seq<char> {
    match html {
        Some(h) => stripped_html(h@),
        None => placeholder,
    }
}

/// The readable body of a detail pop-up (see `body_text`).
pub fn detail_body(html: &Option<String>, placeholder: &str) -> (r: String)
    ensures
        r@ == body_text(*html, placeholder@),
{
    match html {
        Some(h) => strip_html(h.as_str()),
        None => crate::strs::owned(placeholder),
    }
}

/// The lines of a detail body shown in a box `width` columns wide and
/// `visible` rows high, scrolled down by `scroll` lines: the text wrapped to
/// the width less four columns, each line indented by two.
pub open spec fn body_window(text: Seq<char>, width: usize, scroll: usize, visible: usize) -> Seq<
    Seq<char>,
> {
    let lines = spec_wrap(text, (width - 4) as usize).map_values(|l: Seq<char>| "  "@ + l);
    let from = if scroll <= lines.len() {
        scroll as int
    } else {
        lines.len() as int
    };
    let to = if from + visible <= lines.len() {
        from + visible
    } else {
        lines.len() as int
    };
    lines.subrange(from, to)
}

/// The visible lines of a detail body (see `body_window`).
pub fn detail_window(text: &str, width: usize, scroll: usize, visible: usize) -> (r: Vec<String>)
    requires
        width >= 4,
    ensures
        r@.map_values(|l: String| l@) == body_window(text@, width, scroll, visible),
{
    let wrapped = wrap_lines(text, width - 4);
    let ghost lines = spec_wrap(text@, (width - 4) as usize).map_values(|l: Seq<char>| "  "@ + l);
    let n = wrapped.len();
    let from = if scroll <= n {
        scroll
    } else {
        n
    };
    let to = if visible <= n - from {
        from + visible
    } else {
        n
    };
    let mut r: Vec<String> = Vec::new();
    let mut i = from;
    while i < to
        invariant
            from <= i <= to <= n == wrapped.len(),
            lines == spec_wrap(text@, (width - 4) as usize).map_values(|l: Seq<char>| "  "@ + l),
            wrapped@.map_values(|l: String| l@) == spec_wrap(text@, (width - 4) as usize),
            r@.map_values(|l: String| l@) == lines.subrange(from as int, i as int),
        decreases to - i,
    {
        let mut l = crate::strs::owned("  ");
        crate::strs::push_str(&mut l, wrapped[i].as_str());
        let ghost before = r@;
        r.push(l);
        assert(r@.map_values(|l: String| l@) =~= before.map_values(|l: String| l@).push(l@));
        assert(lines.subrange(from as int, i + 1) =~= lines.subrange(from as int, i as int).push(
            lines[i as int],
        ));
        i = i + 1;
    }
    r
}

/// The facts an assignment pop-up shows.
#[derive(Debug, Clone)]
pub struct AssignmentMeta {
    pub due: String,
    pub points: String,
    pub status: String,
    pub submission_types: String,
}

/// The due line of an assignment: how it stands as of `now`, or `No due
/// date`.
pub open spec fn due_line(due_at: Option<Timestamp>, now: Timestamp) -> Seq<char> {
    match due_at {
        Some(d) => due_text(d, now),
        None => "No due date"@,
    }
}

/// The facts of an assignment pop-up: due date, points (`<p> pts`, from
/// the number as printed, else `No points`), whether something was
/// submitted, and the submission types joined by commas.
pub fn assignment_meta(
    due_at: Option<Timestamp>,
    now: Timestamp,
    points: &Option<String>,
    has_submitted: Option<bool>,
    submission_types: &Option<Vec<String>>,
) -> (m: AssignmentMeta)
    requires
        ts_valid(now),
        due_at matches Some(d) ==> ts_valid(d),
    ensures
        m.due@ == due_line(due_at, now),
        m.points@ == match points {
            Some(p) => p@ + " pts"@,
            None => "No points"@,
        },
        m.status@ == if has_submitted == Some(true) {
            "Submitted"@
        } else {
            "Not submitted"@
        },
        m.submission_types@ == match submission_types {
            Some(v) => join_seqs(v@.map_values(|t: String| t@), ", "@),
            None => ""@,
        },
{
    proof {
        reveal_strlit("");
    }
    let due = match due_at {
        Some(d) => format_due_date(d, now),
        None => crate::strs::owned("No due date"),
    };
    let pts = match points {
        Some(p) => {
            let mut t = crate::strs::owned(p.as_str());
            crate::strs::push_str(&mut t, " pts");
            t
        },
        None => crate::strs::owned("No points"),
    };
    let status = if has_submitted == Some(true) {
        crate::strs::owned("Submitted")
    } else {
        crate::strs::owned("Not submitted")
    };
    let types = match submission_types {
        Some(v) => crate::strs::join_strings(v, ", "),
        None => String::new(),
    };
    AssignmentMeta { due, points: pts, status, submission_types: types }
}

/// The facts an announcement or discussion pop-up shows.
#[derive(Debug, Clone)]
pub struct TopicMeta {
    /// ` Announcement: ` or ` Discussion: `.
    pub kind: String,
    pub title: String,
    pub author: String,
    pub posted: String,
    pub replies: String,
    /// `  (<n> unread)` when some entries are unread.
    pub unread: Option<String>,
}

/// The facts of a topic pop-up: its kind, title (`Untitled` when absent),
/// author (`Unknown`), when it was posted (relative to `now`, empty when
/// unknown), its reply count (0 when unknown) and, when positive, its unread
/// count.
pub fn topic_meta(
    is_announcement: bool,
    title: &Option<String>,
    author: &Option<String>,
    posted_at: Option<Timestamp>,
    now: Timestamp,
    reply_count: Option<i64>,
    unread_count: Option<i64>,
) -> (m: TopicMeta)
    requires
        ts_valid(now),
        posted_at matches Some(p) ==> ts_valid(p),
    ensures
        m.kind@ == if is_announcement {
            " Announcement: "@
        } else {
            " Discussion: "@
        },
        m.title@ == text_or(*title, "Untitled"@),
        m.author@ == text_or(*author, "Unknown"@),
        m.posted@ == match posted_at {
            Some(p) => ago_text(p, now),
            None => ""@,
        },
        m.replies@ == dec_int(
            match reply_count {
                Some(n) => n as int,
                None => 0,
            },
        ),
        opt_text(m.unread) == match unread_count {
            Some(u) => if u > 0 {
                Some("  ("@ + dec_int(u as int) + " unread)"@)
            } else {
                None
            },
            None => None,
        },
{
    proof {
        reveal_strlit("");
    }
    let kind = if is_announcement {
        crate::strs::owned(" Announcement: ")
    } else {
        crate::strs::owned(" Discussion: ")
    };
    let title_s = match title {
        Some(t) => t.clone(),
        None => crate::strs::owned("Untitled"),
    };
    let author_s = match author {
        Some(a) => a.clone(),
        None => crate::strs::owned("Unknown"),
    };
    let posted = match posted_at {
        Some(p) => format_datetime(p, now),
        None => String::new(),
    };
    let replies = crate::num::i64_to_string(
        match reply_count {
            Some(n) => n,
            None => 0,
        },
    );
    let unread = match unread_count {
        Some(u) => if u > 0 {
            Some(with_number("  (", u, " unread)"))
        } else {
            None
        },
        None => None,
    };
    TopicMeta { kind, title: title_s, author: author_s, posted, replies, unread }
}

// ───────────────────────────── course panels ─────────────────────────────

/// The selection marker of a row.
pub open spec fn marker(selected: bool) -> Seq<char> {
    if selected {
        " > "@
    } else {
        "   "@
    }
}

/// The selection marker of a row.
pub(crate) fn marker_of(selected: bool) -> (r: &'static str)
    ensures
        r@ == marker(selected),
{
    if selected {
        " > "
    } else {
        "   "
    }
}

/// The breadcrumb of the Files tab: `/ (root)`, or the folder names entered
/// joined by ` / ` after a leading `/ `.
pub open spec fn breadcrumb_text(path: Seq<(i64, String)>) -> Seq<char> {
    if path.len() == 0 {
        "/ (root)"@
    } else {
        "/ "@ + join_seqs(path.map_values(|p: (i64, String)| p.1@), " / "@)
    }
}

/// The breadcrumb of the Files tab (see `breadcrumb_text`).
pub fn breadcrumb(path: &Vec<(i64, String)>) -> (r: String)
    ensures
        r@ == breadcrumb_text(path@),
{
    if path.len() == 0 {
        return crate::strs::owned("/ (root)");
    }
    let mut names: Vec<String> = Vec::new();
    let mut i: usize = 0;
    while i < path.len()
        invariant
            i <= path.len(),
            names@.map_values(|s: String| s@) == path@.take(i as int).map_values(
                |p: (i64, String)| p.1@,
            ),
        decreases path.len() - i,
    {
        let ghost before = names@;
        names.push(path[i].1.clone());
        assert(names@.map_values(|s: String| s@) =~= before.map_values(|s: String| s@).push(
            path@[i as int].1@,
        ));
        assert(path@.take(i + 1).map_values(|p: (i64, String)| p.1@) =~= path@.take(
            i as int,
        ).map_values(|p: (i64, String)| p.1@).push(path@[i as int].1@));
        i = i + 1;
    }
    assert(path@.take(path.len() as int) =~= path@);
    let joined = crate::strs::join_strings(&names, " / ");
    let mut r = crate::strs::owned("/ ");
    crate::strs::push_str(&mut r, joined.as_str());
    r
}

/// The tag shown before a file of a MIME class.
pub open spec fn mime_icon(mime_class: Option<String>) -> Seq<char> {
    match mime_class {
        Some(m) => if m@ == "pdf"@ {
            "[PDF]"@
        } else if m@ == "image"@ {
            "[IMG]"@
        } else if m@ == "video"@ {
            "[VID]"@
        } else if m@ == "audio"@ {
            "[AUD]"@
        } else if m@ == "doc"@ {
            "[DOC]"@
        } else if m@ == "ppt"@ {
            "[PPT]"@
        } else if m@ == "xls"@ {
            "[XLS]"@
        } else if m@ == "zip"@ {
            "[ZIP]"@
        } else if m@ == "code"@ {
            "[COD]"@
        } else {
            "[FIL]"@
        },
        None => "[FIL]"@,
    }
}

/// The tag shown before a file (see `mime_icon`).
pub fn file_icon(mime_class: &Option<String>) -> (r: &'static str)
    ensures
        r@ == mime_icon(*mime_class),
{
    match mime_class {
        Some(m) => {
            let m = m.as_str();
            if crate::strs::str_eq(m, "pdf") {
                "[PDF]"
            } else if crate::strs::str_eq(m, "image") {
                "[IMG]"
            } else if crate::strs::str_eq(m, "video") {
                "[VID]"
            } else if crate::strs::str_eq(m, "audio") {
                "[AUD]"
            } else if crate::strs::str_eq(m, "doc") {
                "[DOC]"
            } else if crate::strs::str_eq(m, "ppt") {
                "[PPT]"
            } else if crate::strs::str_eq(m, "xls") {
                "[XLS]"
            } else if crate::strs::str_eq(m, "zip") {
                "[ZIP]"
            } else if crate::strs::str_eq(m, "code") {
                "[COD]"
            } else {
                "[FIL]"
            }
        },
        None => "[FIL]",
    }
}

/// What the Files tab shows of a file.
#[derive(Debug, Clone)]
pub struct FileInfo {
    pub display_name: Option<String>,
    pub filename: Option<String>,
    pub mime_class: Option<String>,
    pub size: Option<i64>,
    pub updated_at: Option<Timestamp>,
    pub created_at: Option<Timestamp>,
}

/// One row of the Files tab.
#[derive(Debug, Clone)]
pub struct FileRow {
    pub marker: String,
    pub icon: String,
    pub name: String,
    pub size: String,
    pub modified: String,
}

/// A file's name: its display name, else its file name, else `Unnamed`.
pub open spec fn file_name_text(f: FileInfo) -> Seq<char> {
    match f.display_name {
        Some(d) => d@,
        None => text_or(f.filename, "Unnamed"@),
    }
}

/// When a file last changed: its update time, else its creation time.
pub open spec fn modified_at(f: FileInfo) -> Option<Timestamp> {
    match f.updated_at {
        Some(u) => Some(u),
        None => f.created_at,
    }
}

/// Whether the times of a file can be formatted.
pub open spec fn file_times_valid(f: FileInfo) -> bool {
    &&& (f.updated_at matches Some(u) ==> ts_valid(u))
    &&& (f.created_at matches Some(c) ==> ts_valid(c))
}

/// The row of a file: marker, MIME tag, name, size and how long ago it
/// changed.
pub fn file_row(f: &FileInfo, selected: bool, now: Timestamp) -> (r: FileRow)
    requires
        ts_valid(now),
        file_times_valid(*f),
    ensures
        r.marker@ == marker(selected),
        r.icon@ == mime_icon(f.mime_class),
        r.name@ == file_name_text(*f),
        r.size@ == size_text(f.size),
        r.modified@ == match modified_at(*f) {
            Some(t) => ago_text(t, now),
            None => ""@,
        },
{
    proof {
        reveal_strlit("");
    }
    let name = match &f.display_name {
        Some(d) => d.clone(),
        None => match &f.filename {
            Some(n) => n.clone(),
            None => crate::strs::owned("Unnamed"),
        },
    };
    let when = match f.updated_at {
        Some(u) => Some(u),
        None => f.created_at,
    };
    let modified = match when {
        Some(t) => format_datetime(t, now),
        None => String::new(),
    };
    FileRow {
        marker: crate::strs::owned(marker_of(selected)),
        icon: crate::strs::owned(file_icon(&f.mime_class)),
        name,
        size: format_size(f.size),
        modified,
    }
}

/// The number of rows of the Files tab, as its title shows it.
pub fn files_title(view: &CourseViewState) -> (r: String)
    requires
        view.folders@.len() + view.files@.len() <= i64::MAX,
    ensures
        r@ == " Files ("@ + dec_int((view.folders@.len() + view.files@.len()) as int) + ") "@,
{
    let total = (view.folders.len() as u64) + (view.files.len() as u64);
    with_number(" Files (", total as i64, ") ")
}

/// The marker and name of each folder row of the Files tab: the selection
/// counts folders first, then files.
pub fn folder_rows(view: &CourseViewState) -> (r: Vec<(String, String)>)
    requires
        view.wf(),
    ensures
        r@.len() == view.folders@.len(),
        forall|i: int|
            0 <= i < r@.len() ==> (#[trigger] r@[i]).0@ == marker(i == view.spec_selected())
                && r@[i].1@ == text_or(view.folders@[i].name, "Unnamed"@),
{
    let sel = view.selected();
    let mut r: Vec<(String, String)> = Vec::new();
    let mut i: usize = 0;
    while i < view.folders.len()
        invariant
            i <= view.folders.len(),
            sel == view.spec_selected(),
            r@.len() == i,
            forall|j: int|
                0 <= j < i ==> (#[trigger] r@[j]).0@ == marker(j == sel) && r@[j].1@ == text_or(
                    view.folders@[j].name,
                    "Unnamed"@,
                ),
        decreases view.folders.len() - i,
    {
        let name = match &view.folders[i].name {
            Some(n) => n.clone(),
            None => crate::strs::owned("Unnamed"),
        };
        r.push((crate::strs::owned(marker_of(i == sel)), name));
        i = i + 1;
    }
    r
}

// ───────────────────────────── assignment and deadline rows ─────────────────────────────

/// The due text and urgency of an assignment row: past or missing due
/// dates carry no urgency.
pub open spec fn assignment_due(due_at: Option<Timestamp>, now: Timestamp) -> (Seq<char>, Urgency) {
    match due_at {
        Some(d) => (
            due_text(d, now),
            if crate::assignments::ts_before(d, now) {
                Urgency::NoDue
            } else {
                urgency_of(hours_until(d, now) as i64)
            },
        ),
        None => ("No due date"@, Urgency::NoDue),
    }
}

/// The due text and urgency of an assignment row (see `assignment_due`).
pub fn assignment_due_cell(due_at: Option<Timestamp>, now: Timestamp) -> (r: (String, Urgency))
    requires
        ts_valid(now),
        due_at matches Some(d) ==> ts_valid(d),
    ensures
        (r.0@, r.1) == assignment_due(due_at, now),
{
    match due_at {
        Some(d) => {
            let text = format_due_date(d, now);
            let u = if crate::assignments::is_before(d, now) {
                Urgency::NoDue
            } else {
                Urgency::from_hours(crate::tui_app::hours_left(d, now))
            };
            (text, u)
        },
        None => (crate::strs::owned("No due date"), Urgency::NoDue),
    }
}

/// The first line's suffix of a deadline row: ` [done]` once submitted.
pub open spec fn done_marker(submitted: bool) -> Seq<char> {
    if submitted {
        " [done]"@
    } else {
        ""@
    }
}

/// One row of the dashboard's deadline panel.
#[derive(Debug, Clone)]
pub struct DeadlineRow {
    pub marker: String,
    pub urgency: Urgency,
    pub name: String,
    pub done: String,
    pub course: String,
    pub due: String,
}

/// The row of a deadline: marker, urgency from the hours left, assignment
/// name, done marker, course name and due text.
pub fn deadline_row(d: &crate::tui_app::Deadline, selected: bool, now: Timestamp) -> (r: DeadlineRow)
    requires
        ts_valid(now),
        ts_valid(d.due_at),
    ensures
        r.marker@ == marker(selected),
        r.urgency == urgency_of(hours_until(d.due_at, now) as i64),
        r.name@ == d.assignment_name@,
        r.done@ == done_marker(d.submitted),
        r.course@ == d.course_name@,
        r.due@ == due_text(d.due_at, now),
{
    proof {
        reveal_strlit("");
    }
    let h = crate::tui_app::hours_left(d.due_at, now);
    DeadlineRow {
        marker: crate::strs::owned(marker_of(selected)),
        urgency: Urgency::from_hours(h),
        name: d.assignment_name.clone(),
        done: if d.submitted {
            crate::strs::owned(" [done]")
        } else {
            String::new()
        },
        course: d.course_name.clone(),
        due: format_due_date(d.due_at, now),
    }
}

} // verus!
