//! PDF page selection and the shape of extraction results.
//!
//! Extraction itself (download, cache, parse) happens around this module;
//! here live the page-range grammar, which pages a range keeps, and the
//! cache key of the per-file text sidecar.

use vstd::prelude::*;

use crate::num::spec_parse_usize;
use crate::strs::{ascii_lower_seq, eq_ignore_ascii_case, find_char_seq, spec_trim};
use crate::strs::{collapse_ws, find_seq, spec_to_lowercase};
use crate::types::{PdfExtractResult, PdfPage, PdfSearchHit};
use crate::views::{byte_len, utf8_width};

verus! {

/// Inclusive page selector, 1-indexed. `None` on either bound means open.
#[derive(Debug, Clone, Copy, PartialEq, Eq, Structural)]
pub struct PageRange {
    pub start: Option<usize>,
    pub end: Option<usize>,
}

impl Default for PageRange {
    /// The open range: every page.
    fn default() -> (r: PageRange)
        ensures
            r.start is None && r.end is None,
    {
        PageRange { start: None, end: None }
    }
}

/// Why a page range did not parse.
#[derive(Debug, Clone)]
pub enum PageRangeError {
    /// `N-M` whose `N` is not a number.
    InvalidStart,
    /// `N-M` whose `M` is not a number.
    InvalidEnd,
    /// `N-M` with `N == 0` or `M < N`; carries the trimmed input.
    BadRange(String),
    /// A single page that is not a number.
    InvalidNumber,
    /// Page `0`: pages are 1-indexed.
    ZeroPage,
}

/// The outcome of parsing, as plain values: the two bounds, or the error's
/// ordinal (`0` InvalidStart, `1` InvalidEnd, `2` BadRange, `3` InvalidNumber,
/// `4` ZeroPage).
pub open spec fn spec_parse_range(s: Seq<char>) -> Result<(Option<usize>, Option<usize>), int> {
    let t = spec_trim(s);
    if t.len() == 0 || eq_ignore_ascii_case(t, "all"@) {
        Ok((None, None))
    } else {
        match find_char_seq(t, '-') {
            Some(i) => {
                let a = spec_parse_usize(spec_trim(t.take(i)));
                let b = spec_parse_usize(spec_trim(t.skip(i + 1)));
                match a {
                    None => Err(0),
                    Some(start) => match b {
                        None => Err(1),
                        Some(end) => if start == 0 || end < start {
                            Err(2)
                        } else {
                            Ok((Some(start), Some(end)))
                        },
                    },
                }
            },
            None => match spec_parse_usize(t) {
                None => Err(3),
                Some(n) => if n == 0 {
                    Err(4)
                } else {
                    Ok((Some(n), Some(n)))
                },
            },
        }
    }
}

/// A parsed range is either open (every page) or a closed range of
/// 1-indexed pages whose start does not exceed its end.
pub proof fn law_parsed_range_shape(s: Seq<char>)
    ensures
        spec_parse_range(s) matches Ok((a, b)) ==> ((a is None && b is None) || (a matches Some(x)
            && b matches Some(y) && 1 <= x <= y)),
{
}

/// The ordinal of an error, as in `spec_parse_range`.
pub open spec fn range_error_ordinal(e: PageRangeError) -> int {
    match e {
        PageRangeError::InvalidStart => 0,
        PageRangeError::InvalidEnd => 1,
        PageRangeError::BadRange(_) => 2,
        PageRangeError::InvalidNumber => 3,
        PageRangeError::ZeroPage => 4,
    }
}

/// The message an error is shown with.
pub open spec fn range_error_text(e: PageRangeError) -> Seq<char> {
    match e {
        PageRangeError::InvalidStart => "invalid start in range"@,
        PageRangeError::InvalidEnd => "invalid end in range"@,
        PageRangeError::BadRange(s) => "invalid page range \""@ + s@
            + "\": expected 1-indexed N or N-M with N<=M"@,
        PageRangeError::InvalidNumber => "invalid page number"@,
        PageRangeError::ZeroPage => "page numbers are 1-indexed"@,
    }
}

impl PageRangeError {
    /// The message this error is shown with.
    pub fn message(&self) -> (r: String)
        ensures
            r@ == range_error_text(*self),
    {
        match self {
            PageRangeError::InvalidStart => crate::strs::owned("invalid start in range"),
            PageRangeError::InvalidEnd => crate::strs::owned("invalid end in range"),
            PageRangeError::BadRange(s) => {
                let mut m = crate::strs::owned("invalid page range \"");
                crate::strs::push_str(&mut m, s.as_str());
                crate::strs::push_str(&mut m, "\": expected 1-indexed N or N-M with N<=M");
                m
            },
            PageRangeError::InvalidNumber => crate::strs::owned("invalid page number"),
            PageRangeError::ZeroPage => crate::strs::owned("page numbers are 1-indexed"),
        }
    }
}

/// `spec_trim` of a sub-range of `v`, parsed as `usize`.
fn parse_trimmed(v: &Vec<char>, lo: usize, hi: usize) -> (r: Option<usize>)
    requires
        lo <= hi <= v.len(),
    ensures
        r == spec_parse_usize(spec_trim(v@.subrange(lo as int, hi as int))),
{
    let part = crate::strs::sub_chars(v, lo, hi);
    let t = crate::strs::trim_chars(&part);
    crate::num::parse_usize_chars(&t)
}

impl PageRange {
    /// Accepted forms: `all` (any case) or empty, `N`, `N-M`; 1-indexed,
    /// surrounding whitespace ignored.
    pub fn parse(s: &str) -> (r: Result<PageRange, PageRangeError>)
        ensures
            match spec_parse_range(s@) {
                Ok((a, b)) => r == Ok::<PageRange, PageRangeError>(PageRange { start: a, end: b }),
                Err(k) => r matches Err(e) && range_error_ordinal(e) == k && (k == 2 ==> (e
                    matches PageRangeError::BadRange(m) && m@ == spec_trim(s@))),
            },
    {
        let v = crate::strs::chars_of(s);
        let t = crate::strs::trim_chars(&v);
        let all = crate::strs::chars_of("all");
        if t.len() == 0 || crate::strs::eq_ignore_ascii_case_chars(&t, &all) {
            return Ok(PageRange { start: None, end: None });
        }
        match crate::strs::find_char(&t, '-') {
            Some(i) => {
                proof {
                    assert(t@.take(i as int) =~= t@.subrange(0, i as int));
                    assert(t@.skip(i + 1) =~= t@.subrange(i + 1, t@.len() as int));
                }
                let a = parse_trimmed(&t, 0, i);
                let b = parse_trimmed(&t, i + 1, t.len());
                match a {
                    None => Err(PageRangeError::InvalidStart),
                    Some(start) => match b {
                        None => Err(PageRangeError::InvalidEnd),
                        Some(end) => {
                            if start == 0 || end < start {
                                Err(PageRangeError::BadRange(crate::strs::string_of(&t)))
                            } else {
                                Ok(PageRange { start: Some(start), end: Some(end) })
                            }
                        },
                    },
                }
            },
            None => match crate::num::parse_usize_chars(&t) {
                None => Err(PageRangeError::InvalidNumber),
                Some(n) => {
                    if n == 0 {
                        Err(PageRangeError::ZeroPage)
                    } else {
                        Ok(PageRange { start: Some(n), end: Some(n) })
                    }
                },
            },
        }
    }

    /// The range keeps page `page_no`.
    pub open spec fn spec_contains(self, page_no: int) -> bool {
        let lo: int = match self.start {
            Some(a) => a as int,
            None => 1,
        };
        let hi: int = match self.end {
            Some(b) => b as int,
            None => usize::MAX as int,
        };
        lo <= page_no <= hi
    }

    /// Whether the range keeps page `page_no`.
    pub fn contains(&self, page_no: usize) -> (r: bool)
        ensures
            r == self.spec_contains(page_no as int),
    {
        let lo = match self.start {
            Some(a) => a,
            None => 1,
        };
        let hi = match self.end {
            Some(b) => b,
            None => usize::MAX,
        };
        page_no >= lo && page_no <= hi
    }
}

/// A range given or not: `None` keeps every page.
pub open spec fn keeps(range: Option<PageRange>, page_no: int) -> bool {
    match range {
        Some(r) => r.spec_contains(page_no),
        None => true,
    }
}

/// The numbered pages a range keeps, in document order: page `i + 1` holds
/// `pages[i]`.
pub open spec fn selected_pages(pages: Seq<Seq<char>>, range: Option<PageRange>) -> Seq<(int, Seq<char>)>
    decreases pages.len(),
{
    if pages.len() == 0 {
        seq![]
    } else {
        let n = pages.len() as int;
        let prev = selected_pages(pages.drop_last(), range);
        if keeps(range, n) {
            prev.push((n, pages.last()))
        } else {
            prev
        }
    }
}

/// The view of extracted pages.
pub open spec fn pages_view(v: Seq<PdfPage>) -> Seq<(int, Seq<char>)> {
    v.map_values(|p: PdfPage| (p.page_no as int, p.text@))
}

/// The text of the pages as plain sequences.
pub open spec fn texts_view(v: Seq<String>) -> Seq<Seq<char>> {
    v.map_values(|s: String| s@)
}

/// The pages that `range` keeps, numbered from 1 in document order.
pub fn select_pages(pages: &Vec<String>, range: Option<PageRange>) -> (r: Vec<PdfPage>)
    ensures
        pages_view(r@) == selected_pages(texts_view(pages@), range),
{
    let mut out: Vec<PdfPage> = Vec::new();
    let mut i: usize = 0;
    while i < pages.len()
        invariant
            i <= pages.len(),
            pages_view(out@) == selected_pages(texts_view(pages@).take(i as int), range),
        decreases pages.len() - i,
    {
        let n = i + 1;
        let keep = match range {
            Some(rg) => rg.contains(n),
            None => true,
        };
        proof {
            let t = texts_view(pages@);
            assert(t.take(n as int).drop_last() =~= t.take(i as int));
            assert(t.take(n as int).last() == pages@[i as int]@);
            assert(t.take(n as int).len() == n);
        }
        if keep {
            let ghost before = out@;
            out.push(PdfPage { page_no: n, text: pages[i].clone() });
            assert(pages_view(out@) =~= pages_view(before).push((n as int, pages@[i as int]@)));
        }
        i = n;
    }
    assert(texts_view(pages@).take(pages.len() as int) =~= texts_view(pages@));
    out
}

/// Every page holds no text at all.
pub open spec fn all_empty(pages: Seq<Seq<char>>) -> bool {
    forall|i: int| 0 <= i < pages.len() ==> (#[trigger] pages[i]).len() == 0
}

/// The result of extracting a PDF, given the text of its pages: the pages
/// the range keeps, the total page count, and whether there was no text.
pub fn extract_result(file_id: i64, display_name: String, pages: &Vec<String>, range: Option<
    PageRange,
>) -> (r: PdfExtractResult)
    ensures
        r.file_id == file_id,
        r.display_name@ == display_name@,
        r.page_count == pages.len(),
        pages_view(r.pages@) == selected_pages(texts_view(pages@), range),
        r.empty == all_empty(texts_view(pages@)),
{
    let mut empty = true;
    let mut i: usize = 0;
    while i < pages.len()
        invariant
            i <= pages.len(),
            empty == all_empty(texts_view(pages@).take(i as int)),
        decreases pages.len() - i,
    {
        proof {
            let t = texts_view(pages@);
            assert(t.take(i + 1).drop_last() =~= t.take(i as int));
        }
        if !pages[i].as_str().is_empty() {
            empty = false;
            assert(texts_view(pages@).take(i + 1)[i as int] == pages@[i as int]@);
        }
        proof {
            let t = texts_view(pages@);
            if empty {
                assert forall|k: int| 0 <= k < i + 1 implies (#[trigger] t.take(i + 1)[k]).len() == 0 by {
                    if k < i {
                        assert(t.take(i + 1)[k] == t.take(i as int)[k]);
                    }
                }
            }
        }
        i = i + 1;
    }
    assert(texts_view(pages@).take(pages.len() as int) =~= texts_view(pages@));
    PdfExtractResult {
        file_id,
        display_name,
        page_count: pages.len(),
        pages: select_pages(pages, range),
        empty,
    }
}

/// Every page kept by a range lies in it, and a page in the range is kept:
/// selection is exactly filtering by `keeps`.
pub proof fn law_selected_pages_exact(pages: Seq<Seq<char>>, range: Option<PageRange>, n: int)
    requires
        1 <= n <= pages.len(),
    ensures
        selected_pages(pages, range).contains((n, pages[n - 1])) <== keeps(range, n),
        forall|j: int|
            0 <= j < selected_pages(pages, range).len() ==> keeps(
                range,
                (#[trigger] selected_pages(pages, range)[j]).0,
            ) && 1 <= selected_pages(pages, range)[j].0 <= pages.len() && pages[selected_pages(
                pages,
                range,
            )[j].0 - 1] == selected_pages(pages, range)[j].1,
    decreases pages.len(),
{
    let prev = pages.drop_last();
    if pages.len() > 0 {
        if n < pages.len() {
            law_selected_pages_exact(prev, range, n);
        } else if pages.len() > 1 {
            law_selected_pages_exact(prev, range, 1);
        }
        if pages.len() == 1 {
            assert(prev.len() == 0);
        }
        let sp = selected_pages(prev, range);
        assert forall|j: int| 0 <= j < selected_pages(pages, range).len() implies keeps(
            range,
            (#[trigger] selected_pages(pages, range)[j]).0,
        ) && 1 <= selected_pages(pages, range)[j].0 <= pages.len() && pages[selected_pages(
            pages,
            range,
        )[j].0 - 1] == selected_pages(pages, range)[j].1 by {
            if j < sp.len() {
                assert(selected_pages(pages, range)[j] == sp[j]);
                assert(prev[sp[j].0 - 1] == pages[sp[j].0 - 1]);
            }
        }
        if keeps(range, n) && n < pages.len() {
            assert(prev[n - 1] == pages[n - 1]);
            let k = choose|k: int| 0 <= k < sp.len() && sp[k] == (n, prev[n - 1]);
            assert(selected_pages(pages, range)[k] == (n, pages[n - 1]));
        }
        if keeps(range, n) && n == pages.len() {
            assert(selected_pages(pages, range).last() == (n, pages[n - 1]));
        }
    }
}

/// The open range, and `all` in any case, keep every page.
pub proof fn law_all_keeps_every_page(n: int)
    requires
        1 <= n <= usize::MAX,
    ensures
        (PageRange { start: None, end: None }).spec_contains(n),
        keeps(None, n),
{
}

/// The text-cache file of a PDF: `<dir>/<file_id>-<updated_at_unix>.json`,
/// keyed like the bytes cache so a re-upload invalidates both.
pub fn text_cache_path(text_cache_dir: &str, file_id: i64, updated_at_unix: i64) -> (r: String)
    ensures
        r@ == crate::config::spec_join(
            text_cache_dir@,
            crate::num::dec_int(file_id as int) + "-"@ + crate::num::dec_int(updated_at_unix as int)
                + ".json"@,
        ),
{
    let mut name = crate::num::i64_to_string(file_id);
    crate::strs::push_str(&mut name, "-");
    crate::num::push_dec_i64(&mut name, updated_at_unix);
    crate::strs::push_str(&mut name, ".json");
    let d = crate::strs::chars_of(text_cache_dir);
    crate::config::join_path(&d, name.as_str())
}

// ───────────────────────────── searching ─────────────────────────────

/// The byte offset of character `k` of `s` in UTF-8.
pub open spec fn byte_pos(s: Seq<char>, k: int) -> nat {
    byte_len(s.take(k))
}

/// The last character boundary at or before byte `b`, searching down from
/// character `k`.
pub open spec fn boundary_back(s: Seq<char>, b: nat, k: int) -> int
    decreases k,
{
    if k <= 0 || byte_pos(s, k) <= b {
        if k <= 0 {
            0
        } else {
            k
        }
    } else {
        boundary_back(s, b, k - 1)
    }
}

/// The first character boundary at or after byte `b`, searching up from
/// character `k`.
pub open spec fn boundary_fwd(s: Seq<char>, b: nat, k: int) -> int
    decreases s.len() - k,
{
    if k >= s.len() || byte_pos(s, k) >= b {
        if k >= s.len() {
            s.len() as int
        } else {
            k
        }
    } else {
        boundary_fwd(s, b, k + 1)
    }
}

/// The excerpt around a match at byte `off` of `match_len` bytes: up to 80
/// bytes either side, widened to whole characters, whitespace collapsed.
pub open spec fn snippet_of(text: Seq<char>, off: nat, match_len: nat) -> Seq<char> {
    let lo: nat = if off >= 80 {
        (off - 80) as nat
    } else {
        0
    };
    let end = off + match_len + 80;
    let hi: nat = if end <= byte_len(text) {
        end
    } else {
        byte_len(text)
    };
    let a = boundary_back(text, lo, text.len() as int);
    let b = boundary_fwd(text, hi, 0);
    collapse_ws(text.subrange(a, if b >= a {
        b
    } else {
        a
    }))
}

/// Where `query` is found on a page: the byte offset of its first
/// occurrence, lowercased, in the lowercased page.
pub open spec fn page_match(page: Seq<char>, query: Seq<char>) -> Option<nat> {
    let lower = spec_to_lowercase(page);
    match find_seq(lower, spec_to_lowercase(query)) {
        Some(i) => Some(byte_pos(lower, i)),
        None => None,
    }
}

/// `byte_len` grows one character at a time.
proof fn lemma_byte_len_take(s: Seq<char>, k: int)
    requires
        0 <= k < s.len(),
    ensures
        byte_pos(s, k + 1) == byte_pos(s, k) + utf8_width(s[k]),
{
    assert(s.take(k + 1).drop_last() =~= s.take(k));
}

/// The byte offsets of every character boundary of `v`, `0` first.
pub(crate) fn byte_positions(v: &Vec<char>) -> (r: Vec<u128>)
    ensures
        r@.len() == v@.len() + 1,
        forall|k: int| 0 <= k <= v@.len() ==> (#[trigger] r@[k]) == byte_pos(v@, k),
        forall|k: int| 0 <= k <= v@.len() ==> (#[trigger] r@[k]) <= 4 * k,
{
    let mut r: Vec<u128> = Vec::new();
    r.push(0);
    assert(v@.take(0) =~= Seq::<char>::empty());
    let mut i: usize = 0;
    let mut n: u128 = 0;
    while i < v.len()
        invariant
            i <= v.len(),
            r@.len() == i + 1,
            n == byte_pos(v@, i as int),
            n <= 4 * i,
            forall|k: int| 0 <= k <= i ==> (#[trigger] r@[k]) == byte_pos(v@, k),
            forall|k: int| 0 <= k <= i ==> (#[trigger] r@[k]) <= 4 * k,
        decreases v.len() - i,
    {
        proof {
            lemma_byte_len_take(v@, i as int);
        }
        let w: u128 = if (v[i] as u32) < 0x80 {
            1
        } else if (v[i] as u32) < 0x800 {
            2
        } else if (v[i] as u32) < 0x10000 {
            3
        } else {
            4
        };
        n = n + w;
        r.push(n);
        i = i + 1;
    }
    r
}

/// The excerpt around a match (see `snippet_of`).
pub fn make_snippet(page_text: &str, byte_off: u128, match_len: u128) -> (r: String)
    requires
        byte_off + match_len + 80 <= u128::MAX,
    ensures
        r@ == snippet_of(page_text@, byte_off as nat, match_len as nat),
{
    let v = crate::strs::chars_of(page_text);
    let pos = byte_positions(&v);
    let total = pos[v.len()];
    let lo: u128 = if byte_off >= 80 {
        byte_off - 80
    } else {
        0
    };
    let end = byte_off + match_len + 80;
    let hi: u128 = if end <= total {
        end
    } else {
        total
    };
    assert(total == byte_len(v@)) by {
        assert(v@.take(v@.len() as int) =~= v@);
    }
    let mut a: usize = v.len();
    while a > 0 && pos[a] > lo
        invariant
            a <= v.len(),
            pos@.len() == v@.len() + 1,
            forall|k: int| 0 <= k <= v@.len() ==> (#[trigger] pos@[k]) == byte_pos(v@, k),
            boundary_back(v@, lo as nat, v@.len() as int) == boundary_back(v@, lo as nat, a as int),
        decreases a,
    {
        a = a - 1;
    }
    let mut b: usize = 0;
    while b < v.len() && pos[b] < hi
        invariant
            b <= v.len(),
            pos@.len() == v@.len() + 1,
            forall|k: int| 0 <= k <= v@.len() ==> (#[trigger] pos@[k]) == byte_pos(v@, k),
            boundary_fwd(v@, hi as nat, 0) == boundary_fwd(v@, hi as nat, b as int),
        decreases v.len() - b,
    {
        b = b + 1;
    }
    let top = if b >= a {
        b
    } else {
        a
    };
    crate::strs::collapse_whitespace_range(&v, a, top)
}

/// The byte offset of the first occurrence of the lowercased query in the
/// lowercased page (see `page_match`).
pub fn find_in_page(page_text: &str, query: &str) -> (r: Option<u128>)
    ensures
        r matches Some(x) ==> x <= 4 * usize::MAX,
        match (r, page_match(page_text@, query@)) {
            (Some(x), Some(y)) => x == y,
            (None, None) => true,
            _ => false,
        },
{
    let lower = crate::strs::chars_of(crate::strs::to_lowercase(page_text).as_str());
    let needle = crate::strs::chars_of(crate::strs::to_lowercase(query).as_str());
    match crate::strs::find_chars(&lower, &needle) {
        Some(i) => {
            let pos = byte_positions(&lower);
            Some(pos[i])
        },
        None => None,
    }
}

/// The hits of one file: for each page in order, while fewer than `room`
/// hits were found, the page's first match with its excerpt.
pub open spec fn file_hits(pages: Seq<Seq<char>>, query: Seq<char>, room: nat, n: int) -> Seq<
    (int, Seq<char>),
>
    decreases n,
{
    if n <= 0 {
        seq![]
    } else {
        let prev = file_hits(pages, query, room, n - 1);
        if prev.len() >= room {
            prev
        } else {
            match page_match(pages[n - 1], query) {
                Some(off) => prev.push((n, snippet_of(pages[n - 1], off, byte_len(query)))),
                None => prev,
            }
        }
    }
}

/// A file's hits are at most `room`, each on a page (numbered from 1) whose
/// lower-cased text holds the lower-cased query, in increasing page order, so
/// no page is reported twice.
pub proof fn law_file_hits(pages: Seq<Seq<char>>, query: Seq<char>, room: nat, n: int)
    requires
        0 <= n <= pages.len(),
    ensures
        file_hits(pages, query, room, n).len() <= room,
        forall|k: int|
            0 <= k < file_hits(pages, query, room, n).len() ==> 1 <= (#[trigger] file_hits(
                pages,
                query,
                room,
                n,
            )[k]).0 <= n && page_match(pages[file_hits(pages, query, room, n)[k].0 - 1], query)
                is Some,
        forall|j: int, k: int|
            0 <= j < k < file_hits(pages, query, room, n).len() ==> (#[trigger] file_hits(
                pages,
                query,
                room,
                n,
            )[j]).0 < (#[trigger] file_hits(pages, query, room, n)[k]).0,
    decreases n,
{
    if n > 0 {
        law_file_hits(pages, query, room, n - 1);
    }
}

/// A hit by its view: page number and excerpt.
pub open spec fn hit_view(h: PdfSearchHit) -> (int, Seq<char>) {
    (h.page as int, h.snippet@)
}

/// The hits of one PDF's pages, at most `room` of them, each with the file
/// id and display name given.
pub fn search_pages(
    file_id: i64,
    display_name: &str,
    pages: &Vec<String>,
    query: &str,
    room: usize,
) -> (r: Vec<PdfSearchHit>)
    ensures
        r@.map_values(|h: PdfSearchHit| hit_view(h)) == file_hits(
            pages@.map_values(|p: String| p@),
            query@,
            room as nat,
            pages@.len() as int,
        ),
        forall|k: int|
            0 <= k < r@.len() ==> (#[trigger] r@[k]).file_id == file_id && r@[k].display_name@
                == display_name@,
{
    let ghost pv = pages@.map_values(|p: String| p@);
    let qlen = crate::views::byte_count_of(query);
    let mut r: Vec<PdfSearchHit> = Vec::new();
    let mut i: usize = 0;
    while i < pages.len()
        invariant
            i <= pages.len(),
            pv == pages@.map_values(|p: String| p@),
            qlen == byte_len(query@),
            qlen <= 4 * usize::MAX,
            r@.map_values(|h: PdfSearchHit| hit_view(h)) == file_hits(pv, query@, room as nat, i as int),
            forall|k: int|
                0 <= k < r@.len() ==> (#[trigger] r@[k]).file_id == file_id && r@[k].display_name@
                    == display_name@,
        decreases pages.len() - i,
    {
        if r.len() < room {
            match find_in_page(pages[i].as_str(), query) {
                Some(off) => {
                    let snippet = make_snippet(pages[i].as_str(), off, qlen);
                    let hit = PdfSearchHit {
                        file_id,
                        display_name: crate::strs::owned(display_name),
                        page: i + 1,
                        snippet,
                    };
                    let ghost before = r@;
                    r.push(hit);
                    assert(r@.map_values(|h: PdfSearchHit| hit_view(h)) =~= before.map_values(
                        |h: PdfSearchHit| hit_view(h),
                    ).push(hit_view(hit)));
                },
                None => {},
            }
        }
        i = i + 1;
    }
    r
}

/// A search needs a query with something besides whitespace.
pub fn check_search_query(query: &str) -> (r: Result<(), String>)
    ensures
        r is Ok <==> spec_trim(query@).len() > 0,
        r matches Err(e) ==> e@ == "query is empty"@,
{
    if crate::strs::is_blank(query) {
        Err(crate::strs::owned("query is empty"))
    } else {
        Ok(())
    }
}

/// The name shown with a file's hits: the name its text was cached under,
/// or, when that is empty, the file's display name, else its file name.
pub fn hit_display_name(
    extracted_name: &str,
    display_name: &Option<String>,
    filename: &Option<String>,
) -> (r: String)
    ensures
        r@ == if extracted_name@.len() > 0 {
            extracted_name@
        } else {
            match display_name {
                Some(d) => d@,
                None => crate::modules::text_or(*filename, ""@),
            }
        },
{
    proof {
        reveal_strlit("");
    }
    if crate::strs::chars_of(extracted_name).len() > 0 {
        crate::strs::owned(extracted_name)
    } else {
        match display_name {
            Some(d) => d.clone(),
            None => match filename {
                Some(f) => f.clone(),
                None => String::new(),
            },
        }
    }
}

} // verus!

verus! {

// ───────────────────────────── searching a course ─────────────────────────────

/// A searched file as plain values: its id, the name its hits carry, and its
/// page texts, or `None` when extracting them failed.
pub type FileTextView = (i64, Seq<char>, Option<Seq<Seq<char>>>);

/// A hit as plain values: file id, name, page, excerpt.
pub type HitView = (i64, Seq<char>, int, Seq<char>);

/// The full view of a hit.
pub open spec fn full_hit_view(h: PdfSearchHit) -> HitView {
    (h.file_id, h.display_name@, h.page as int, h.snippet@)
}

/// The hits of a search over `files` in order: each file that was
/// extracted adds its hits while fewer than `max` were found; a file that
/// failed adds none; once `max` hits were found no file is searched.
pub open spec fn course_hits(files: Seq<FileTextView>, query: Seq<char>, max: nat) -> Seq<HitView>
    decreases files.len(),
{
    if files.len() == 0 {
        seq![]
    } else {
        let prev = course_hits(files.drop_last(), query, max);
        let f = files.last();
        if prev.len() >= max {
            prev
        } else {
            match f.2 {
                None => prev,
                Some(pages) => prev + file_hits(pages, query, (max - prev.len()) as nat, pages.len() as int).map_values(
                    |h: (int, Seq<char>)| (f.0, f.1, h.0, h.1),
                ),
            }
        }
    }
}

/// The hit `h` is found in one of `files`: a file with that id whose pages
/// were extracted, on a page (numbered from 1) whose lower-cased text holds
/// the lower-cased query.
pub open spec fn hit_found_in(files: Seq<FileTextView>, query: Seq<char>, h: HitView) -> bool {
    exists|j: int|
        0 <= j < files.len() && (#[trigger] files[j]).0 == h.0 && (files[j].2 matches Some(pages) && 1
            <= h.2 <= pages.len() && page_match(pages[h.2 - 1], query) is Some)
}

/// The files have distinct ids.
pub open spec fn distinct_ids(files: Seq<FileTextView>) -> bool {
    forall|i: int, j: int| 0 <= i < j < files.len() ==> (#[trigger] files[i]).0 != (#[trigger] files[j]).0
}

/// A course search finds at most `max` hits, each on a matching page of an
/// extracted file, and, when the files have distinct ids, no two hits on the
/// same file and page; a file that failed adds no hit and stops nothing.
pub proof fn law_course_hits(files: Seq<FileTextView>, query: Seq<char>, max: nat)
    ensures
        course_hits(files, query, max).len() <= max,
        forall|k: int|
            0 <= k < course_hits(files, query, max).len() ==> hit_found_in(
                files,
                query,
                #[trigger] course_hits(files, query, max)[k],
            ),
        distinct_ids(files) ==> forall|j: int, k: int|
            0 <= j < k < course_hits(files, query, max).len() ==> ((#[trigger] course_hits(
                files,
                query,
                max,
            )[j]).0 != (#[trigger] course_hits(files, query, max)[k]).0 || course_hits(
                files,
                query,
                max,
            )[j].2 != course_hits(files, query, max)[k].2),
    decreases files.len(),
{
    if files.len() > 0 {
        let rest = files.drop_last();
        law_course_hits(rest, query, max);
        let prev = course_hits(rest, query, max);
        let f = files.last();
        let n = files.len() - 1;
        assert forall|k: int| 0 <= k < prev.len() implies hit_found_in(files, query, #[trigger] prev[k]) by {
            let j = choose|j: int|
                0 <= j < rest.len() && (#[trigger] rest[j]).0 == prev[k].0 && (rest[j].2 matches Some(pages)
                    && 1 <= prev[k].2 <= pages.len() && page_match(pages[prev[k].2 - 1], query) is Some);
            assert(files[j] == rest[j]);
        }
        if prev.len() < max {
            if let Some(pages) = f.2 {
                let room = (max - prev.len()) as nat;
                let fh = file_hits(pages, query, room, pages.len() as int);
                law_file_hits(pages, query, room, pages.len() as int);
                let add = fh.map_values(|h: (int, Seq<char>)| (f.0, f.1, h.0, h.1));
                let all = prev + add;
                assert(course_hits(files, query, max) == all);
                assert forall|k: int| 0 <= k < all.len() implies hit_found_in(files, query, #[trigger] all[k]) by {
                    if k < prev.len() {
                        assert(all[k] == prev[k]);
                    } else {
                        let i = k - prev.len();
                        assert(all[k] == add[i]);
                        assert(add[i] == (f.0, f.1, fh[i].0, fh[i].1));
                        assert(files[n] == f);
                    }
                }
                if distinct_ids(files) {
                    assert(distinct_ids(rest)) by {
                        assert forall|a: int, b: int| 0 <= a < b < rest.len() implies (#[trigger] rest[a]).0
                            != (#[trigger] rest[b]).0 by {
                            assert(rest[a] == files[a] && rest[b] == files[b]);
                        }
                    }
                    assert forall|a: int, b: int| 0 <= a < b < all.len() implies ((#[trigger] all[a]).0
                        != (#[trigger] all[b]).0 || all[a].2 != all[b].2) by {
                        if b < prev.len() {
                            assert(all[a] == prev[a] && all[b] == prev[b]);
                        } else if a < prev.len() {
                            assert(all[a] == prev[a]);
                            assert(hit_found_in(rest, query, prev[a]));
                            let j = choose|j: int|
                                0 <= j < rest.len() && (#[trigger] rest[j]).0 == prev[a].0 && (rest[j].2 matches Some(
                                    pages,
                                ) && 1 <= prev[a].2 <= pages.len() && page_match(pages[prev[a].2 - 1], query)
                                    is Some);
                            assert(files[j] == rest[j]);
                            assert(files[j].0 != files[n].0);
                            assert(all[b] == add[b - prev.len()]);
                        } else {
                            let ia = a - prev.len();
                            let ib = b - prev.len();
                            assert(all[a] == add[ia] && all[b] == add[ib]);
                            assert(fh[ia].0 < fh[ib].0);
                        }
                    }
                }
            }
        }
    }
}

/// A search of a course's files in progress: the query, the cap on hits,
/// the hits so far and (as plain values) the files searched so far.
pub struct PdfSearch {
    pub query: String,
    pub max_results: usize,
    pub hits: Vec<PdfSearchHit>,
    pub searched: Ghost<Seq<FileTextView>>,
}

/// A search is well formed: its hits are those of the files searched.
pub open spec fn search_valid(s: PdfSearch) -> bool {
    s.hits@.map_values(|h: PdfSearchHit| full_hit_view(h)) == course_hits(
        s.searched@,
        s.query@,
        s.max_results as nat,
    )
}

impl PdfSearch {
    /// Start a search for `query`, keeping at most `max_results` hits; an
    /// error when the query is blank.
    pub fn new(query: &str, max_results: usize) -> (r: Result<PdfSearch, String>)
        ensures
            match r {
                Ok(s) => spec_trim(query@).len() > 0 && s.query@ == query@ && s.max_results
                    == max_results && s.searched@ == Seq::<FileTextView>::empty() && search_valid(s),
                Err(e) => spec_trim(query@).len() == 0 && e@ == "query is empty"@,
            },
    {
        match check_search_query(query) {
            Err(e) => Err(e),
            Ok(()) => {
                let s = PdfSearch {
                    query: crate::strs::owned(query),
                    max_results,
                    hits: Vec::new(),
                    searched: Ghost(Seq::empty()),
                };
                assert(s.hits@.map_values(|h: PdfSearchHit| full_hit_view(h)) =~= Seq::<HitView>::empty());
                Ok(s)
            },
        }
    }

    /// Whether the search holds as many hits as it keeps: no further file
    /// need be extracted.
    pub fn is_full(&self) -> (r: bool)
        ensures
            r == (self.hits@.len() >= self.max_results),
    {
        self.hits.len() >= self.max_results
    }

    /// Search one more file: its page texts, or `None` when extracting them
    /// failed (the file is skipped).
    pub fn add_file(&mut self, file_id: i64, display_name: &str, pages: Option<&Vec<String>>)
        requires
            search_valid(*old(self)),
        ensures
            final(self).query == old(self).query,
            final(self).max_results == old(self).max_results,
            final(self).searched@ == old(self).searched@.push(
                (
                    file_id,
                    display_name@,
                    match pages {
                        Some(p) => Some(p@.map_values(|t: String| t@)),
                        None => None,
                    },
                ),
            ),
            search_valid(*final(self)),
    {
        let ghost entry: FileTextView = (
            file_id,
            display_name@,
            match pages {
                Some(p) => Some(p@.map_values(|t: String| t@)),
                None => None,
            },
        );
        let ghost before = self.searched@;
        let ghost old_hits = self.hits@;
        proof {
            assert(before.push(entry).drop_last() =~= before);
        }
        if self.hits.len() < self.max_results {
            if let Some(p) = pages {
                let room = self.max_results - self.hits.len();
                let found = search_pages(file_id, display_name, p, self.query.as_str(), room);
                let ghost fh = file_hits(p@.map_values(|t: String| t@), self.query@, room as nat, p@.len() as int);
                let mut k: usize = 0;
                while k < found.len()
                    invariant
                        k <= found.len(),
                        self.query == old(self).query,
                        self.max_results == old(self).max_results,
                        self.searched == old(self).searched,
                        found@.map_values(|h: PdfSearchHit| hit_view(h)) == fh,
                        forall|i: int|
                            0 <= i < found@.len() ==> (#[trigger] found@[i]).file_id == file_id
                                && found@[i].display_name@ == display_name@,
                        self.hits@.map_values(|h: PdfSearchHit| full_hit_view(h)) == old_hits.map_values(
                            |h: PdfSearchHit| full_hit_view(h),
                        ) + fh.take(k as int).map_values(
                            |h: (int, Seq<char>)| (file_id, display_name@, h.0, h.1),
                        ),
                    decreases found.len() - k,
                {
                    let h = &found[k];
                    let hit = PdfSearchHit {
                        file_id: h.file_id,
                        display_name: crate::strs::owned(h.display_name.as_str()),
                        page: h.page,
                        snippet: crate::strs::owned(h.snippet.as_str()),
                    };
                    let ghost prev = self.hits@;
                    self.hits.push(hit);
                    proof {
                        assert(hit_view(found@[k as int]) == fh[k as int]);
                        assert(fh.take(k + 1) =~= fh.take(k as int).push(fh[k as int]));
                        assert(self.hits@.map_values(|h: PdfSearchHit| full_hit_view(h)) =~= prev.map_values(
                            |h: PdfSearchHit| full_hit_view(h),
                        ).push(full_hit_view(hit)));
                    }
                    k = k + 1;
                }
                proof {
                    assert(fh.len() == found@.len());
                    assert(fh.take(k as int) =~= fh);
                }
            }
        }
        proof {
            self.searched = Ghost(before.push(entry));
        }
    }
}

} // verus!
