//! HTML → plain text, shared by assignments, announcements and discussions,
//! and the text helpers it rests on.

use vstd::prelude::*;

use crate::strs::{contains_seq, occurs_at, spec_trim};

verus! {

// ───────────────────────────── replacing ─────────────────────────────

/// `s` with every occurrence of the non-empty `pat` replaced by `rep`,
/// scanning left to right without overlaps (`str::replace`).
pub open spec fn replaced(s: Seq<char>, pat: Seq<char>, rep: Seq<char>) -> Seq<char>
    decreases s.len(),
{
    if pat.len() == 0 || s.len() < pat.len() {
        s
    } else if s.take(pat.len() as int) == pat {
        rep + replaced(s.skip(pat.len() as int), pat, rep)
    } else {
        seq![s[0]] + replaced(s.drop_first(), pat, rep)
    }
}

/// A sequence shorter than the pattern has nothing to replace.
proof fn lemma_replaced_short(s: Seq<char>, pat: Seq<char>, rep: Seq<char>)
    requires
        s.len() < pat.len(),
    ensures
        replaced(s, pat, rep) == s,
{
}

/// `str::replace` with a non-empty pattern.
pub fn replace_all(s: &str, pat: &str, rep: &str) -> (r: String)
    requires
        pat@.len() > 0,
    ensures
        r@ == replaced(s@, pat@, rep@),
{
    let v = crate::strs::chars_of(s);
    let p = crate::strs::chars_of(pat);
    let n = v.len();
    let mut out = String::new();
    let mut i: usize = 0;
    assert(v@.subrange(0, n as int) =~= v@);
    while i < n
        invariant
            i <= n == v.len(),
            p@ == pat@,
            p@.len() > 0,
            out@ + replaced(v@.subrange(i as int, n as int), p@, rep@) == replaced(v@, p@, rep@),
        decreases n - i,
    {
        let ghost rest = v@.subrange(i as int, n as int);
        if crate::strs::occurs_at_exec(&v, &p, i) {
            assert(rest.take(p@.len() as int) =~= v@.subrange(i as int, i + p@.len()));
            assert(rest.skip(p@.len() as int) =~= v@.subrange(i + p@.len(), n as int));
            crate::strs::push_str(&mut out, rep);
            i = i + p.len();
        } else {
            proof {
                assert(rest.drop_first() =~= v@.subrange(i + 1, n as int));
                if rest.len() >= p@.len() {
                    assert(rest.take(p@.len() as int) =~= v@.subrange(i as int, i + p@.len()));
                } else {
                    lemma_replaced_short(rest.drop_first(), p@, rep@);
                    assert(rest =~= seq![rest[0]] + rest.drop_first());
                }
            }
            crate::strs::push_char(&mut out, v[i]);
            i = i + 1;
        }
    }
    assert(v@.subrange(n as int, n as int) =~= Seq::<char>::empty());
    assert(out@ + Seq::<char>::empty() =~= out@);
    out
}

// ───────────────────────────── HTML → text ─────────────────────────────

/// One step of a walk over an HTML fragment's tree, in document order.
#[derive(Debug, Clone)]
pub enum HtmlEvent {
    /// A text node.
    Text(String),
    /// The start of an element, by its tag name.
    Open(String),
    /// The end of an element, by its tag name.
    Close(String),
    /// The start or end of any other node (the fragment root, a comment, a
    /// doctype, a processing instruction), or the end of a text node.
    Other,
}

/// An event by its view: a kind (0 text, 1 open, 2 close, 3 other) and its
/// text or tag name.
pub open spec fn event_view(e: HtmlEvent) -> (u8, Seq<char>) {
    match e {
        HtmlEvent::Text(t) => (0u8, t@),
        HtmlEvent::Open(t) => (1u8, t@),
        HtmlEvent::Close(t) => (2u8, t@),
        HtmlEvent::Other => (3u8, Seq::<char>::empty()),
    }
}

/// The walk `scraper::Html::parse_fragment(html)` gives, from its root
/// through `ego_tree`'s `traverse`; it depends on the text alone.
pub uninterp spec fn spec_fragment_events(html: Seq<char>) -> Seq<(u8, Seq<char>)>;

/// Parses an HTML fragment with `scraper::Html::parse_fragment` and walks
/// its tree with `ego_tree::NodeRef::traverse`, one event per edge.
#[verifier::external_body]
fn fragment_events(html: &str) -> (r: Vec<HtmlEvent>)
    ensures
        r@.map_values(|e: HtmlEvent| event_view(e)) == spec_fragment_events(html@),
{
    let doc = scraper::Html::parse_fragment(html);
    doc.tree.root().traverse().map(|edge| match edge {
        ego_tree::iter::Edge::Open(n) => match n.value() {
            scraper::Node::Text(t) => HtmlEvent::Text(t.text.to_string()),
            scraper::Node::Element(e) => HtmlEvent::Open(e.name().to_string()),
            _ => HtmlEvent::Other,
        },
        ego_tree::iter::Edge::Close(n) => match n.value() {
            scraper::Node::Element(e) => HtmlEvent::Close(e.name().to_string()),
            _ => HtmlEvent::Other,
        },
    }).collect()
}

/// Tags that start and end a block of text.
pub open spec fn is_block_tag(t: Seq<char>) -> bool {
    ||| t == "p"@
    ||| t == "div"@
    ||| t == "br"@
    ||| t == "h1"@
    ||| t == "h2"@
    ||| t == "h3"@
    ||| t == "h4"@
    ||| t == "h5"@
    ||| t == "h6"@
    ||| t == "li"@
    ||| t == "tr"@
    ||| t == "blockquote"@
    ||| t == "pre"@
}

/// The text after one more event: text is copied; `<br>` adds a line break;
/// any other block tag starts on a fresh line (unless nothing was written
/// yet) and ends with a line break.
pub open spec fn text_step(out: Seq<char>, e: (u8, Seq<char>)) -> Seq<char> {
    if e.0 == 0 {
        out + e.1
    } else if e.0 == 1 {
        if e.1 == "br"@ {
            out.push('\n')
        } else if is_block_tag(e.1) && out.len() > 0 && out.last() != '\n' {
            out.push('\n')
        } else {
            out
        }
    } else if e.0 == 2 {
        if is_block_tag(e.1) && e.1 != "br"@ {
            out.push('\n')
        } else {
            out
        }
    } else {
        out
    }
}

/// The text of a walk.
pub open spec fn walk_text(events: Seq<(u8, Seq<char>)>) -> Seq<char>
    decreases events.len(),
{
    if events.len() == 0 {
        seq![]
    } else {
        text_step(walk_text(events.drop_last()), events.last())
    }
}

/// `s` with runs of three or more line breaks shortened to two, by
/// replacing `\n\n\n` with `\n\n` until none is left.
pub open spec fn collapse_breaks(s: Seq<char>) -> Seq<char>
    decreases s.len(),
{
    if contains_seq(s, "\n\n\n"@) && replaced(s, "\n\n\n"@, "\n\n"@).len() < s.len() {
        collapse_breaks(replaced(s, "\n\n\n"@, "\n\n"@))
    } else {
        s
    }
}

/// Whether `t` is a block tag (executable form of `is_block_tag`).
fn block_tag(t: &str) -> (b: bool)
    ensures
        b == is_block_tag(t@),
{
    crate::strs::str_eq(t, "p") || crate::strs::str_eq(t, "div") || crate::strs::str_eq(t, "br")
        || crate::strs::str_eq(t, "h1") || crate::strs::str_eq(t, "h2") || crate::strs::str_eq(
        t,
        "h3",
    ) || crate::strs::str_eq(t, "h4") || crate::strs::str_eq(t, "h5") || crate::strs::str_eq(
        t,
        "h6",
    ) || crate::strs::str_eq(t, "li") || crate::strs::str_eq(t, "tr") || crate::strs::str_eq(
        t,
        "blockquote",
    ) || crate::strs::str_eq(t, "pre")
}

/// The text of a walk over an HTML tree.
pub fn events_text(events: &Vec<HtmlEvent>) -> (r: String)
    ensures
        r@ == walk_text(events@.map_values(|e: HtmlEvent| event_view(e))),
{
    let ghost ev = events@.map_values(|e: HtmlEvent| event_view(e));
    let mut out = String::new();
    let mut last: Option<char> = None;
    let mut i: usize = 0;
    while i < events.len()
        invariant
            i <= events.len(),
            ev == events@.map_values(|e: HtmlEvent| event_view(e)),
            out@ == walk_text(ev.take(i as int)),
            last == if out@.len() > 0 {
                Some(out@.last())
            } else {
                None
            },
        decreases events.len() - i,
    {
        assert(ev.take(i + 1).drop_last() =~= ev.take(i as int));
        assert(ev.take(i + 1).last() == event_view(events@[i as int]));
        match &events[i] {
            HtmlEvent::Text(t) => {
                crate::strs::push_str(&mut out, t.as_str());
                let tv = crate::strs::chars_of(t.as_str());
                if tv.len() > 0 {
                    last = Some(tv[tv.len() - 1]);
                }
            },
            HtmlEvent::Open(t) => {
                proof {
                    reveal_strlit("br");
                }
                if crate::strs::str_eq(t.as_str(), "br") {
                    crate::strs::push_char(&mut out, '\n');
                    last = Some('\n');
                } else if block_tag(t.as_str()) && last.is_some() && last != Some('\n') {
                    crate::strs::push_char(&mut out, '\n');
                    last = Some('\n');
                }
            },
            HtmlEvent::Close(t) => {
                if block_tag(t.as_str()) && !crate::strs::str_eq(t.as_str(), "br") {
                    crate::strs::push_char(&mut out, '\n');
                    last = Some('\n');
                }
            },
            HtmlEvent::Other => {},
        }
        i = i + 1;
    }
    assert(ev.take(events.len() as int) =~= ev);
    out
}

/// Shortens runs of three or more line breaks to two.
pub fn collapse_blank_lines(s: String) -> (r: String)
    ensures
        r@ == collapse_breaks(s@),
{
    let mut cur = s;
    proof {
        reveal_strlit("\n\n\n");
        reveal_strlit("\n\n");
    }
    while crate::strs::contains_str(cur.as_str(), "\n\n\n")
        invariant
            collapse_breaks(cur@) == collapse_breaks(s@),
        decreases cur@.len(),
    {
        proof {
            reveal_strlit("\n\n\n");
        }
        let next = replace_all(cur.as_str(), "\n\n\n", "\n\n");
        proof {
            lemma_replace_shrinks(cur@);
        }
        cur = next;
    }
    cur
}

/// Replacing a pattern by a shorter one never lengthens a text, and
/// shortens one in which the pattern occurs.
proof fn lemma_replaced_len(s: Seq<char>, pat: Seq<char>, rep: Seq<char>)
    requires
        pat.len() > 0,
        rep.len() < pat.len(),
    ensures
        replaced(s, pat, rep).len() <= s.len(),
        contains_seq(s, pat) ==> replaced(s, pat, rep).len() < s.len(),
    decreases s.len(),
{
    if s.len() < pat.len() {
        if contains_seq(s, pat) {
            let i = choose|i: int| occurs_at(s, pat, i);
        }
    } else if s.take(pat.len() as int) == pat {
        lemma_replaced_len(s.skip(pat.len() as int), pat, rep);
    } else {
        let t = s.drop_first();
        lemma_replaced_len(t, pat, rep);
        if contains_seq(s, pat) {
            let i = choose|i: int| occurs_at(s, pat, i);
            if i == 0 {
                assert(s.subrange(0, pat.len() as int) =~= s.take(pat.len() as int));
            } else {
                assert(t.subrange(i - 1, i - 1 + pat.len()) =~= s.subrange(i, i + pat.len()));
                assert(occurs_at(t, pat, i - 1));
            }
        }
    }
}

/// Replacing `\n\n\n` by `\n\n` shortens a text that contains it.
proof fn lemma_replace_shrinks(s: Seq<char>)
    requires
        contains_seq(s, "\n\n\n"@),
    ensures
        replaced(s, "\n\n\n"@, "\n\n"@).len() < s.len(),
{
    reveal_strlit("\n\n\n");
    reveal_strlit("\n\n");
    lemma_replaced_len(s, "\n\n\n"@, "\n\n"@);
}

/// HTML → plain text: the text of the fragment's tree, with block elements
/// on lines of their own and no more than one blank line in a row.
pub open spec fn html_text(html: Seq<char>) -> Seq<char> {
    collapse_breaks(walk_text(spec_fragment_events(html)))
}

/// HTML → plain text (see `html_text`).
pub fn html_to_text(html: &str) -> (r: String)
    ensures
        r@ == html_text(html@),
{
    let events = fragment_events(html);
    let t = events_text(&events);
    collapse_blank_lines(t)
}

} // verus!

verus! {

/// A block element ends its line: text inside a paragraph, a division, a
/// heading (`h1` to `h6`), a list item, a table row, a block quote or a
/// preformatted block, followed by more text, is separated from it by a line
/// break.
pub proof fn law_block_ends_line(t: Seq<char>, x: Seq<char>, y: Seq<char>)
    requires
        t == "p"@ || t == "div"@ || t == "h1"@ || t == "h2"@ || t == "h3"@ || t == "h4"@ || t
            == "h5"@ || t == "h6"@ || t == "li"@ || t == "tr"@ || t == "blockquote"@ || t == "pre"@,
    ensures
        walk_text(seq![(1u8, t), (0u8, x), (2u8, t), (0u8, y)]) == x + seq!['\n'] + y,
{
    reveal_strlit("br");
    reveal_strlit("p");
    reveal_strlit("div");
    reveal_strlit("h1");
    reveal_strlit("h2");
    reveal_strlit("h3");
    reveal_strlit("h4");
    reveal_strlit("h5");
    reveal_strlit("h6");
    reveal_strlit("li");
    reveal_strlit("tr");
    reveal_strlit("blockquote");
    reveal_strlit("pre");
    let ev = seq![(1u8, t), (0u8, x), (2u8, t), (0u8, y)];
    assert("br"@[0] == 'b' && "br"@.len() == 2);
    assert(t != "br"@) by {
        if t.len() == 2 {
            assert(t[0] != 'b');
        }
    }
    assert(is_block_tag(t));
    let e1 = seq![(1u8, t)];
    let e2 = e1.push((0u8, x));
    let e3 = e2.push((2u8, t));
    assert(e1.drop_last() =~= Seq::<(u8, Seq<char>)>::empty());
    assert(walk_text(Seq::<(u8, Seq<char>)>::empty()) == Seq::<char>::empty());
    assert(walk_text(e1) == text_step(Seq::<char>::empty(), (1u8, t)));
    assert(walk_text(e1) == Seq::<char>::empty());
    assert(e2.drop_last() =~= e1);
    assert(walk_text(e2) =~= x);
    assert(e3.drop_last() =~= e2);
    assert(walk_text(e3) =~= x.push('\n'));
    assert(ev =~= e3.push((0u8, y)));
    assert(ev.drop_last() =~= e3);
    assert(walk_text(ev) =~= x + seq!['\n'] + y);
}

/// Any other element (an inline one such as `span`, `b` or `a`) keeps its
/// text on the line: text inside it runs on into the text after it.
pub proof fn law_inline_keeps_line(t: Seq<char>, x: Seq<char>, y: Seq<char>)
    requires
        t != "p"@ && t != "div"@ && t != "br"@ && t != "h1"@ && t != "h2"@ && t != "h3"@ && t
            != "h4"@ && t != "h5"@ && t != "h6"@ && t != "li"@ && t != "tr"@ && t != "blockquote"@
            && t != "pre"@,
    ensures
        walk_text(seq![(1u8, t), (0u8, x), (2u8, t), (0u8, y)]) == x + y,
{
    let ev = seq![(1u8, t), (0u8, x), (2u8, t), (0u8, y)];
    let e1 = seq![(1u8, t)];
    let e2 = e1.push((0u8, x));
    let e3 = e2.push((2u8, t));
    assert(!is_block_tag(t));
    assert(e1.drop_last() =~= Seq::<(u8, Seq<char>)>::empty());
    assert(walk_text(Seq::<(u8, Seq<char>)>::empty()) == Seq::<char>::empty());
    assert(walk_text(e1) == text_step(Seq::<char>::empty(), (1u8, t)));
    assert(walk_text(e1) == Seq::<char>::empty());
    assert(e2.drop_last() =~= e1);
    assert(walk_text(e2) =~= x);
    assert(e3.drop_last() =~= e2);
    assert(walk_text(e3) =~= x);
    assert(ev =~= e3.push((0u8, y)));
    assert(ev.drop_last() =~= e3);
    assert(walk_text(ev) =~= x + y);
}

/// A line break element breaks the line between the texts around it.
pub proof fn law_br_breaks_line(x: Seq<char>, y: Seq<char>)
    ensures
        walk_text(seq![(0u8, x), (1u8, "br"@), (0u8, y)]) == x + seq!['\n'] + y,
{
    let ev = seq![(0u8, x), (1u8, "br"@), (0u8, y)];
    let e1 = seq![(0u8, x)];
    let e2 = e1.push((1u8, "br"@));
    assert(e1.drop_last() =~= Seq::<(u8, Seq<char>)>::empty());
    assert(walk_text(Seq::<(u8, Seq<char>)>::empty()) == Seq::<char>::empty());
    assert(walk_text(e1) =~= x);
    assert(e2.drop_last() =~= e1);
    assert(walk_text(e2) =~= x.push('\n'));
    assert(ev =~= e2.push((0u8, y)));
    assert(ev.drop_last() =~= e2);
    assert(walk_text(ev) =~= x + seq!['\n'] + y);
}

} // verus!
