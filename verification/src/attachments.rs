//! Mine Canvas-internal references out of an HTML fragment.
//!
//! Canvas embeds links to resources inside `description` / `message` HTML —
//! files (`/files/{id}` or `/courses/{cid}/files/{id}`), wiki pages
//! (`/courses/{cid}/pages/{slug}`), other assignments, discussion topics,
//! modules. Other links (mailto, external sites) are skipped.

use vstd::prelude::*;

use crate::num::{dec_int, spec_parse_i64};
use crate::strs::{collapse_ws, find_char_seq, find_seq, spec_trim, split_char};
use crate::types::{CanvasRef, RefView};

verus! {

// ───────────────────────────── the href ─────────────────────────────

/// `s` cut before the first `c`, or `s` when `c` does not occur.
pub open spec fn cut_at(s: Seq<char>, c: char) -> Seq<char> {
    match find_char_seq(s, c) {
        Some(i) => s.take(i),
        None => s,
    }
}

/// The path portion of an `href`: scheme and host dropped, then query and
/// fragment dropped.
pub open spec fn spec_strip_to_path(href: Seq<char>) -> Seq<char> {
    let s1 = match find_seq(href, "://"@) {
        Some(i) => href.subrange(i + "://"@.len(), href.len() as int),
        None => href,
    };
    let s2 = match find_char_seq(s1, '/') {
        Some(i) => s1.subrange(i, s1.len() as int),
        None => s1,
    };
    cut_at(cut_at(s2, '?'), '#')
}

fn cut_at_exec(v: Vec<char>, c: char) -> (r: Vec<char>)
    ensures
        r@ == cut_at(v@, c),
{
    match crate::strs::find_char(&v, c) {
        Some(i) => crate::strs::sub_chars(&v, 0, i),
        None => v,
    }
}

/// Keep only the path portion of an `href`.
pub fn strip_to_path(href: &str) -> (r: Vec<char>)
    ensures
        r@ == spec_strip_to_path(href@),
{
    let h = crate::strs::chars_of(href);
    let sep = crate::strs::chars_of("://");
    let s1 = match crate::strs::find_chars(&h, &sep) {
        Some(i) => {
            assert(crate::strs::occurs_at(h@, sep@, i as int));
            assert(i + sep.len() <= h.len());
            crate::strs::sub_chars(&h, i + sep.len(), h.len())
        },
        None => crate::strs::sub_chars(&h, 0, h.len()),
    };
    assert(h@.subrange(0, h@.len() as int) =~= h@);
    let s2 = match crate::strs::find_char(&s1, '/') {
        Some(i) => crate::strs::sub_chars(&s1, i, s1.len()),
        None => s1,
    };
    cut_at_exec(cut_at_exec(s2, '?'), '#')
}

/// The non-empty `/`-separated segments of the path of an `href`.
pub open spec fn path_segments(href: Seq<char>) -> Seq<Seq<char>> {
    split_char(spec_strip_to_path(href), '/').filter(|x: Seq<char>| x.len() > 0)
}

/// The link text when it is not blank (trimmed), otherwise `fallback`.
pub open spec fn name_or(text: Seq<char>, fallback: Seq<char>) -> Seq<char> {
    if spec_trim(text).len() == 0 {
        fallback
    } else {
        spec_trim(text)
    }
}

/// `name_or` of a link text and a fallback.
pub fn name_or_fallback(text: &str, fallback: String) -> (r: String)
    ensures
        r@ == name_or(text@, fallback@),
{
    let t = crate::strs::trim(text);
    if t.as_str().unicode_len() == 0 {
        fallback
    } else {
        t
    }
}

/// `["courses", "<cid>", "<kind>", "<id_or_slug>", ...]` → `(cid, kind, id_or_slug)`.
pub open spec fn spec_course_scoped(segs: Seq<Seq<char>>) -> Option<(i64, Seq<char>, Seq<char>)> {
    if segs.len() >= 4 && segs[0] == "courses"@ && spec_parse_i64(segs[1]) is Some {
        Some((spec_parse_i64(segs[1])->0, segs[2], segs[3]))
    } else {
        None
    }
}

/// The reference an `href` with link text `text` stands for, if it is one of
/// the recognised Canvas URL shapes.
pub open spec fn spec_parse_canvas_ref(href: Seq<char>, text: Seq<char>) -> Option<RefView> {
    let segs = path_segments(href);
    if segs.len() >= 2 && segs[segs.len() - 2] == "files"@ && segs[0] != "courses"@
        && spec_parse_i64(segs.last()) is Some {
        let id = spec_parse_i64(segs.last())->0;
        Some(RefView::File { id, name: name_or(text, dec_int(id as int)), href })
    } else {
        match spec_course_scoped(segs) {
            Some((cid, kind, last)) => {
                if kind == "files"@ && spec_parse_i64(last) is Some {
                    let id = spec_parse_i64(last)->0;
                    Some(RefView::File { id, name: name_or(text, dec_int(id as int)), href })
                } else if kind == "pages"@ {
                    Some(RefView::Page { course_id: cid, slug: last, name: name_or(text, last), href })
                } else if kind == "assignments"@ && spec_parse_i64(last) is Some {
                    let id = spec_parse_i64(last)->0;
                    Some(
                        RefView::Assignment {
                            course_id: cid,
                            id,
                            name: name_or(text, dec_int(id as int)),
                            href,
                        },
                    )
                } else if kind == "discussion_topics"@ && spec_parse_i64(last) is Some {
                    let id = spec_parse_i64(last)->0;
                    Some(
                        RefView::DiscussionTopic {
                            course_id: cid,
                            id,
                            name: name_or(text, dec_int(id as int)),
                            href,
                        },
                    )
                } else if kind == "modules"@ && spec_parse_i64(last) is Some {
                    let id = spec_parse_i64(last)->0;
                    Some(
                        RefView::Module {
                            course_id: cid,
                            id,
                            name: name_or(text, dec_int(id as int)),
                            href,
                        },
                    )
                } else {
                    None
                }
            },
            None => None,
        }
    }
}

/// The views of a list of segments.
pub open spec fn segs_view(v: Seq<Vec<char>>) -> Seq<Seq<char>> {
    v.map_values(|x: Vec<char>| x@)
}

/// Match `["courses", "<cid>", "<kind>", "<id_or_slug>", ...]`.
pub fn course_scoped_pair(segs: &Vec<Vec<char>>) -> (r: Option<(i64, usize)>)
    ensures
        match r {
            Some((cid, _)) => spec_course_scoped(segs_view(segs@)) matches Some((c, k, l)) && c
                == cid && k == segs@[2]@ && l == segs@[3]@ && segs.len() >= 4,
            None => spec_course_scoped(segs_view(segs@)) is None,
        },
{
    if segs.len() < 4 {
        return None;
    }
    assert(segs_view(segs@)[0] == segs@[0]@);
    assert(segs_view(segs@)[1] == segs@[1]@);
    if !crate::strs::chars_eq_str(&segs[0], "courses") {
        return None;
    }
    match crate::num::parse_i64_chars(&segs[1]) {
        Some(cid) => Some((cid, 2)),
        None => None,
    }
}

/// Whether the segments start with `courses`.
pub fn path_starts_with_courses(segs: &Vec<Vec<char>>) -> (r: bool)
    ensures
        r == (segs.len() > 0 && segs@[0]@ == "courses"@),
{
    segs.len() > 0 && crate::strs::chars_eq_str(&segs[0], "courses")
}

/// Try every Canvas URL shape we recognise; return the first match.
pub fn parse_canvas_ref(href: &str, link_text: &str) -> (r: Option<CanvasRef>)
    ensures
        match r {
            Some(x) => spec_parse_canvas_ref(href@, link_text@) == Some(x@),
            None => spec_parse_canvas_ref(href@, link_text@) is None,
        },
{
    let path = strip_to_path(href);
    let segs = crate::strs::split_nonempty(&path, '/');
    let ghost sv = segs_view(segs@);
    assert(sv == path_segments(href@));
    let n = segs.len();
    // /files/{id}
    if n >= 2 && crate::strs::chars_eq_str(&segs[n - 2], "files") && !path_starts_with_courses(
        &segs,
    ) {
        assert(sv[n - 2] == segs@[n - 2]@);
        assert(sv.last() == segs@[n - 1]@);
        assert(sv[0] == segs@[0]@);
        if let Some(id) = crate::num::parse_i64_chars(&segs[n - 1]) {
            let fallback = crate::num::i64_to_string(id);
            return Some(
                CanvasRef::File {
                    id,
                    name: name_or_fallback(link_text, fallback),
                    href: crate::strs::owned(href),
                },
            );
        }
    }
    proof {
        if n >= 2 {
            assert(sv[n - 2] == segs@[n - 2]@);
            assert(sv.last() == segs@[n - 1]@);
            assert(sv[0] == segs@[0]@);
        }
    }
    match course_scoped_pair(&segs) {
        None => None,
        Some((cid, _)) => {
            let kind = &segs[2];
            let last = &segs[3];
            if crate::strs::chars_eq_str(kind, "files") {
                if let Some(id) = crate::num::parse_i64_chars(last) {
                    let fallback = crate::num::i64_to_string(id);
                    return Some(
                        CanvasRef::File {
                            id,
                            name: name_or_fallback(link_text, fallback),
                            href: crate::strs::owned(href),
                        },
                    );
                }
                proof {
                    reveal_strlit("files");
                    reveal_strlit("pages");
                    reveal_strlit("assignments");
                    reveal_strlit("discussion_topics");
                    reveal_strlit("modules");
                    assert("files"@[0] != "pages"@[0]);
                    assert("files"@ != "pages"@);
                    assert("files"@.len() != "assignments"@.len());
                    assert("files"@.len() != "discussion_topics"@.len());
                    assert("files"@.len() != "modules"@.len());
                }
                return None;
            }
            if crate::strs::chars_eq_str(kind, "pages") {
                let slug = crate::strs::string_of(last);
                let fallback = crate::strs::string_of(last);
                return Some(
                    CanvasRef::Page {
                        course_id: cid,
                        slug,
                        name: name_or_fallback(link_text, fallback),
                        href: crate::strs::owned(href),
                    },
                );
            }
            if crate::strs::chars_eq_str(kind, "assignments") {
                if let Some(id) = crate::num::parse_i64_chars(last) {
                    let fallback = crate::num::i64_to_string(id);
                    return Some(
                        CanvasRef::Assignment {
                            course_id: cid,
                            id,
                            name: name_or_fallback(link_text, fallback),
                            href: crate::strs::owned(href),
                        },
                    );
                }
                proof {
                    reveal_strlit("assignments");
                    reveal_strlit("discussion_topics");
                    reveal_strlit("modules");
                    assert("assignments"@.len() != "discussion_topics"@.len());
                    assert("assignments"@.len() != "modules"@.len());
                }
                return None;
            }
            if crate::strs::chars_eq_str(kind, "discussion_topics") {
                if let Some(id) = crate::num::parse_i64_chars(last) {
                    let fallback = crate::num::i64_to_string(id);
                    return Some(
                        CanvasRef::DiscussionTopic {
                            course_id: cid,
                            id,
                            name: name_or_fallback(link_text, fallback),
                            href: crate::strs::owned(href),
                        },
                    );
                }
                proof {
                    reveal_strlit("discussion_topics");
                    reveal_strlit("modules");
                    assert("discussion_topics"@.len() != "modules"@.len());
                }
                return None;
            }
            if crate::strs::chars_eq_str(kind, "modules") {
                if let Some(id) = crate::num::parse_i64_chars(last) {
                    let fallback = crate::num::i64_to_string(id);
                    return Some(
                        CanvasRef::Module {
                            course_id: cid,
                            id,
                            name: name_or_fallback(link_text, fallback),
                            href: crate::strs::owned(href),
                        },
                    );
                }
            }
            None
        },
    }
}

// ───────────────────────────── the HTML ─────────────────────────────

/// What scraper finds for the `<a>` elements of an HTML fragment, in
/// document order: each one's `href` attribute and its concatenated text.
/// It depends on the HTML alone.
pub uninterp spec fn spec_html_anchors(html: Seq<char>) -> Seq<(Option<Seq<char>>, Seq<char>)>;

/// The views of the anchors a wrapper returns.
pub open spec fn anchors_view(v: Seq<(Option<String>, String)>) -> Seq<(Option<Seq<char>>, Seq<char>)> {
    v.map_values(
        |a: (Option<String>, String)|
            (
                match a.0 {
                    Some(h) => Some(h@),
                    None => None,
                },
                a.1@,
            ),
    )
}

/// `scraper::Html::parse_fragment(html).select("a")`, each element taken as
/// its `href` attribute and `el.text().collect::<String>()`.
#[verifier::external_body]
pub(crate) fn html_anchors(html: &str) -> (r: Vec<(Option<String>, String)>)
    ensures
        anchors_view(r@) == spec_html_anchors(html@),
{
    let document = scraper::Html::parse_fragment(html);
    let selector = scraper::Selector::parse("a").unwrap();
    document.select(&selector).map(
        |el| (el.attr("href").map(|h| h.to_string()), el.text().collect::<String>()),
    ).collect()
}

/// The reference an anchor yields, if any: one with an `href` whose link text
/// (whitespace collapsed) and `href` form a recognised Canvas URL.
pub open spec fn anchor_ref(a: (Option<Seq<char>>, Seq<char>)) -> Option<RefView> {
    match a.0 {
        Some(h) => spec_parse_canvas_ref(h, collapse_ws(a.1)),
        None => None,
    }
}

/// The views of a list of references.
pub open spec fn refs_view(v: Seq<CanvasRef>) -> Seq<RefView> {
    v.map_values(|r: CanvasRef| r@)
}

/// Every Canvas-internal reference of an HTML fragment, in document order.
pub fn extract_references(html: &str) -> (r: Vec<CanvasRef>)
    ensures
        refs_view(r@) == spec_html_anchors(html@).filter_map(|a| anchor_ref(a)),
{
    let anchors = html_anchors(html);
    let ghost av = anchors_view(anchors@);
    let ghost f = |a: (Option<Seq<char>>, Seq<char>)| anchor_ref(a);
    let mut out: Vec<CanvasRef> = Vec::new();
    let mut i: usize = 0;
    proof {
        reveal(Seq::filter_map);
        assert(av.take(0).filter_map(f) =~= Seq::<RefView>::empty());
    }
    while i < anchors.len()
        invariant
            i <= anchors.len(),
            av == anchors_view(anchors@),
            f == (|a: (Option<Seq<char>>, Seq<char>)| anchor_ref(a)),
            refs_view(out@) == av.take(i as int).filter_map(f),
        decreases anchors.len() - i,
    {
        let ghost before = refs_view(out@);
        proof {
            assert(av.take(i + 1) =~= av.take(i as int).push(av[i as int]));
            lemma_filter_map_push(av.take(i as int), f, av[i as int]);
        }
        let (href, text) = &anchors[i];
        match href {
            Some(h) => {
                let name = crate::strs::collapse_whitespace(text.as_str());
                match parse_canvas_ref(h.as_str(), name.as_str()) {
                    Some(r) => {
                        out.push(r);
                        assert(refs_view(out@) =~= before.push(r@));
                    },
                    None => {},
                }
            },
            None => {},
        }
        i = i + 1;
    }
    assert(av.take(anchors.len() as int) =~= av);
    out
}

/// `filter_map` of a sequence extended by one element.
pub proof fn lemma_filter_map_push<A, B>(s: Seq<A>, f: spec_fn(A) -> Option<B>, x: A)
    ensures
        s.push(x).filter_map(f) == match f(x) {
            Some(y) => s.filter_map(f).push(y),
            None => s.filter_map(f),
        },
{
    reveal(Seq::filter_map);
    assert(s.push(x).drop_last() =~= s);
}

/// A copy of a reference.
pub fn copy_ref(r: &CanvasRef) -> (c: CanvasRef)
    ensures
        c@ == r@,
{
    match r {
        CanvasRef::File { id, name, href } => CanvasRef::File {
            id: *id,
            name: name.clone(),
            href: href.clone(),
        },
        CanvasRef::Page { course_id, slug, name, href } => CanvasRef::Page {
            course_id: *course_id,
            slug: slug.clone(),
            name: name.clone(),
            href: href.clone(),
        },
        CanvasRef::Assignment { course_id, id, name, href } => CanvasRef::Assignment {
            course_id: *course_id,
            id: *id,
            name: name.clone(),
            href: href.clone(),
        },
        CanvasRef::DiscussionTopic { course_id, id, name, href } => CanvasRef::DiscussionTopic {
            course_id: *course_id,
            id: *id,
            name: name.clone(),
            href: href.clone(),
        },
        CanvasRef::Module { course_id, id, name, href } => CanvasRef::Module {
            course_id: *course_id,
            id: *id,
            name: name.clone(),
            href: href.clone(),
        },
    }
}

/// Whether a reference is a file.
pub open spec fn is_file_ref(r: RefView) -> bool {
    r is File
}

/// Only the file references of an HTML fragment, in document order.
pub fn extract_file_refs(html: &str) -> (r: Vec<CanvasRef>)
    ensures
        refs_view(r@) == spec_html_anchors(html@).filter_map(|a| anchor_ref(a)).filter(
            |x: RefView| is_file_ref(x),
        ),
{
    let all = extract_references(html);
    let ghost av = refs_view(all@);
    let ghost p = |x: RefView| is_file_ref(x);
    let mut out: Vec<CanvasRef> = Vec::new();
    let mut i: usize = 0;
    proof {
        reveal(Seq::filter);
        assert(av.take(0).filter(p) =~= Seq::<RefView>::empty());
    }
    while i < all.len()
        invariant
            i <= all.len(),
            av == refs_view(all@),
            p == (|x: RefView| is_file_ref(x)),
            refs_view(out@) == av.take(i as int).filter(p),
        decreases all.len() - i,
    {
        let ghost before = refs_view(out@);
        proof {
            assert(av.take(i + 1) =~= av.take(i as int).push(av[i as int]));
            crate::strs::lemma_filter_push(av.take(i as int), p, av[i as int]);
        }
        let is_file = match &all[i] {
            CanvasRef::File { .. } => true,
            _ => false,
        };
        if is_file {
            let r = copy_ref(&all[i]);
            out.push(r);
            assert(refs_view(out@) =~= before.push(av[i as int]));
        }
        i = i + 1;
    }
    assert(av.take(all.len() as int) =~= av);
    out
}

} // verus!
