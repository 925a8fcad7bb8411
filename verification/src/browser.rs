//! The interactive assignment browser of `cool assignment`: the export form
//! (content format, attached files, output directory), its keys, what its
//! right-hand panel shows, and what an export writes.

use vstd::prelude::*;

use crate::attachments::{anchors_view, cut_at, spec_html_anchors};
use crate::strs::{contains_seq, find_seq, last_index_of, spec_trim, split_char};
use crate::tui_app::{Key, KeyCode, Mods};

verus! {

// ───────────────────────────── text helpers ─────────────────────────────

/// `s` cut to at most `max` characters, the last one replaced by `…` when
/// cut.
pub open spec fn truncated(s: Seq<char>, max: usize) -> Seq<char> {
    if s.len() <= max {
        s
    } else {
        s.take(if max >= 1 { max - 1 } else { 0 }) + seq!['…']
    }
}

/// Truncate to `max` characters (not bytes), ending in `…` when cut.
pub fn truncate_str(s: &str, max_chars: usize) -> (r: String)
    ensures
        r@ == truncated(s@, max_chars),
{
    let v = crate::strs::chars_of(s);
    if v.len() <= max_chars {
        return crate::strs::owned(s);
    }
    let keep = if max_chars >= 1 {
        max_chars - 1
    } else {
        0
    };
    let mut r = crate::strs::string_of_range(&v, 0, keep);
    crate::strs::push_char(&mut r, '…');
    assert(v@.subrange(0, keep as int) =~= s@.take(keep as int));
    r
}

// ───────────────────────────── attached files ─────────────────────────────

/// A Canvas file linked from an assignment description.
#[derive(Debug, Clone)]
pub struct FileLink {
    /// Link text, or the last path segment when the text is blank.
    pub name: String,
    pub url: String,
    /// The id after `/files/`, up to the next `/` or `?`.
    pub file_id: Option<String>,
}

/// The id in a file URL: after the first `/files/`, up to `/` or `?`.
pub open spec fn file_id_in(href: Seq<char>) -> Seq<char> {
    let i = find_seq(href, "/files/"@)->0;
    cut_at(cut_at(href.skip(i + 7), '/'), '?')
}

/// The last `/`-separated piece of a URL.
pub open spec fn last_piece(href: Seq<char>) -> Seq<char> {
    href.skip(last_index_of(href, '/') + 1)
}

/// The file link an anchor yields: anchors whose `href` holds `/files/`.
pub open spec fn link_of(a: (Option<Seq<char>>, Seq<char>)) -> Option<(Seq<char>, Seq<char>, Seq<char>)> {
    match a.0 {
        Some(h) => if contains_seq(h, "/files/"@) {
            Some(
                (
                    if spec_trim(a.1).len() == 0 {
                        last_piece(h)
                    } else {
                        spec_trim(a.1)
                    },
                    h,
                    file_id_in(h),
                ),
            )
        } else {
            None
        },
        None => None,
    }
}

/// The plain content of a file link.
pub open spec fn link_view(l: FileLink) -> (Seq<char>, Seq<char>, Option<Seq<char>>) {
    (
        l.name@,
        l.url@,
        match l.file_id {
            Some(f) => Some(f@),
            None => None,
        },
    )
}

/// The file links of an HTML description, in document order.
pub open spec fn links_of(anchors: Seq<(Option<Seq<char>>, Seq<char>)>) -> Seq<(Seq<char>, Seq<char>, Seq<char>)>
    decreases anchors.len(),
{
    if anchors.len() == 0 {
        seq![]
    } else {
        let prev = links_of(anchors.drop_last());
        match link_of(anchors.last()) {
            Some(l) => prev.push(l),
            None => prev,
        }
    }
}

fn link_from(href: &String, text: &String) -> (r: Option<FileLink>)
    ensures
        match link_of((Some(href@), text@)) {
            Some((n, u, f)) => r matches Some(l) && link_view(l) == (n, u, Some(f)),
            None => r is None,
        },
{
    let h = crate::strs::chars_of(href.as_str());
    let pat = crate::strs::chars_of("/files/");
    let i = match crate::strs::find_chars(&h, &pat) {
        Some(i) => i,
        None => return None,
    };
    proof {
        crate::strs::lemma_first_occurrence(h@, pat@, i as int);
        reveal_strlit("/files/");
        assert(pat@.len() == 7);
        assert(i + 7 <= h@.len());
        crate::strs::lemma_last_index_of(h@, '/');
    }
    let rest = crate::strs::sub_chars(&h, i + 7, h.len());
    assert(rest@ =~= h@.skip(i + 7));
    let id1 = match crate::strs::find_char(&rest, '/') {
        Some(k) => crate::strs::sub_chars(&rest, 0, k),
        None => rest,
    };
    let id2 = match crate::strs::find_char(&id1, '?') {
        Some(k) => crate::strs::sub_chars(&id1, 0, k),
        None => id1,
    };
    let t = crate::strs::trim(text.as_str());
    let name = if t.as_str().is_empty() {
        let start = match crate::strs::rfind_char(&h, '/') {
            Some(k) => k + 1,
            None => 0,
        };
        crate::strs::string_of_range(&h, start, h.len())
    } else {
        t
    };
    proof {
        assert(h@.subrange(last_index_of(h@, '/') + 1, h@.len() as int) =~= last_piece(h@));
        assert(id2@ == file_id_in(h@));
    }
    Some(FileLink { name, url: href.clone(), file_id: Some(crate::strs::string_of(&id2)) })
}

/// Every `<a>` of the description whose `href` points at a Canvas file.
pub fn extract_file_links(description: &str) -> (r: Vec<FileLink>)
    ensures
        r@.len() == links_of(spec_html_anchors(description@)).len(),
        forall|i: int|
            0 <= i < r@.len() ==> (#[trigger] link_view(r@[i])) == (
                links_of(spec_html_anchors(description@))[i].0,
                links_of(spec_html_anchors(description@))[i].1,
                Some(links_of(spec_html_anchors(description@))[i].2),
            ),
{
    let anchors = crate::attachments::html_anchors(description);
    let ghost av = anchors_view(anchors@);
    let mut out: Vec<FileLink> = Vec::new();
    let mut i: usize = 0;
    while i < anchors.len()
        invariant
            i <= anchors.len(),
            av == anchors_view(anchors@),
            out@.len() == links_of(av.take(i as int)).len(),
            forall|k: int|
                0 <= k < out@.len() ==> (#[trigger] link_view(out@[k])) == (
                    links_of(av.take(i as int))[k].0,
                    links_of(av.take(i as int))[k].1,
                    Some(links_of(av.take(i as int))[k].2),
                ),
        decreases anchors.len() - i,
    {
        proof {
            assert(av.take(i + 1).drop_last() =~= av.take(i as int));
            assert(av.take(i + 1).last() == av[i as int]);
        }
        match &anchors[i].0 {
            Some(h) => {
                match link_from(h, &anchors[i].1) {
                    Some(l) => {
                        let ghost before = out@;
                        out.push(l);
                        proof {
                            assert forall|k: int| 0 <= k < before.len() implies out@[k] == before[k] by {}
                        }
                    },
                    None => {},
                }
            },
            None => {},
        }
        i = i + 1;
    }
    assert(av.take(anchors.len() as int) =~= av);
    out
}

// ───────────────────────────── the export form ─────────────────────────────

/// What the assignment text is exported as.
#[derive(Debug, Clone, Copy, PartialEq, Eq, Structural)]
pub enum ContentFormat {
    /// No text export (shown as "None").
    Off,
    Json,
    Markdown,
    Html,
}

/// The formats in the order the form lists them.
pub open spec fn all_formats() -> Seq<ContentFormat> {
    seq![ContentFormat::Off, ContentFormat::Json, ContentFormat::Markdown, ContentFormat::Html]
}

/// The label of a format.
pub open spec fn format_label(f: ContentFormat) -> Seq<char> {
    match f {
        ContentFormat::Off => "None"@,
        ContentFormat::Json => "JSON"@,
        ContentFormat::Markdown => "Markdown"@,
        ContentFormat::Html => "HTML"@,
    }
}

impl ContentFormat {
    /// The format at position `i < 4` of the list.
    pub fn at(i: usize) -> (r: ContentFormat)
        requires
            i < 4,
        ensures
            r == all_formats()[i as int],
    {
        if i == 0 {
            ContentFormat::Off
        } else if i == 1 {
            ContentFormat::Json
        } else if i == 2 {
            ContentFormat::Markdown
        } else {
            ContentFormat::Html
        }
    }

    /// The label shown in the form.
    pub fn label(self) -> (r: &'static str)
        ensures
            r@ == format_label(self),
    {
        match self {
            ContentFormat::Off => "None",
            ContentFormat::Json => "JSON",
            ContentFormat::Markdown => "Markdown",
            ContentFormat::Html => "HTML",
        }
    }
}

/// The focusable rows of the form.
#[derive(Debug, Clone, Copy, PartialEq, Eq, Structural)]
pub enum FormFocus {
    Format(usize),
    File(usize),
    OutputDir,
    Download,
}

/// The focus order: the four formats, each file, the output directory, the
/// download button.
pub open spec fn focus_order(n_files: nat) -> Seq<FormFocus> {
    Seq::new(4, |i: int| FormFocus::Format(i as usize)) + Seq::new(n_files, |i: int| FormFocus::File(i as usize))
        + seq![FormFocus::OutputDir, FormFocus::Download]
}

/// The position of `f` in the focus order, 0 when it is not there.
pub open spec fn focus_pos(f: FormFocus, n_files: nat) -> int {
    match f {
        FormFocus::Format(i) => if i < 4 {
            i as int
        } else {
            0
        },
        FormFocus::File(i) => if i < n_files {
            4 + i
        } else {
            0
        },
        FormFocus::OutputDir => (4 + n_files) as int,
        FormFocus::Download => (5 + n_files) as int,
    }
}

/// `f` is one of the focusable rows.
pub open spec fn focusable(f: FormFocus, n_files: nat) -> bool {
    match f {
        FormFocus::Format(i) => i < 4,
        FormFocus::File(i) => i < n_files,
        _ => true,
    }
}

/// The state of the export form.
#[derive(Debug, Clone)]
pub struct ExportFormState {
    pub name: String,
    pub due: String,
    pub points: String,
    pub description_text: String,
    pub description_scroll: u16,
    pub file_links: Vec<FileLink>,
    pub selected_format: ContentFormat,
    /// One checkbox per file link.
    pub file_selected: Vec<bool>,
    pub output_dir: String,
    pub focus: FormFocus,
    /// The last export's message and whether it succeeded.
    pub status_msg: Option<(String, bool)>,
    pub focus_items: Vec<FormFocus>,
}

/// Euclidean remainder, `0 <= r < m`.
pub open spec fn wrap(x: int, m: int) -> int {
    x % m
}

impl ExportFormState {
    /// Well-formed: one checkbox per link, the focus order matches the
    /// links, and the focus is on one of its rows.
    pub open spec fn wf(self) -> bool {
        &&& self.file_selected@.len() == self.file_links@.len()
        &&& self.focus_items@ == focus_order(self.file_links@.len())
        &&& focusable(self.focus, self.file_links@.len())
        &&& self.file_links@.len() + 6 <= usize::MAX
    }

    /// A fresh form for an assignment: no format, no file checked, output to
    /// `./`, focus on the first format.
    pub fn new(name: String, due: String, points: String, description_text: String, file_links: Vec<FileLink>) -> (r:
        ExportFormState)
        requires
            file_links@.len() + 6 <= usize::MAX,
        ensures
            r.wf(),
            r.name@ == name@ && r.due@ == due@ && r.points@ == points@,
            r.description_text@ == description_text@,
            r.description_scroll == 0,
            r.file_links@ == file_links@,
            r.selected_format == ContentFormat::Off,
            forall|i: int| 0 <= i < r.file_selected@.len() ==> !r.file_selected@[i],
            r.output_dir@ == "./"@,
            r.focus == FormFocus::Format(0),
            r.status_msg is None,
    {
        let n = file_links.len();
        let mut file_selected: Vec<bool> = Vec::new();
        let mut i: usize = 0;
        while i < n
            invariant
                i <= n,
                file_selected@.len() == i,
                forall|k: int| 0 <= k < i ==> !file_selected@[k],
            decreases n - i,
        {
            file_selected.push(false);
            i = i + 1;
        }
        let mut state = ExportFormState {
            name,
            due,
            points,
            description_text,
            description_scroll: 0,
            file_links,
            selected_format: ContentFormat::Off,
            file_selected,
            output_dir: crate::strs::owned("./"),
            focus: FormFocus::Format(0),
            status_msg: None,
            focus_items: Vec::new(),
        };
        state.rebuild_focus_items();
        state
    }

    /// Rebuild the focus order from the links.
    pub fn rebuild_focus_items(&mut self)
        requires
            old(self).file_links@.len() + 6 <= usize::MAX,
        ensures
            final(self).focus_items@ == focus_order(old(self).file_links@.len()),
            final(self).file_links == old(self).file_links,
            final(self).file_selected == old(self).file_selected,
            final(self).focus == old(self).focus,
            final(self).selected_format == old(self).selected_format,
            final(self).output_dir == old(self).output_dir,
            final(self).name == old(self).name,
            final(self).due == old(self).due,
            final(self).points == old(self).points,
            final(self).description_text == old(self).description_text,
            final(self).description_scroll == old(self).description_scroll,
            final(self).status_msg == old(self).status_msg,
    {
        let n = self.file_links.len();
        let mut items: Vec<FormFocus> = Vec::new();
        let mut i: usize = 0;
        while i < 4
            invariant
                i <= 4,
                items@ == Seq::new(i as nat, |k: int| FormFocus::Format(k as usize)),
            decreases 4 - i,
        {
            items.push(FormFocus::Format(i));
            assert(items@ =~= Seq::new((i + 1) as nat, |k: int| FormFocus::Format(k as usize)));
            i = i + 1;
        }
        let mut j: usize = 0;
        while j < n
            invariant
                j <= n,
                items@ == Seq::new(4, |k: int| FormFocus::Format(k as usize)) + Seq::new(
                    j as nat,
                    |k: int| FormFocus::File(k as usize),
                ),
            decreases n - j,
        {
            items.push(FormFocus::File(j));
            assert(items@ =~= Seq::new(4, |k: int| FormFocus::Format(k as usize)) + Seq::new(
                (j + 1) as nat,
                |k: int| FormFocus::File(k as usize),
            ));
            j = j + 1;
        }
        items.push(FormFocus::OutputDir);
        items.push(FormFocus::Download);
        assert(items@ =~= focus_order(n as nat));
        self.focus_items = items;
    }

    /// The position of the focus in the focus order (0 when absent).
    pub fn focus_index(&self) -> (r: usize)
        requires
            self.wf(),
        ensures
            r == focus_pos(self.focus, self.file_links@.len()),
            (r as int) < self.focus_items@.len(),
            self.focus_items@[r as int] == self.focus,
    {
        let n = self.file_links.len();
        match self.focus {
            FormFocus::Format(i) => i,
            FormFocus::File(i) => 4 + i,
            FormFocus::OutputDir => 4 + n,
            FormFocus::Download => 5 + n,
        }
    }

    /// Move the focus `delta` rows, wrapping around.
    pub fn move_focus(&mut self, delta: isize)
        requires
            old(self).wf(),
        ensures
            final(self).wf(),
            final(self).focus == focus_order(old(self).file_links@.len())[wrap(
                focus_pos(old(self).focus, old(self).file_links@.len()) + delta,
                focus_order(old(self).file_links@.len()).len() as int,
            )],
            final(self).file_links == old(self).file_links,
            final(self).file_selected == old(self).file_selected,
            final(self).selected_format == old(self).selected_format,
            final(self).output_dir == old(self).output_dir,
            final(self).focus_items == old(self).focus_items,
            final(self).description_scroll == old(self).description_scroll,
            final(self).status_msg == old(self).status_msg,
    {
        let len = self.focus_items.len();
        let cur = self.focus_index();
        let s: i128 = (cur as i128) + (delta as i128);
        let l: i128 = len as i128;
        let next: i128 = if s >= 0 {
            s % l
        } else {
            let m = (-s) % l;
            if m == 0 {
                0
            } else {
                l - m
            }
        };
        proof {
            let si: int = s as int;
            let li: int = l as int;
            assert(li > 0);
            if s < 0 {
                let m: int = (-si) % li;
                let q: int = (-si) / li;
                vstd::arithmetic::div_mod::lemma_fundamental_div_mod(-si, li);
                assert(-si == li * q + m);
                assert(0 <= m < li);
                if m == 0 {
                    assert(si == (-q) * li + 0) by (nonlinear_arith)
                        requires
                            -si == li * q,
                    ;
                    vstd::arithmetic::div_mod::lemma_fundamental_div_mod_converse(si, li, -q, 0);
                } else {
                    assert(si == (-q - 1) * li + (li - m)) by (nonlinear_arith)
                        requires
                            -si == li * q + m,
                    ;
                    vstd::arithmetic::div_mod::lemma_fundamental_div_mod_converse(si, li, -q - 1, li - m);
                }
            }
        }
        let k = next as usize;
        self.focus = self.focus_items[k];
        proof {
            let n = self.file_links@.len();
            let fo = focus_order(n);
            assert(fo[k as int] == self.focus);
            if (k as int) < 4 {
                assert(fo[k as int] == FormFocus::Format(k));
            } else if (k as int) < 4 + n {
                assert(fo[k as int] == FormFocus::File((k - 4) as usize));
            }
        }
    }

    /// Space: pick the focused format, or toggle the focused file.
    pub fn handle_space(&mut self)
        requires
            old(self).wf(),
        ensures
            final(self).wf(),
            match old(self).focus {
                FormFocus::Format(i) => final(self).selected_format == all_formats()[i as int]
                    && final(self).file_selected == old(self).file_selected,
                FormFocus::File(i) => final(self).file_selected@ == old(self).file_selected@.update(
                    i as int,
                    !old(self).file_selected@[i as int],
                ) && final(self).selected_format == old(self).selected_format,
                _ => final(self).file_selected == old(self).file_selected && final(self).selected_format
                    == old(self).selected_format,
            },
            final(self).focus == old(self).focus,
            final(self).file_links == old(self).file_links,
            final(self).output_dir == old(self).output_dir,
            final(self).focus_items == old(self).focus_items,
            final(self).status_msg == old(self).status_msg,
            final(self).description_scroll == old(self).description_scroll,
    {
        match self.focus {
            FormFocus::Format(i) => {
                self.selected_format = ContentFormat::at(i);
            },
            FormFocus::File(i) => {
                let cur = self.file_selected[i];
                self.file_selected.set(i, !cur);
            },
            _ => {},
        }
    }
}

/// Moving the focus down then up (or up then down) lands where it started,
/// and every move keeps the focus on a row of the form.
pub proof fn law_move_focus_round_trip(f: FormFocus, n: nat)
    requires
        focusable(f, n),
        n + 6 <= usize::MAX,
    ensures
        focus_order(n)[focus_pos(f, n)] == f,
        focus_pos(focus_order(n)[wrap(focus_pos(f, n) + 1, focus_order(n).len() as int)], n) == wrap(
            focus_pos(f, n) + 1,
            focus_order(n).len() as int,
        ),
        focus_order(n)[wrap(
            focus_pos(focus_order(n)[wrap(focus_pos(f, n) + 1, focus_order(n).len() as int)], n) - 1,
            focus_order(n).len() as int,
        )] == f,
{
    let len = focus_order(n).len() as int;
    let p = focus_pos(f, n);
    let q = wrap(p + 1, len);
    assert(len == n + 6);
    assert(0 <= q < len);
    lemma_focus_pos_inverse(q, n);
    if p < 4 {
        assert(focus_order(n)[p] == FormFocus::Format(p as usize));
    } else if p < 4 + n {
        assert(focus_order(n)[p] == FormFocus::File((p - 4) as usize));
    }
    assert(0 <= p < len);
    if p + 1 < len {
        vstd::arithmetic::div_mod::lemma_small_mod((p + 1) as nat, len as nat);
        assert(q == p + 1);
        vstd::arithmetic::div_mod::lemma_small_mod(p as nat, len as nat);
        assert(wrap(q - 1, len) == p);
    } else {
        vstd::arithmetic::div_mod::lemma_fundamental_div_mod_converse(p + 1, len, 1, 0);
        assert(q == 0);
        vstd::arithmetic::div_mod::lemma_fundamental_div_mod_converse(-1, len, -1, len - 1);
        assert(wrap(-1, len) == len - 1);
    }
}

proof fn lemma_focus_pos_inverse(k: int, n: nat)
    requires
        0 <= k < n + 6,
        n + 6 <= usize::MAX,
    ensures
        focus_pos(focus_order(n)[k], n) == k,
        focusable(focus_order(n)[k], n),
{
    let fo = focus_order(n);
    if k < 4 {
        assert(fo[k] == FormFocus::Format(k as usize));
    } else if k < 4 + n {
        assert(fo[k] == FormFocus::File((k - 4) as usize));
    } else if k == 4 + n {
        assert(fo[k] == FormFocus::OutputDir);
    } else {
        assert(fo[k] == FormFocus::Download);
    }
}

// ───────────────────────────── keys ─────────────────────────────

/// What the form's caller does after a key.
#[derive(Debug, Clone, Copy, PartialEq, Eq, Structural)]
pub enum FormAction {
    /// Redraw and wait for the next key.
    Stay,
    /// Leave the browser.
    Quit,
    /// Back to the assignment list.
    Back,
    /// Run the export, then call `export_done` with its message.
    Export,
}

/// Control is held (alone or with other modifiers).
pub open spec fn has_control(m: Mods) -> bool {
    m == Mods::Control || m == Mods::ControlPlus
}

/// The action a key leads to.
pub open spec fn form_action(st: ExportFormState, k: Key) -> FormAction {
    if k.code == KeyCode::Char('c') && has_control(k.mods) {
        FormAction::Quit
    } else if k.code == KeyCode::Char('q') {
        FormAction::Quit
    } else if k.code == KeyCode::Esc {
        FormAction::Back
    } else if k.code == KeyCode::Enter {
        FormAction::Export
    } else {
        FormAction::Stay
    }
}

fn pop_last(s: &String) -> (r: String)
    ensures
        r@ == if s@.len() > 0 {
            s@.drop_last()
        } else {
            s@
        },
{
    let v = crate::strs::chars_of(s.as_str());
    if v.len() == 0 {
        return s.clone();
    }
    let r = crate::strs::string_of_range(&v, 0, v.len() - 1);
    assert(v@.subrange(0, v.len() - 1) =~= s@.drop_last());
    r
}

impl ExportFormState {
    /// One key of the form: any key clears the status line; Ctrl-c and `q`
    /// quit, Esc goes back, `j`/`k` scroll the description, Up/Down move the
    /// focus, Space toggles, typing edits the output directory when it has
    /// the focus, Enter exports.
    pub fn on_key(&mut self, key: Key) -> (r: FormAction)
        requires
            old(self).wf(),
        ensures
            final(self).wf(),
            r == form_action(*old(self), key),
            final(self).status_msg is None,
            final(self).file_links == old(self).file_links,
            r == FormAction::Stay && key.code == KeyCode::Char('j') ==> final(self).description_scroll
                == crate::tui_app::sat_inc(old(self).description_scroll),
            r == FormAction::Stay && key.code == KeyCode::Char('k') ==> final(self).description_scroll
                == crate::tui_app::sat_dec(old(self).description_scroll),
            key.code == KeyCode::Down ==> final(self).focus == focus_order(old(self).file_links@.len())[wrap(
                focus_pos(old(self).focus, old(self).file_links@.len()) + 1,
                focus_order(old(self).file_links@.len()).len() as int,
            )],
            key.code == KeyCode::Up ==> final(self).focus == focus_order(old(self).file_links@.len())[wrap(
                focus_pos(old(self).focus, old(self).file_links@.len()) - 1,
                focus_order(old(self).file_links@.len()).len() as int,
            )],
            key.code == KeyCode::Char(' ') ==> match old(self).focus {
                FormFocus::Format(i) => final(self).selected_format == all_formats()[i as int],
                FormFocus::File(i) => final(self).file_selected@ == old(self).file_selected@.update(
                    i as int,
                    !old(self).file_selected@[i as int],
                ),
                _ => final(self).file_selected == old(self).file_selected,
            },
            (key.code is Char && key.code != KeyCode::Char(' ') && r == FormAction::Stay && key.code
                != KeyCode::Char('j') && key.code != KeyCode::Char('k')) ==> final(self).output_dir@ == if old(
                self,
            ).focus == FormFocus::OutputDir {
                old(self).output_dir@.push(key.code->Char_0)
            } else {
                old(self).output_dir@
            },
            key.code == KeyCode::Backspace ==> final(self).output_dir@ == if old(self).focus
                == FormFocus::OutputDir && old(self).output_dir@.len() > 0 {
                old(self).output_dir@.drop_last()
            } else {
                old(self).output_dir@
            },
            !(key.code is Char || key.code == KeyCode::Backspace) ==> final(self).output_dir
                == old(self).output_dir,
    {
        self.status_msg = None;
        let c = key.code;
        if c == KeyCode::Char('c') && (key.mods == Mods::Control || key.mods == Mods::ControlPlus) {
            return FormAction::Quit;
        }
        if c == KeyCode::Char('q') {
            return FormAction::Quit;
        }
        match c {
            KeyCode::Esc => FormAction::Back,
            KeyCode::Char('j') => {
                self.description_scroll = if self.description_scroll < u16::MAX {
                    self.description_scroll + 1
                } else {
                    self.description_scroll
                };
                FormAction::Stay
            },
            KeyCode::Char('k') => {
                self.description_scroll = if self.description_scroll > 0 {
                    self.description_scroll - 1
                } else {
                    0
                };
                FormAction::Stay
            },
            KeyCode::Down => {
                self.move_focus(1);
                FormAction::Stay
            },
            KeyCode::Up => {
                self.move_focus(-1);
                FormAction::Stay
            },
            KeyCode::Char(' ') => {
                self.handle_space();
                FormAction::Stay
            },
            KeyCode::Char(ch) => {
                if self.focus == FormFocus::OutputDir {
                    crate::strs::push_char(&mut self.output_dir, ch);
                }
                FormAction::Stay
            },
            KeyCode::Backspace => {
                if self.focus == FormFocus::OutputDir {
                    self.output_dir = pop_last(&self.output_dir);
                }
                FormAction::Stay
            },
            KeyCode::Enter => FormAction::Export,
            _ => FormAction::Stay,
        }
    }

    /// Show the message of a finished export; it counts as a success unless
    /// it mentions `failed` or `Nothing`.
    pub fn export_done(&mut self, msg: String)
        ensures
            final(self).status_msg matches Some((m, ok)) && m@ == msg@ && ok == (!contains_seq(
                msg@,
                "failed"@,
            ) && !contains_seq(msg@, "Nothing"@)),
            final(self).file_links == old(self).file_links,
            final(self).file_selected == old(self).file_selected,
            final(self).focus == old(self).focus,
            final(self).focus_items == old(self).focus_items,
    {
        let ok = !crate::strs::contains_str(msg.as_str(), "failed") && !crate::strs::contains_str(
            msg.as_str(),
            "Nothing",
        );
        self.status_msg = Some((msg, ok));
    }

    /// What an export does: the text format (unless `None` is chosen) and the
    /// indices of the checked files, in order.
    pub fn export_plan(&self) -> (r: (Option<ContentFormat>, Vec<usize>))
        requires
            self.wf(),
        ensures
            r.0 == if self.selected_format == ContentFormat::Off {
                None
            } else {
                Some(self.selected_format)
            },
            r.1@ == checked(self.file_selected@),
    {
        let mut out: Vec<usize> = Vec::new();
        let mut i: usize = 0;
        while i < self.file_selected.len()
            invariant
                i <= self.file_selected.len(),
                out@ == checked(self.file_selected@.take(i as int)),
            decreases self.file_selected.len() - i,
        {
            assert(self.file_selected@.take(i + 1).drop_last() =~= self.file_selected@.take(i as int));
            if self.file_selected[i] {
                out.push(i);
            }
            i = i + 1;
        }
        assert(self.file_selected@.take(self.file_selected.len() as int) =~= self.file_selected@);
        let f = if self.selected_format == ContentFormat::Off {
            None
        } else {
            Some(self.selected_format)
        };
        (f, out)
    }
}

/// The indices of the `true` entries, in order.
pub open spec fn checked(s: Seq<bool>) -> Seq<usize>
    decreases s.len(),
{
    if s.len() == 0 {
        seq![]
    } else if s.last() {
        checked(s.drop_last()).push((s.len() - 1) as usize)
    } else {
        checked(s.drop_last())
    }
}

/// The message shown after an export: the step messages joined by ` | `, or
/// a hint when nothing was selected.
pub open spec fn export_summary(msgs: Seq<Seq<char>>) -> Seq<char> {
    if msgs.len() == 0 {
        "Nothing to export — select a format or files first."@
    } else {
        crate::strs::join_seqs(msgs, " | "@)
    }
}

/// Summarise the steps of an export.
pub fn export_message(msgs: &Vec<String>) -> (r: String)
    ensures
        r@ == export_summary(crate::assignments::strs_view(msgs@)),
{
    if msgs.len() == 0 {
        crate::strs::owned("Nothing to export — select a format or files first.")
    } else {
        crate::strs::join_strings(msgs, " | ")
    }
}

// ───────────────────────────── the right-hand panel ─────────────────────────────

/// One row of the export panel.
#[derive(Debug, Clone)]
pub enum PanelRow {
    /// A section title.
    Section(String),
    /// A format radio button.
    FormatOption { focused: bool, selected: bool, label: String },
    /// The placeholder when the description links no file.
    NoFiles,
    /// A file checkbox.
    FileOption { focused: bool, checked: bool, name: String },
    /// An empty line.
    Blank,
    /// The output directory field.
    OutputDir { focused: bool, text: String },
    /// The download button.
    DownloadButton { focused: bool },
    /// The status of the last export.
    Status { success: bool, text: String },
}

/// The plain content of a row.
pub enum RowView {
    Section(Seq<char>),
    FormatOption(bool, bool, Seq<char>),
    NoFiles,
    FileOption(bool, bool, Seq<char>),
    Blank,
    OutputDir(bool, Seq<char>),
    DownloadButton(bool),
    Status(bool, Seq<char>),
}

/// The plain content of a row.
pub open spec fn row_view(r: PanelRow) -> RowView {
    match r {
        PanelRow::Section(t) => RowView::Section(t@),
        PanelRow::FormatOption { focused, selected, label } => RowView::FormatOption(focused, selected, label@),
        PanelRow::NoFiles => RowView::NoFiles,
        PanelRow::FileOption { focused, checked, name } => RowView::FileOption(focused, checked, name@),
        PanelRow::Blank => RowView::Blank,
        PanelRow::OutputDir { focused, text } => RowView::OutputDir(focused, text@),
        PanelRow::DownloadButton { focused } => RowView::DownloadButton(focused),
        PanelRow::Status { success, text } => RowView::Status(success, text@),
    }
}

/// The format rows, in list order.
pub open spec fn format_rows(st: ExportFormState) -> Seq<RowView> {
    Seq::new(
        4,
        |i: int|
            RowView::FormatOption(
                st.focus == FormFocus::Format(i as usize),
                all_formats()[i] == st.selected_format,
                format_label(all_formats()[i]),
            ),
    )
}

/// The file rows, or the placeholder.
pub open spec fn file_rows(st: ExportFormState) -> Seq<RowView> {
    if st.file_links@.len() == 0 {
        seq![RowView::NoFiles]
    } else {
        Seq::new(
            st.file_links@.len(),
            |i: int|
                RowView::FileOption(
                    st.focus == FormFocus::File(i as usize),
                    st.file_selected@[i],
                    st.file_links@[i].name@,
                ),
        )
    }
}

/// The status row text: two spaces, a tick or a cross, the message.
pub open spec fn status_text(success: bool, msg: Seq<char>) -> Seq<char> {
    "  "@ + (if success {
        "✓ "@
    } else {
        "✗ "@
    }) + msg
}

/// Every row of the export panel, top to bottom.
pub open spec fn panel_rows(st: ExportFormState) -> Seq<RowView> {
    let head = seq![RowView::Section("Content Format"@)] + format_rows(st) + seq![
        RowView::Blank,
        RowView::Section("Files"@),
    ] + file_rows(st) + seq![
        RowView::Blank,
        RowView::Section("Output Directory"@),
        RowView::OutputDir(st.focus == FormFocus::OutputDir, st.output_dir@),
        RowView::Blank,
        RowView::DownloadButton(st.focus == FormFocus::Download),
    ];
    match st.status_msg {
        Some((m, ok)) => head + seq![RowView::Blank, RowView::Status(ok, status_text(ok, m@))],
        None => head,
    }
}

/// The rows of the right-hand export panel, top to bottom: the formats, the
/// files, the output directory, the download button, and the last status.
pub fn right_panel_rows(st: &ExportFormState) -> (r: Vec<PanelRow>)
    requires
        st.wf(),
    ensures
        r@.map_values(|x: PanelRow| row_view(x)) == panel_rows(*st),
{
    let mut rows: Vec<PanelRow> = Vec::new();
    rows.push(PanelRow::Section(crate::strs::owned("Content Format")));
    let mut i: usize = 0;
    while i < 4
        invariant
            i <= 4,
            rows@.map_values(|x: PanelRow| row_view(x)) == seq![RowView::Section("Content Format"@)]
                + format_rows(*st).take(i as int),
        decreases 4 - i,
    {
        let f = ContentFormat::at(i);
        let ghost before = rows@.map_values(|x: PanelRow| row_view(x));
        rows.push(
            PanelRow::FormatOption {
                focused: st.focus == FormFocus::Format(i),
                selected: f == st.selected_format,
                label: crate::strs::owned(f.label()),
            },
        );
        proof {
            assert(format_rows(*st).take(i + 1) =~= format_rows(*st).take(i as int).push(format_rows(*st)[i as int]));
            assert(rows@.map_values(|x: PanelRow| row_view(x)) =~= before.push(format_rows(*st)[i as int]));
        }
        i = i + 1;
    }
    assert(format_rows(*st).take(4) =~= format_rows(*st));
    rows.push(PanelRow::Blank);
    rows.push(PanelRow::Section(crate::strs::owned("Files")));
    let ghost mid = rows@.map_values(|x: PanelRow| row_view(x));
    assert(mid =~= seq![RowView::Section("Content Format"@)] + format_rows(*st) + seq![
        RowView::Blank,
        RowView::Section("Files"@),
    ]);
    if st.file_links.len() == 0 {
        rows.push(PanelRow::NoFiles);
        assert(rows@.map_values(|x: PanelRow| row_view(x)) =~= mid + file_rows(*st));
    } else {
        let mut k: usize = 0;
        while k < st.file_links.len()
            invariant
                k <= st.file_links.len(),
                st.wf(),
                st.file_links@.len() > 0,
                rows@.map_values(|x: PanelRow| row_view(x)) == mid + file_rows(*st).take(k as int),
            decreases st.file_links.len() - k,
        {
            let ghost before = rows@.map_values(|x: PanelRow| row_view(x));
            rows.push(
                PanelRow::FileOption {
                    focused: st.focus == FormFocus::File(k),
                    checked: st.file_selected[k],
                    name: st.file_links[k].name.clone(),
                },
            );
            proof {
                assert(file_rows(*st).take(k + 1) =~= file_rows(*st).take(k as int).push(file_rows(*st)[k as int]));
                assert(rows@.map_values(|x: PanelRow| row_view(x)) =~= before.push(file_rows(*st)[k as int]));
            }
            k = k + 1;
        }
        assert(file_rows(*st).take(st.file_links.len() as int) =~= file_rows(*st));
    }
    let ghost mid2 = rows@.map_values(|x: PanelRow| row_view(x));
    rows.push(PanelRow::Blank);
    rows.push(PanelRow::Section(crate::strs::owned("Output Directory")));
    rows.push(PanelRow::OutputDir { focused: st.focus == FormFocus::OutputDir, text: st.output_dir.clone() });
    rows.push(PanelRow::Blank);
    rows.push(PanelRow::DownloadButton { focused: st.focus == FormFocus::Download });
    let ghost head = rows@.map_values(|x: PanelRow| row_view(x));
    assert(head =~= mid2 + seq![
        RowView::Blank,
        RowView::Section("Output Directory"@),
        RowView::OutputDir(st.focus == FormFocus::OutputDir, st.output_dir@),
        RowView::Blank,
        RowView::DownloadButton(st.focus == FormFocus::Download),
    ]);
    match &st.status_msg {
        Some((m, ok)) => {
            rows.push(PanelRow::Blank);
            let mut t = crate::strs::owned("  ");
            if *ok {
                crate::strs::push_str(&mut t, "✓ ");
            } else {
                crate::strs::push_str(&mut t, "✗ ");
            }
            crate::strs::push_str(&mut t, m.as_str());
            rows.push(PanelRow::Status { success: *ok, text: t });
            assert(rows@.map_values(|x: PanelRow| row_view(x)) =~= head + seq![
                RowView::Blank,
                RowView::Status(*ok, status_text(*ok, m@)),
            ]);
        },
        None => {},
    }
    rows
}

// ───────────────────────────── the left-hand panel and the export ─────────────────────────────

/// `str::lines`: the pieces between `\n`, without a final empty piece after
/// a trailing `\n`, each without a trailing `\r`.
pub open spec fn lines_of(s: Seq<char>) -> Seq<Seq<char>> {
    let pieces = split_char(s, '\n');
    let kept = if s.len() > 0 && s.last() == '\n' {
        pieces.drop_last()
    } else if s.len() == 0 {
        seq![]
    } else {
        pieces
    };
    kept.map_values(
        |l: Seq<char>| if l.len() > 0 && l.last() == '\r' {
            l.drop_last()
        } else {
            l
        },
    )
}

/// The description as the left panel shows it: each line indented by two
/// spaces, or a placeholder when there is none.
pub open spec fn description_display(text: Seq<char>) -> Seq<char> {
    if text.len() == 0 {
        "  (no description)"@
    } else {
        crate::strs::join_seqs(lines_of(text).map_values(|l: Seq<char>| "  "@ + l), "\n"@)
    }
}

/// What an assignment's name becomes in an export file name: every
/// character that is not alphanumeric, `-` or `_` becomes `_`.
pub open spec fn safe_stem(name: Seq<char>) -> Seq<char> {
    name.map_values(|c: char| if spec_is_alphanumeric(c) || c == '-' || c == '_' { c } else { '_' })
}

/// `char::is_alphanumeric`: Unicode `Alphabetic` or `Numeric`; it depends on
/// the character alone.
pub uninterp spec fn spec_is_alphanumeric(c: char) -> bool;

/// `char::is_alphanumeric`.
#[verifier::external_body]
fn is_alphanumeric(c: char) -> (r: bool)
    ensures
        r == spec_is_alphanumeric(c),
{
    c.is_alphanumeric()
}

/// The file name an export of `name` is written to.
pub open spec fn export_file_name(name: Seq<char>, f: ContentFormat) -> Seq<char> {
    safe_stem(name) + match f {
        ContentFormat::Json => ".json"@,
        ContentFormat::Markdown => ".md"@,
        ContentFormat::Html => ".html"@,
        ContentFormat::Off => seq![],
    }
}

/// The export file name for an assignment name and a chosen format.
pub fn export_filename(name: &str, f: ContentFormat) -> (r: String)
    requires
        f != ContentFormat::Off,
    ensures
        r@ == export_file_name(name@, f),
{
    let v = crate::strs::chars_of(name);
    let mut out = String::new();
    let mut i: usize = 0;
    while i < v.len()
        invariant
            i <= v.len(),
            v@ == name@,
            out@ == safe_stem(v@.take(i as int)),
        decreases v.len() - i,
    {
        let c = v[i];
        let keep = is_alphanumeric(c) || c == '-' || c == '_';
        crate::strs::push_char(&mut out, if keep {
            c
        } else {
            '_'
        });
        assert(safe_stem(v@.take(i + 1)) =~= safe_stem(v@.take(i as int)).push(if keep {
            c
        } else {
            '_'
        }));
        i = i + 1;
    }
    assert(v@.take(v.len() as int) =~= v@);
    match f {
        ContentFormat::Json => crate::strs::push_str(&mut out, ".json"),
        ContentFormat::Markdown => crate::strs::push_str(&mut out, ".md"),
        _ => crate::strs::push_str(&mut out, ".html"),
    }
    out
}

/// The Markdown export of an assignment.
pub open spec fn markdown_text(name: Seq<char>, due: Seq<char>, pts: Seq<char>, desc: Seq<char>) -> Seq<char> {
    "# "@ + name + "\n\n- **Due:** "@ + due + "\n- **Points:** "@ + pts + "\n\n---\n\n"@ + desc
}

/// The HTML export of an assignment.
pub open spec fn html_text(name: Seq<char>, due: Seq<char>, pts: Seq<char>, raw: Seq<char>) -> Seq<char> {
    "<html><head><meta charset=\"utf-8\"><title>"@ + name + "</title></head><body><h1>"@ + name
        + "</h1><p><b>Due:</b> "@ + due + " | <b>Points:</b> "@ + pts + "</p><hr/>"@ + raw
        + "</body></html>"@
}

/// The Markdown export: a title, the due date and points, a rule, the text.
pub fn markdown_export(name: &str, due: &str, pts: &str, desc: &str) -> (r: String)
    ensures
        r@ == markdown_text(name@, due@, pts@, desc@),
{
    let mut s = crate::strs::owned("# ");
    crate::strs::push_str(&mut s, name);
    crate::strs::push_str(&mut s, "\n\n- **Due:** ");
    crate::strs::push_str(&mut s, due);
    crate::strs::push_str(&mut s, "\n- **Points:** ");
    crate::strs::push_str(&mut s, pts);
    crate::strs::push_str(&mut s, "\n\n---\n\n");
    crate::strs::push_str(&mut s, desc);
    s
}

/// The HTML export: a minimal page around the raw description.
pub fn html_export(name: &str, due: &str, pts: &str, raw: &str) -> (r: String)
    ensures
        r@ == html_text(name@, due@, pts@, raw@),
{
    let mut s = crate::strs::owned("<html><head><meta charset=\"utf-8\"><title>");
    crate::strs::push_str(&mut s, name);
    crate::strs::push_str(&mut s, "</title></head><body><h1>");
    crate::strs::push_str(&mut s, name);
    crate::strs::push_str(&mut s, "</h1><p><b>Due:</b> ");
    crate::strs::push_str(&mut s, due);
    crate::strs::push_str(&mut s, " | <b>Points:</b> ");
    crate::strs::push_str(&mut s, pts);
    crate::strs::push_str(&mut s, "</p><hr/>");
    crate::strs::push_str(&mut s, raw);
    crate::strs::push_str(&mut s, "</body></html>");
    s
}


// ───────────────────────────── choosing a course and an assignment ─────────────────────────────

/// `s` padded on the right with spaces to `w` characters (`{:<w}`).
pub open spec fn pad_right(s: Seq<char>, w: nat) -> Seq<char> {
    if s.len() < w {
        s + crate::screens::spaces((w - s.len()) as nat)
    } else {
        s
    }
}

fn pad_right_exec(s: &str, w: usize) -> (r: String)
    ensures
        r@ == pad_right(s@, w as nat),
{
    let n = crate::strs::chars_of(s).len();
    let mut r = crate::strs::owned(s);
    if n < w {
        crate::screens::push_spaces(&mut r, w - n);
    } else {
        assert(r@ =~= s@);
    }
    r
}

/// The room a label leaves for a name: `width` less `used` bytes, none when
/// they do not fit.
pub open spec fn room(width: nat, used: nat) -> nat {
    if width > used {
        (width - used) as nat
    } else {
        0
    }
}

/// The line of a course in the course chooser, `width` columns wide: the
/// name (`(unknown)`) cut and padded to the room the code leaves, two
/// spaces, the code.
pub open spec fn course_choice(name: Option<String>, code: Option<String>, width: nat) -> Seq<char> {
    let c = crate::modules::text_or(code, ""@);
    let max = room(width, crate::views::byte_len(c) + 4);
    pad_right(truncated(crate::modules::text_or(name, "(unknown)"@), max as usize), max) + "  "@ + c
}

/// The line of a course in the course chooser (see `course_choice`).
pub fn course_choice_label(name: &Option<String>, code: &Option<String>, width: u16) -> (r: String)
    ensures
        r@ == course_choice(*name, *code, width as nat),
{
    let c = crate::modules::text_or_exec(code, "");
    let used = crate::views::byte_count_of(c.as_str()) + 4;
    let max: usize = if (width as u128) > used {
        (width as u128 - used) as usize
    } else {
        0
    };
    let n = crate::modules::text_or_exec(name, "(unknown)");
    let t = truncate_str(n.as_str(), max);
    let mut r = pad_right_exec(t.as_str(), max);
    crate::strs::push_str(&mut r, "  ");
    crate::strs::push_str(&mut r, c.as_str());
    r
}

/// Whether a course matches a query: its name or its code contains the
/// query, all lower-cased.
pub open spec fn course_query_match(name: Option<String>, code: Option<String>, query: Seq<char>) -> bool {
    let q = crate::strs::spec_to_lowercase(query);
    (name matches Some(n) && contains_seq(crate::strs::spec_to_lowercase(n@), q)) || (code matches Some(
        c,
    ) && contains_seq(crate::strs::spec_to_lowercase(c@), q))
}

fn lower_contains(text: &Option<String>, q: &str) -> (r: bool)
    ensures
        r == (text matches Some(t) && contains_seq(crate::strs::spec_to_lowercase(t@), q@)),
{
    match text {
        Some(t) => {
            let lt = crate::strs::to_lowercase(t.as_str());
            crate::strs::contains_str(lt.as_str(), q)
        },
        None => false,
    }
}

/// Whether a course matches a query (see `course_query_match`).
pub fn course_matches(name: &Option<String>, code: &Option<String>, query: &str) -> (r: bool)
    ensures
        r == course_query_match(*name, *code, query@),
{
    let q = crate::strs::to_lowercase(query);
    lower_contains(name, q.as_str()) || lower_contains(code, q.as_str())
}

/// The line of an assignment in the assignment chooser, `width` columns
/// wide: the name (`(unknown)`) cut and padded to the room the suffix
/// leaves, then two spaces, the due date (`MM/DD HH:MM` or `-`), two
/// spaces and the points (`<p>pts` or `-`).
pub open spec fn assignment_choice(
    name: Option<String>,
    due_at: Option<crate::assignments::Timestamp>,
    points: Option<String>,
    width: nat,
) -> Seq<char> {
    let due = match due_at {
        Some(d) => crate::views::spec_utc_format(d.secs, d.nanos, "%m/%d %H:%M"@),
        None => "-"@,
    };
    let pts = match points {
        Some(p) => p@ + "pts"@,
        None => "-"@,
    };
    let suffix = "  "@ + due + "  "@ + pts;
    let max = room(width, crate::views::byte_len(suffix) + 2);
    pad_right(truncated(crate::modules::text_or(name, "(unknown)"@), max as usize), max) + suffix
}

/// The line of an assignment in the assignment chooser (see
/// `assignment_choice`); the points arrive as printed.
pub fn assignment_choice_label(
    name: &Option<String>,
    due_at: Option<crate::assignments::Timestamp>,
    points: &Option<String>,
    width: u16,
) -> (r: String)
    requires
        due_at matches Some(d) ==> crate::assignments::ts_valid(d),
    ensures
        r@ == assignment_choice(*name, due_at, *points, width as nat),
{
    let mut suffix = crate::strs::owned("  ");
    match due_at {
        Some(d) => {
            let t = crate::views::utc_format(d, "%m/%d %H:%M");
            crate::strs::push_str(&mut suffix, t.as_str());
        },
        None => crate::strs::push_str(&mut suffix, "-"),
    }
    crate::strs::push_str(&mut suffix, "  ");
    match points {
        Some(p) => {
            crate::strs::push_str(&mut suffix, p.as_str());
            crate::strs::push_str(&mut suffix, "pts");
        },
        None => crate::strs::push_str(&mut suffix, "-"),
    }
    proof {
        let due = match due_at {
            Some(d) => crate::views::spec_utc_format(d.secs, d.nanos, "%m/%d %H:%M"@),
            None => "-"@,
        };
        let pts = match points {
            Some(p) => p@ + "pts"@,
            None => "-"@,
        };
        assert(suffix@ =~= "  "@ + due + "  "@ + pts);
    }
    let used = crate::views::byte_count_of(suffix.as_str()) + 2;
    let max: usize = if (width as u128) > used {
        (width as u128 - used) as usize
    } else {
        0
    };
    let n = crate::modules::text_or_exec(name, "(unknown)");
    let t = truncate_str(n.as_str(), max);
    let mut r = pad_right_exec(t.as_str(), max);
    crate::strs::push_str(&mut r, suffix.as_str());
    r
}

/// Whether an assignment matches a query: its name contains the query, both
/// lower-cased.
pub fn assignment_matches(name: &Option<String>, query: &str) -> (r: bool)
    ensures
        r == (name matches Some(n) && contains_seq(
            crate::strs::spec_to_lowercase(n@),
            crate::strs::spec_to_lowercase(query@),
        )),
{
    let q = crate::strs::to_lowercase(query);
    lower_contains(name, q.as_str())
}


/// The file links of a description, in order (none without a description).
pub open spec fn description_links(description: Option<String>) -> Seq<(Seq<char>, Seq<char>, Seq<char>)> {
    match description {
        Some(d) => links_of(spec_html_anchors(d@)),
        None => seq![],
    }
}

impl ExportFormState {
    /// The export form of an assignment: its name (`(unknown)`), due date
    /// (`MM/DD HH:MM`, or `-`), points as printed (`-`), the text of its
    /// description and the files it links to. `None` only when the links
    /// are too many to number the form's rows.
    pub fn for_assignment(
        name: &Option<String>,
        due_at: Option<crate::assignments::Timestamp>,
        points: &Option<String>,
        description: &Option<String>,
    ) -> (r: Option<ExportFormState>)
        requires
            due_at matches Some(d) ==> crate::assignments::ts_valid(d),
        ensures
            r is Some <==> description_links(*description).len() + 6 <= usize::MAX,
            r matches Some(st) ==> {
                &&& st.wf()
                &&& st.name@ == crate::modules::text_or(*name, "(unknown)"@)
                &&& st.due@ == match due_at {
                    Some(d) => crate::views::spec_utc_format(d.secs, d.nanos, "%m/%d %H:%M"@),
                    None => "-"@,
                }
                &&& st.points@ == crate::modules::text_or(*points, "-"@)
                &&& st.description_text@ == match description {
                    Some(d) => crate::text::html_text(d@),
                    None => ""@,
                }
                &&& st.file_links@.map_values(|l: FileLink| link_view(l)) == description_links(
                    *description,
                ).map_values(|t: (Seq<char>, Seq<char>, Seq<char>)| (t.0, t.1, Some(t.2)))
                &&& st.selected_format == ContentFormat::Off
                &&& forall|i: int| 0 <= i < st.file_selected@.len() ==> !st.file_selected@[i]
                &&& st.output_dir@ == "./"@
                &&& st.focus == FormFocus::Format(0)
                &&& st.status_msg is None
            },
    {
        proof {
            reveal_strlit("");
        }
        let n = crate::modules::text_or_exec(name, "(unknown)");
        let due = match due_at {
            Some(d) => crate::views::utc_format(d, "%m/%d %H:%M"),
            None => crate::strs::owned("-"),
        };
        let pts = crate::modules::text_or_exec(points, "-");
        let (text, links) = match description {
            Some(d) => (crate::text::html_to_text(d.as_str()), extract_file_links(d.as_str())),
            None => (String::new(), Vec::new()),
        };
        proof {
            assert(links@.map_values(|l: FileLink| link_view(l)) =~= description_links(*description).map_values(
                |t: (Seq<char>, Seq<char>, Seq<char>)| (t.0, t.1, Some(t.2)),
            ));
        }
        if links.len() > usize::MAX - 6 {
            return None;
        }
        Some(ExportFormState::new(n, due, pts, text, links))
    }
}


/// A line of `str::lines` as the left panel shows it: without a trailing
/// `\r`, indented by two spaces.
pub open spec fn shown_line(l: Seq<char>) -> Seq<char> {
    "  "@ + if l.len() > 0 && l.last() == '\r' {
        l.drop_last()
    } else {
        l
    }
}

/// The description text of the left panel (see `description_display`).
pub fn description_panel(text: &str) -> (r: String)
    ensures
        r@ == description_display(text@),
{
    let v = crate::strs::chars_of(text);
    if v.len() == 0 {
        return crate::strs::owned("  (no description)");
    }
    let pieces = crate::saml::split_all(&v, '\n');
    let ghost pv = pieces@.map_values(|p: Vec<char>| p@);
    let n: usize = if v[v.len() - 1] == '\n' {
        if pieces.len() > 0 {
            pieces.len() - 1
        } else {
            0
        }
    } else {
        pieces.len()
    };
    proof {
        crate::strs::lemma_split_char_nonempty(v@, '\n');
        assert(v@.last() == v@[v.len() - 1]);
    }
    let ghost kept = if v@.last() == '\n' {
        pv.drop_last()
    } else {
        pv
    };
    assert(kept.len() == n);
    let mut shown: Vec<String> = Vec::new();
    let mut i: usize = 0;
    while i < n
        invariant
            i <= n,
            n <= pieces@.len(),
            kept.len() == n,
            pv == pieces@.map_values(|p: Vec<char>| p@),
            forall|k: int| 0 <= k < n ==> kept[k] == pv[k],
            shown@.map_values(|l: String| l@) == kept.take(i as int).map_values(|l: Seq<char>| shown_line(l)),
        decreases n - i,
    {
        let p = &pieces[i];
        let hi = if p.len() > 0 && p[p.len() - 1] == '\r' {
            p.len() - 1
        } else {
            p.len()
        };
        let mut l = crate::strs::owned("  ");
        let body = crate::strs::string_of_range(p, 0, hi);
        crate::strs::push_str(&mut l, body.as_str());
        proof {
            assert(kept[i as int] == p@);
            if p@.len() > 0 && p@.last() == '\r' {
                assert(p@.subrange(0, hi as int) =~= p@.drop_last());
            } else {
                assert(p@.subrange(0, hi as int) =~= p@);
            }
        }
        let ghost before = shown@;
        shown.push(l);
        assert(shown@.map_values(|l: String| l@) =~= before.map_values(|l: String| l@).push(l@));
        assert(kept.take(i + 1) =~= kept.take(i as int).push(kept[i as int]));
        assert(kept.take(i + 1).map_values(|l: Seq<char>| shown_line(l)) =~= kept.take(i as int).map_values(
            |l: Seq<char>| shown_line(l),
        ).push(shown_line(kept[i as int])));
        i = i + 1;
    }
    proof {
        assert(kept.take(n as int) =~= kept);
        let lines = lines_of(text@);
        assert(lines =~= kept.map_values(
            |l: Seq<char>| if l.len() > 0 && l.last() == '\r' {
                l.drop_last()
            } else {
                l
            },
        ));
        assert(lines.map_values(|l: Seq<char>| "  "@ + l) =~= kept.map_values(|l: Seq<char>| shown_line(l)));
    }
    crate::strs::join_strings(&shown, "\n")
}

} // verus!
