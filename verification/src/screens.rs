//! The frame around every TUI screen: the header, the status bar, the help
//! and notification pop-ups, and the rows of the course tabs. Colours and
//! layout are left to the terminal front end.

use vstd::prelude::*;

use crate::assignments::{ts_valid, Timestamp};
use crate::modules::text_or;
use crate::num::{dec_int, dec_nat};
use crate::tui::{CourseTab, DashboardFocus, NotificationItem, Screen, SearchResult, Urgency};
use crate::tui_app::{secs_until, trunc_div, view_index, App};
use crate::views::{ago_text, assignment_due, byte_len, due_text, marker, spec_utc_format};

verus! {

// ───────────────────────────── padding ─────────────────────────────

/// `n` spaces.
pub open spec fn spaces(n: nat) -> Seq<char> {
    Seq::new(n, |i: int| ' ')
}

/// `left`, then as many spaces as fill a line of `width` bytes, then
/// `right`; no spaces when the two already fill it.
pub open spec fn spread(left: Seq<char>, right: Seq<char>, width: nat) -> Seq<char> {
    let used = byte_len(left) + byte_len(right);
    let fill = if width > used {
        spaces((width - used) as nat)
    } else {
        seq![]
    };
    left + fill + right
}

/// Appends `n` spaces.
pub(crate) fn push_spaces(s: &mut String, n: usize)
    ensures
        final(s)@ == old(s)@ + spaces(n as nat),
{
    let mut i: usize = 0;
    while i < n
        invariant
            i <= n,
            s@ == old(s)@ + spaces(i as nat),
        decreases n - i,
    {
        crate::strs::push_char(s, ' ');
        assert(spaces((i + 1) as nat) =~= spaces(i as nat).push(' '));
        i = i + 1;
    }
}

/// `left` and `right` spread over a line of `width` bytes.
fn spread_line(left: &str, right: &str, width: u16) -> (r: String)
    ensures
        r@ == spread(left@, right@, width as nat),
{
    let used = crate::views::byte_count_of(left) + crate::views::byte_count_of(right);
    let mut r = crate::strs::owned(left);
    if (width as u128) > used {
        push_spaces(&mut r, (width as u128 - used) as usize);
    } else {
        proof {
            assert(spaces(0) =~= seq![]);
        }
        push_spaces(&mut r, 0);
    }
    crate::strs::push_str(&mut r, right);
    r
}

// ───────────────────────────── header ─────────────────────────────

/// The name shown for course `cid`: that of its view, else `Course`.
pub open spec fn course_title(views: Seq<crate::tui::CourseViewState>, cid: i64) -> Seq<char> {
    let i = view_index(views, cid);
    if i >= 0 {
        views[i].course_name@
    } else {
        "Course"@
    }
}

/// The left part of the header: the app's name and where the user is.
pub open spec fn header_title(
    screen: Screen,
    user: Seq<char>,
    views: Seq<crate::tui::CourseViewState>,
) -> Seq<char> {
    match screen {
        Screen::Login => " NTU COOL "@,
        Screen::Dashboard => " NTU COOL  |  Dashboard  "@ + if user.len() == 0 {
            ""@
        } else {
            " |  "@ + user + " "@
        },
        Screen::CourseDetail(cid) => " NTU COOL  |  "@ + course_title(views, cid) + " "@,
    }
}

/// The right part of the header: the unread count when there is one, and
/// the two global keys.
pub open spec fn header_right(unread: nat) -> Seq<char> {
    let badge = if unread > 0 {
        "  ["@ + dec_nat(unread) + " unread]  "@
    } else {
        ""@
    };
    badge + "Ctrl+P: Search  ?: Help "@
}

/// The header line of a terminal `width` bytes wide.
pub open spec fn header_line(app: App, user_name: Option<String>, width: nat) -> Seq<char> {
    spread(
        header_title(app.screen, text_or(user_name, ""@), app.course_views@),
        header_right(app.unread_count as nat),
        width,
    )
}

/// The header line (see `header_line`); `user_name` is the name of the
/// user logged in, when known.
pub fn header_text(app: &App, user_name: &Option<String>, width: u16) -> (r: String)
    ensures
        r@ == header_line(*app, *user_name, width as nat),
{
    proof {
        reveal_strlit("");
    }
    let title = match app.screen {
        Screen::Login => crate::strs::owned(" NTU COOL "),
        Screen::Dashboard => {
            let mut t = crate::strs::owned(" NTU COOL  |  Dashboard  ");
            match user_name {
                Some(u) => {
                    if crate::strs::chars_of(u.as_str()).len() > 0 {
                        crate::strs::push_str(&mut t, " |  ");
                        crate::strs::push_str(&mut t, u.as_str());
                        crate::strs::push_str(&mut t, " ");
                    } else {
                        assert(t@ + ""@ =~= t@);
                    }
                },
                None => {
                    assert(t@ + ""@ =~= t@);
                },
            }
            t
        },
        Screen::CourseDetail(cid) => {
            let mut t = crate::strs::owned(" NTU COOL  |  ");
            match app.find_view(cid) {
                Some(i) => crate::strs::push_str(&mut t, app.course_views[i].course_name.as_str()),
                None => crate::strs::push_str(&mut t, "Course"),
            }
            crate::strs::push_str(&mut t, " ");
            t
        },
    };
    assert(title@ == header_title(app.screen, text_or(*user_name, ""@), app.course_views@));
    let mut right = String::new();
    if app.unread_count > 0 {
        crate::strs::push_str(&mut right, "  [");
        crate::num::push_dec_u64(&mut right, app.unread_count as u64);
        crate::strs::push_str(&mut right, " unread]  ");
    }
    crate::strs::push_str(&mut right, "Ctrl+P: Search  ?: Help ");
    proof {
        assert(right@ == header_right(app.unread_count as nat));
    }
    spread_line(title.as_str(), right.as_str(), width)
}

// ───────────────────────────── status bar ─────────────────────────────

/// How long ago the last sync was, as of `now`.
pub open spec fn sync_text(last: Timestamp, now: Timestamp) -> Seq<char> {
    let secs = secs_until(now, last);
    if secs < 60 {
        "synced just now"@
    } else if trunc_div(secs, 60) < 60 {
        "synced "@ + dec_int(trunc_div(secs, 60)) + "m ago"@
    } else {
        "synced "@ + dec_int(trunc_div(secs, 3600)) + "h ago"@
    }
}

/// The status bar of a terminal `width` bytes wide: the status message and
/// a loading mark on the left, the last sync on the right.
pub open spec fn status_line(
    status: Option<String>,
    loading: bool,
    last_sync: Option<Timestamp>,
    now: Timestamp,
    width: nat,
) -> Seq<char> {
    let left = " "@ + text_or(status, ""@) + if loading {
        " [loading...] "@
    } else {
        ""@
    };
    let sync = match last_sync {
        Some(t) => sync_text(t, now),
        None => ""@,
    };
    spread(left, sync + " "@, width)
}

/// The status bar (see `status_line`).
pub fn status_bar_text(app: &App, now: Timestamp, width: u16) -> (r: String)
    requires
        ts_valid(now),
        app.last_sync matches Some(t) ==> ts_valid(t),
    ensures
        r@ == status_line(app.status_message, app.loading, app.last_sync, now, width as nat),
{
    proof {
        reveal_strlit("");
    }
    let mut left = crate::strs::owned(" ");
    match &app.status_message {
        Some(m) => crate::strs::push_str(&mut left, m.as_str()),
        None => {
            assert(left@ + ""@ =~= left@);
        },
    }
    if app.loading {
        crate::strs::push_str(&mut left, " [loading...] ");
    } else {
        assert(left@ + ""@ =~= left@);
    }
    let mut right = String::new();
    match app.last_sync {
        Some(t) => {
            let secs = crate::tui_app::whole_secs(now, t);
            if secs < 60 {
                crate::strs::push_str(&mut right, "synced just now");
            } else if secs / 60 < 60 {
                crate::strs::push_str(&mut right, "synced ");
                crate::num::push_dec_i64(&mut right, secs / 60);
                crate::strs::push_str(&mut right, "m ago");
            } else {
                crate::strs::push_str(&mut right, "synced ");
                crate::num::push_dec_i64(&mut right, secs / 3600);
                crate::strs::push_str(&mut right, "h ago");
            }
            assert(right@ == sync_text(t, now));
        },
        None => {},
    }
    crate::strs::push_str(&mut right, " ");
    spread_line(left.as_str(), right.as_str(), width)
}


// ───────────────────────────── help ─────────────────────────────

/// The key bindings of the help pop-up, by section: the keys and what they
/// do.
pub open spec fn help_sections() -> Seq<(Seq<char>, Seq<(Seq<char>, Seq<char>)>)> {
    seq![
        ("Global"@, seq![
            ("Ctrl+C"@, "Quit"@),
            ("Ctrl+P"@, "Quick search / fuzzy finder"@),
            ("?"@, "Toggle this help screen"@),
        ]),
        ("Dashboard"@, seq![
            ("j / k"@, "Navigate down / up"@),
            ("h / l"@, "Switch panel focus"@),
            ("Tab"@, "Switch panels"@),
            ("Enter"@, "Open selected course"@),
            ("g / G"@, "Go to first / last item"@),
            ("r"@, "Refresh all data"@),
            ("o"@, "Open selected in browser"@),
            ("/"@, "Search"@),
            ("q"@, "Quit"@),
        ]),
        ("Course Detail"@, seq![
            ("1-8"@, "Jump to tab by number"@),
            ("a"@, "Assignments tab"@),
            ("n"@, "Announcements tab"@),
            ("d"@, "Discussions tab"@),
            ("f"@, "Files tab"@),
            ("m"@, "Modules tab"@),
            ("p"@, "Pages tab"@),
            ("Tab / Shift+Tab"@, "Cycle through tabs"@),
            ("j / k"@, "Navigate items"@),
            ("Enter"@, "Open detail / Enter folder"@),
            ("Backspace / Esc"@, "Go back"@),
            ("Ctrl+S"@, "Download selected file"@),
            ("o"@, "Open in browser"@),
            ("r"@, "Refresh"@),
        ]),
        ("Assignment Detail"@, seq![
            ("j / k"@, "Scroll description"@),
            ("o"@, "Open in browser"@),
            ("Esc"@, "Close"@),
        ]),
        ("File Preview"@, seq![
            ("d / Enter"@, "Download file"@),
            ("o"@, "Open URL in browser"@),
            ("Esc"@, "Close"@),
        ]),
        ("Search"@, seq![
            ("Type"@, "Filter results"@),
            ("Up / Down"@, "Navigate results"@),
            ("Enter"@, "Open selected"@),
            ("Esc"@, "Close search"@),
        ]),
    ]
}

/// `s` right-aligned in `w` characters (`{:>w}`).
pub open spec fn pad_left(s: Seq<char>, w: nat) -> Seq<char> {
    if s.len() < w {
        spaces((w - s.len()) as nat) + s
    } else {
        s
    }
}

/// The line of one binding: the keys right-aligned in 16 characters.
pub open spec fn binding_line(b: (Seq<char>, Seq<char>)) -> Seq<char> {
    "    "@ + pad_left(b.0, 16) + "   "@ + b.1
}

/// The lines of one section: a blank line, the title, a blank line, then
/// one line per binding.
pub open spec fn section_lines(title: Seq<char>, bs: Seq<(Seq<char>, Seq<char>)>) -> Seq<Seq<char>> {
    seq![""@, "  "@ + title, ""@] + bs.map_values(|b: (Seq<char>, Seq<char>)| binding_line(b))
}

/// The lines of several sections, one after the other.
pub open spec fn sections_text(secs: Seq<(Seq<char>, Seq<(Seq<char>, Seq<char>)>)>) -> Seq<Seq<char>>
    decreases secs.len(),
{
    if secs.len() == 0 {
        seq![]
    } else {
        sections_text(secs.drop_last()) + section_lines(secs.last().0, secs.last().1)
    }
}

/// The help pop-up: every section, then how to close it.
pub open spec fn help_text() -> Seq<Seq<char>> {
    sections_text(help_sections()) + seq![""@, "  Press Esc or ? to close"@]
}

/// `s` right-aligned in `w` characters.
fn pad_left_exec(s: &str, w: usize) -> (r: String)
    ensures
        r@ == pad_left(s@, w as nat),
{
    let n = crate::strs::chars_of(s).len();
    let mut r = String::new();
    if n < w {
        push_spaces(&mut r, w - n);
    }
    crate::strs::push_str(&mut r, s);
    proof {
        reveal_strlit("");
        if n >= w {
            assert(r@ =~= s@);
        }
    }
    r
}

/// The plain view of a list of lines.
pub open spec fn lines_view(v: Seq<String>) -> Seq<Seq<char>> {
    v.map_values(|l: String| l@)
}

/// The plain view of a list of bindings.
pub open spec fn bindings_view(v: Seq<(&str, &str)>) -> Seq<(Seq<char>, Seq<char>)> {
    v.map_values(|b: (&str, &str)| (b.0@, b.1@))
}

/// Appends the lines of one section.
fn push_section(lines: &mut Vec<String>, title: &str, bindings: Vec<(&str, &str)>)
    ensures
        lines_view(final(lines)@) == lines_view(old(lines)@) + section_lines(
            title@,
            bindings_view(bindings@),
        ),
{
    proof {
        reveal_strlit("");
    }
    let e1 = String::new();
    let e2 = String::new();
    assert(e1@ =~= ""@ && e2@ =~= ""@);
    lines.push(e1);
    let mut t = crate::strs::owned("  ");
    crate::strs::push_str(&mut t, title);
    lines.push(t);
    lines.push(e2);
    let ghost start = lines_view(old(lines)@) + seq![""@, "  "@ + title@, ""@];
    assert(lines_view(lines@) =~= start);
    let mut i: usize = 0;
    while i < bindings.len()
        invariant
            i <= bindings.len(),
            lines_view(lines@) == start + bindings_view(bindings@).take(i as int).map_values(
                |b: (Seq<char>, Seq<char>)| binding_line(b),
            ),
        decreases bindings.len() - i,
    {
        let (k, d) = bindings[i];
        let mut l = crate::strs::owned("    ");
        let p = pad_left_exec(k, 16);
        crate::strs::push_str(&mut l, p.as_str());
        crate::strs::push_str(&mut l, "   ");
        crate::strs::push_str(&mut l, d);
        let ghost before = lines@;
        lines.push(l);
        assert(lines_view(lines@) =~= lines_view(before).push(l@));
        assert(bindings_view(bindings@).take(i + 1) =~= bindings_view(bindings@).take(i as int).push(
            (k@, d@),
        ));
        assert(l@ == binding_line((k@, d@)));
        assert(start + bindings_view(bindings@).take(i + 1).map_values(
            |b: (Seq<char>, Seq<char>)| binding_line(b),
        ) =~= (start + bindings_view(bindings@).take(i as int).map_values(
            |b: (Seq<char>, Seq<char>)| binding_line(b),
        )).push(l@));
        i = i + 1;
    }
    assert(bindings_view(bindings@).take(bindings.len() as int) =~= bindings_view(bindings@));
    assert(start + bindings_view(bindings@).map_values(|b: (Seq<char>, Seq<char>)| binding_line(b))
        =~= lines_view(old(lines)@) + section_lines(title@, bindings_view(bindings@)));
}

/// The lines of the help pop-up (see `help_text`).
pub fn help_lines() -> (r: Vec<String>)
    ensures
        lines_view(r@) == help_text(),
{
    let secs = Ghost(help_sections());
    let mut lines: Vec<String> = Vec::new();
    assert(lines_view(lines@) =~= sections_text(secs@.take(0)));
    let b0 = vec![("Ctrl+C", "Quit"), ("Ctrl+P", "Quick search / fuzzy finder"), ("?", "Toggle this help screen")];
    assert(bindings_view(b0@) =~= secs@[0].1);
    push_section(&mut lines, "Global", b0);
    assert(secs@.take(1).drop_last() =~= secs@.take(0));
    assert(lines_view(lines@) == sections_text(secs@.take(1)));
    let b1 = vec![
        ("j / k", "Navigate down / up"),
        ("h / l", "Switch panel focus"),
        ("Tab", "Switch panels"),
        ("Enter", "Open selected course"),
        ("g / G", "Go to first / last item"),
        ("r", "Refresh all data"),
        ("o", "Open selected in browser"),
        ("/", "Search"),
        ("q", "Quit"),
    ];
    assert(bindings_view(b1@) =~= secs@[1].1);
    push_section(&mut lines, "Dashboard", b1);
    assert(secs@.take(2).drop_last() =~= secs@.take(1));
    assert(lines_view(lines@) == sections_text(secs@.take(2)));
    let b2 = vec![
        ("1-8", "Jump to tab by number"),
        ("a", "Assignments tab"),
        ("n", "Announcements tab"),
        ("d", "Discussions tab"),
        ("f", "Files tab"),
        ("m", "Modules tab"),
        ("p", "Pages tab"),
        ("Tab / Shift+Tab", "Cycle through tabs"),
        ("j / k", "Navigate items"),
        ("Enter", "Open detail / Enter folder"),
        ("Backspace / Esc", "Go back"),
        ("Ctrl+S", "Download selected file"),
        ("o", "Open in browser"),
        ("r", "Refresh"),
    ];
    assert(bindings_view(b2@) =~= secs@[2].1);
    push_section(&mut lines, "Course Detail", b2);
    assert(secs@.take(3).drop_last() =~= secs@.take(2));
    assert(lines_view(lines@) == sections_text(secs@.take(3)));
    let b3 = vec![("j / k", "Scroll description"), ("o", "Open in browser"), ("Esc", "Close")];
    assert(bindings_view(b3@) =~= secs@[3].1);
    push_section(&mut lines, "Assignment Detail", b3);
    assert(secs@.take(4).drop_last() =~= secs@.take(3));
    assert(lines_view(lines@) == sections_text(secs@.take(4)));
    let b4 = vec![("d / Enter", "Download file"), ("o", "Open URL in browser"), ("Esc", "Close")];
    assert(bindings_view(b4@) =~= secs@[4].1);
    push_section(&mut lines, "File Preview", b4);
    assert(secs@.take(5).drop_last() =~= secs@.take(4));
    assert(lines_view(lines@) == sections_text(secs@.take(5)));
    let b5 = vec![
        ("Type", "Filter results"),
        ("Up / Down", "Navigate results"),
        ("Enter", "Open selected"),
        ("Esc", "Close search"),
    ];
    assert(bindings_view(b5@) =~= secs@[5].1);
    push_section(&mut lines, "Search", b5);
    assert(secs@.take(6).drop_last() =~= secs@.take(5));
    assert(lines_view(lines@) == sections_text(secs@.take(6)));
    assert(secs@.take(6) =~= secs@);
    let ghost before = lines@;
    let e = String::new();
    proof {
        reveal_strlit("");
    }
    assert(e@ =~= ""@);
    lines.push(e);
    lines.push(crate::strs::owned("  Press Esc or ? to close"));
    proof {
        assert(lines_view(lines@) =~= lines_view(before) + seq![""@, "  Press Esc or ? to close"@]);
    }
    lines
}


// ───────────────────────────── notifications ─────────────────────────────

/// The second line of a notification: its course (`System` when none) and
/// when it was raised.
pub open spec fn notification_meta(n: NotificationItem) -> Seq<char> {
    "  "@ + text_or(n.course_name, "System"@) + " | "@ + spec_utc_format(
        n.timestamp.secs,
        n.timestamp.nanos,
        "%m/%d %H:%M"@,
    )
}

/// Three lines per notification: title, course and time, a blank line.
pub open spec fn notes_text(ns: Seq<NotificationItem>) -> Seq<Seq<char>>
    decreases ns.len(),
{
    if ns.len() == 0 {
        seq![]
    } else {
        notes_text(ns.drop_last()) + seq![ns.last().title@, notification_meta(ns.last()), ""@]
    }
}

/// The notification pop-up: `No notifications`, or the lines of each.
pub open spec fn notification_text(ns: Seq<NotificationItem>) -> Seq<Seq<char>> {
    if ns.len() == 0 {
        seq!["No notifications"@]
    } else {
        notes_text(ns)
    }
}

/// The lines of the notification pop-up (see `notification_text`); line
/// `3 * i` and the two after it belong to notification `i`.
pub fn notification_lines(ns: &Vec<NotificationItem>) -> (r: Vec<String>)
    requires
        forall|i: int| 0 <= i < ns@.len() ==> ts_valid((#[trigger] ns@[i]).timestamp),
    ensures
        lines_view(r@) == notification_text(ns@),
{
    proof {
        reveal_strlit("");
    }
    let mut r: Vec<String> = Vec::new();
    if ns.len() == 0 {
        r.push(crate::strs::owned("No notifications"));
        assert(lines_view(r@) =~= seq!["No notifications"@]);
        return r;
    }
    let mut i: usize = 0;
    assert(lines_view(r@) =~= notes_text(ns@.take(0)));
    while i < ns.len()
        invariant
            i <= ns.len(),
            forall|j: int| 0 <= j < ns@.len() ==> ts_valid((#[trigger] ns@[j]).timestamp),
            lines_view(r@) == notes_text(ns@.take(i as int)),
        decreases ns.len() - i,
    {
        proof {
            reveal_strlit("");
        }
        let n = &ns[i];
        let mut meta = crate::strs::owned("  ");
        let course = crate::modules::text_or_exec(&n.course_name, "System");
        crate::strs::push_str(&mut meta, course.as_str());
        crate::strs::push_str(&mut meta, " | ");
        let when = crate::views::utc_format(n.timestamp, "%m/%d %H:%M");
        crate::strs::push_str(&mut meta, when.as_str());
        let ghost before = r@;
        let e = String::new();
        assert(e@ =~= ""@);
        r.push(n.title.clone());
        r.push(meta);
        r.push(e);
        assert(ns@.take(i + 1).drop_last() =~= ns@.take(i as int));
        assert(lines_view(r@) =~= lines_view(before) + seq![
            ns@[i as int].title@,
            notification_meta(ns@[i as int]),
            ""@,
        ]);
        i = i + 1;
    }
    assert(ns@.take(ns.len() as int) =~= ns@);
    r
}


// ───────────────────────────── course tabs ─────────────────────────────

/// The title of a course tab's panel: ` <label> (<count>) `.
pub fn panel_title(label: &str, count: usize) -> (r: String)
    ensures
        r@ == " "@ + label@ + " ("@ + dec_nat(count as nat) + ") "@,
{
    let mut r = crate::strs::owned(" ");
    crate::strs::push_str(&mut r, label);
    crate::strs::push_str(&mut r, " (");
    crate::num::push_dec_u64(&mut r, count as u64);
    crate::strs::push_str(&mut r, ") ");
    r
}

/// The entries of the tab bar: ` <icon> <label> ` for every tab, in order.
pub fn tab_bar_labels() -> (r: Vec<String>)
    ensures
        lines_view(r@) == crate::tui::all_tabs().map_values(
            |t: CourseTab| " "@ + crate::tui::tab_icon(t) + " "@ + crate::tui::tab_label(t) + " "@,
        ),
{
    let tabs = CourseTab::all();
    let mut r: Vec<String> = Vec::new();
    let mut i: usize = 0;
    while i < tabs.len()
        invariant
            i <= tabs.len(),
            tabs@ == crate::tui::all_tabs(),
            lines_view(r@) == tabs@.take(i as int).map_values(
                |t: CourseTab| " "@ + crate::tui::tab_icon(t) + " "@ + crate::tui::tab_label(t) + " "@,
            ),
        decreases tabs.len() - i,
    {
        let t = tabs[i];
        let mut l = crate::strs::owned(" ");
        crate::strs::push_str(&mut l, t.icon());
        crate::strs::push_str(&mut l, " ");
        crate::strs::push_str(&mut l, t.label());
        crate::strs::push_str(&mut l, " ");
        let ghost before = r@;
        r.push(l);
        assert(lines_view(r@) =~= lines_view(before).push(l@));
        assert(tabs@.take(i + 1) =~= tabs@.take(i as int).push(t));
        assert(tabs@.take(i + 1).map_values(
            |t: CourseTab| " "@ + crate::tui::tab_icon(t) + " "@ + crate::tui::tab_label(t) + " "@,
        ) =~= tabs@.take(i as int).map_values(
            |t: CourseTab| " "@ + crate::tui::tab_icon(t) + " "@ + crate::tui::tab_label(t) + " "@,
        ).push(l@));
        i = i + 1;
    }
    assert(tabs@.take(tabs.len() as int) =~= tabs@);
    r
}

/// `<p> pts` after `  |  `, or nothing without points.
pub open spec fn points_suffix(points: Option<String>) -> Seq<char> {
    match points {
        Some(p) => "  |  "@ + p@ + " pts"@,
        None => ""@,
    }
}

fn points_suffix_exec(points: &Option<String>) -> (r: String)
    ensures
        r@ == points_suffix(*points),
{
    proof {
        reveal_strlit("");
    }
    match points {
        Some(p) => {
            let mut r = crate::strs::owned("  |  ");
            crate::strs::push_str(&mut r, p.as_str());
            crate::strs::push_str(&mut r, " pts");
            r
        },
        None => String::new(),
    }
}

/// A row of the Assignments tab.
#[derive(Debug, Clone)]
pub struct AssignmentRow {
    /// Marker, name and ` [submitted]` once something was handed in.
    pub title: String,
    pub due: String,
    pub urgency: Urgency,
    /// `  |  <p> pts`, empty without points.
    pub points: String,
}

/// The row of an assignment: name (`Untitled` when absent), whether it was
/// submitted, its due cell and its points as printed.
pub fn assignment_row(
    name: &Option<String>,
    due_at: Option<Timestamp>,
    has_submitted: Option<bool>,
    points: &Option<String>,
    selected: bool,
    now: Timestamp,
) -> (r: AssignmentRow)
    requires
        ts_valid(now),
        due_at matches Some(d) ==> ts_valid(d),
    ensures
        r.title@ == marker(selected) + text_or(*name, "Untitled"@) + if has_submitted == Some(true) {
            " [submitted]"@
        } else {
            ""@
        },
        (r.due@, r.urgency) == assignment_due(due_at, now),
        r.points@ == points_suffix(*points),
{
    proof {
        reveal_strlit("");
    }
    let mut title = crate::strs::owned(crate::views::marker_of(selected));
    let n = crate::modules::text_or_exec(name, "Untitled");
    crate::strs::push_str(&mut title, n.as_str());
    if has_submitted == Some(true) {
        crate::strs::push_str(&mut title, " [submitted]");
    } else {
        assert(title@ + ""@ =~= title@);
    }
    let (due, urgency) = crate::views::assignment_due_cell(due_at, now);
    AssignmentRow { title, due, urgency, points: points_suffix_exec(points) }
}

/// When something was posted, relative to `now`; empty when unknown.
pub open spec fn posted_text(at: Option<Timestamp>, now: Timestamp) -> Seq<char> {
    match at {
        Some(t) => ago_text(t, now),
        None => ""@,
    }
}

fn posted_exec(at: Option<Timestamp>, now: Timestamp) -> (r: String)
    requires
        ts_valid(now),
        at matches Some(t) ==> ts_valid(t),
    ensures
        r@ == posted_text(at, now),
{
    proof {
        reveal_strlit("");
    }
    match at {
        Some(t) => crate::views::format_datetime(t, now),
        None => String::new(),
    }
}

/// The two lines of an announcement row: marker and title (`Untitled`);
/// author (`Unknown`) and when it was posted.
pub fn announcement_row(
    title: &Option<String>,
    author: &Option<String>,
    posted_at: Option<Timestamp>,
    selected: bool,
    now: Timestamp,
) -> (r: (String, String))
    requires
        ts_valid(now),
        posted_at matches Some(t) ==> ts_valid(t),
    ensures
        r.0@ == marker(selected) + text_or(*title, "Untitled"@),
        r.1@ == "     "@ + text_or(*author, "Unknown"@) + "  |  "@ + posted_text(posted_at, now),
{
    let mut l1 = crate::strs::owned(crate::views::marker_of(selected));
    let t = crate::modules::text_or_exec(title, "Untitled");
    crate::strs::push_str(&mut l1, t.as_str());
    let mut l2 = crate::strs::owned("     ");
    let a = crate::modules::text_or_exec(author, "Unknown");
    crate::strs::push_str(&mut l2, a.as_str());
    crate::strs::push_str(&mut l2, "  |  ");
    let p = posted_exec(posted_at, now);
    crate::strs::push_str(&mut l2, p.as_str());
    (l1, l2)
}

/// The two lines of a discussion row: marker, title (`Untitled`) and
/// ` (<n> new)` when entries are unread; the reply count (0 when unknown)
/// and when it was posted.
pub fn discussion_row(
    title: &Option<String>,
    reply_count: Option<i64>,
    unread_count: Option<i64>,
    posted_at: Option<Timestamp>,
    selected: bool,
    now: Timestamp,
) -> (r: (String, String))
    requires
        ts_valid(now),
        posted_at matches Some(t) ==> ts_valid(t),
    ensures
        ({
            let unread = match unread_count {
                Some(u) => u as int,
                None => 0,
            };
            r.0@ == marker(selected) + text_or(*title, "Untitled"@) + if unread > 0 {
                " ("@ + dec_int(unread) + " new)"@
            } else {
                ""@
            }
        }),
        r.1@ == "     "@ + dec_int(
            match reply_count {
                Some(n) => n as int,
                None => 0,
            },
        ) + " replies"@ + "  |  "@ + posted_text(posted_at, now),
{
    proof {
        reveal_strlit("");
    }
    let mut l1 = crate::strs::owned(crate::views::marker_of(selected));
    let t = crate::modules::text_or_exec(title, "Untitled");
    crate::strs::push_str(&mut l1, t.as_str());
    let unread: i64 = match unread_count {
        Some(u) => u,
        None => 0,
    };
    if unread > 0 {
        crate::strs::push_str(&mut l1, " (");
        crate::num::push_dec_i64(&mut l1, unread);
        crate::strs::push_str(&mut l1, " new)");
    } else {
        assert(l1@ + ""@ =~= l1@);
    }
    let mut l2 = crate::strs::owned("     ");
    crate::num::push_dec_i64(
        &mut l2,
        match reply_count {
            Some(n) => n,
            None => 0,
        },
    );
    crate::strs::push_str(&mut l2, " replies");
    crate::strs::push_str(&mut l2, "  |  ");
    let p = posted_exec(posted_at, now);
    crate::strs::push_str(&mut l2, p.as_str());
    (l1, l2)
}

/// The row of a module: marker, `[ ] `, name (`Untitled`) and its number of
/// items (0 when they were not loaded).
pub fn module_row(name: &Option<String>, item_count: Option<usize>, selected: bool) -> (r: String)
    ensures
        r@ == marker(selected) + "[ ] "@ + text_or(*name, "Untitled"@) + "  ("@ + dec_nat(
            match item_count {
                Some(n) => n as nat,
                None => 0,
            },
        ) + " items)"@,
{
    let mut r = crate::strs::owned(crate::views::marker_of(selected));
    crate::strs::push_str(&mut r, "[ ] ");
    let n = crate::modules::text_or_exec(name, "Untitled");
    crate::strs::push_str(&mut r, n.as_str());
    crate::strs::push_str(&mut r, "  (");
    crate::num::push_dec_u64(
        &mut r,
        match item_count {
            Some(n) => n as u64,
            None => 0,
        },
    );
    crate::strs::push_str(&mut r, " items)");
    r
}

/// The row of a page: marker, `[draft] ` unless it is published, title
/// (`Untitled`) and when it was last updated.
pub fn page_row(
    title: &Option<String>,
    published: Option<bool>,
    updated_at: Option<Timestamp>,
    selected: bool,
    now: Timestamp,
) -> (r: String)
    requires
        ts_valid(now),
        updated_at matches Some(t) ==> ts_valid(t),
    ensures
        r@ == marker(selected) + (if published == Some(true) {
            ""@
        } else {
            "[draft] "@
        }) + text_or(*title, "Untitled"@) + "  "@ + posted_text(updated_at, now),
{
    proof {
        reveal_strlit("");
    }
    let mut r = crate::strs::owned(crate::views::marker_of(selected));
    if published == Some(true) {
        assert(r@ + ""@ =~= r@);
    } else {
        crate::strs::push_str(&mut r, "[draft] ");
    }
    let t = crate::modules::text_or_exec(title, "Untitled");
    crate::strs::push_str(&mut r, t.as_str());
    crate::strs::push_str(&mut r, "  ");
    let p = posted_exec(updated_at, now);
    crate::strs::push_str(&mut r, p.as_str());
    r
}

/// The two lines of a quiz row: marker and title (`Untitled`); its type
/// (`quiz` when unknown), due text (`No due date`) and points.
pub fn quiz_row(
    title: &Option<String>,
    quiz_type: &Option<String>,
    due_at: Option<Timestamp>,
    points: &Option<String>,
    selected: bool,
    now: Timestamp,
) -> (r: (String, String))
    requires
        ts_valid(now),
        due_at matches Some(d) ==> ts_valid(d),
    ensures
        r.0@ == marker(selected) + text_or(*title, "Untitled"@),
        r.1@ == "     ["@ + text_or(*quiz_type, "quiz"@) + "]"@ + "  "@ + (match due_at {
            Some(d) => due_text(d, now),
            None => "No due date"@,
        }) + points_suffix(*points),
{
    let mut l1 = crate::strs::owned(crate::views::marker_of(selected));
    let t = crate::modules::text_or_exec(title, "Untitled");
    crate::strs::push_str(&mut l1, t.as_str());
    let mut l2 = crate::strs::owned("     [");
    let k = crate::modules::text_or_exec(quiz_type, "quiz");
    crate::strs::push_str(&mut l2, k.as_str());
    crate::strs::push_str(&mut l2, "]");
    crate::strs::push_str(&mut l2, "  ");
    let due = match due_at {
        Some(d) => crate::views::format_due_date(d, now),
        None => crate::strs::owned("No due date"),
    };
    crate::strs::push_str(&mut l2, due.as_str());
    let p = points_suffix_exec(points);
    crate::strs::push_str(&mut l2, p.as_str());
    (l1, l2)
}

// ───────────────────────────── search palette ─────────────────────────────

/// The line under the search box: how many entries are listed.
pub fn result_count_text(query: &str, count: usize) -> (r: String)
    ensures
        r@ == "  "@ + dec_nat(count as nat) + if query@.len() == 0 {
            " items"@
        } else {
            " matches"@
        },
{
    let mut r = crate::strs::owned("  ");
    crate::num::push_dec_u64(&mut r, count as u64);
    if crate::strs::chars_of(query).len() == 0 {
        crate::strs::push_str(&mut r, " items");
    } else {
        crate::strs::push_str(&mut r, " matches");
    }
    r
}

/// The number of search results listed at most.
pub const SEARCH_SHOWN: usize = 20;

/// The line of a search result: marker, `[<category>] ` and label.
pub open spec fn result_line(r: SearchResult, selected: bool) -> Seq<char> {
    marker(selected) + "["@ + r.category@ + "] "@ + r.label@
}

/// The lines of the first 20 search results, result `selected` marked.
pub fn result_lines(results: &Vec<SearchResult>, selected: usize) -> (r: Vec<String>)
    ensures
        r@.len() == if results@.len() < SEARCH_SHOWN {
            results@.len()
        } else {
            SEARCH_SHOWN as nat
        },
        forall|i: int|
            0 <= i < r@.len() ==> (#[trigger] r@[i])@ == result_line(results@[i], i == selected),
{
    let n = if results.len() < SEARCH_SHOWN {
        results.len()
    } else {
        SEARCH_SHOWN
    };
    let mut r: Vec<String> = Vec::new();
    let mut i: usize = 0;
    while i < n
        invariant
            i <= n,
            n <= results.len(),
            r@.len() == i,
            forall|j: int| 0 <= j < i ==> (#[trigger] r@[j])@ == result_line(results@[j], j == selected),
        decreases n - i,
    {
        let mut l = crate::strs::owned(crate::views::marker_of(i == selected));
        crate::strs::push_str(&mut l, "[");
        crate::strs::push_str(&mut l, results[i].category.as_str());
        crate::strs::push_str(&mut l, "] ");
        crate::strs::push_str(&mut l, results[i].label.as_str());
        r.push(l);
        i = i + 1;
    }
    r
}


// ───────────────────────────── dashboard ─────────────────────────────

/// The dashboard shows its splash screen while the first courses load.
pub fn shows_splash(app: &App) -> (r: bool)
    ensures
        r == (app.loading && app.courses@.len() == 0),
{
    app.loading && app.courses.len() == 0
}

/// The message the deadline panel shows in place of rows, if any.
pub open spec fn deadlines_message(loading: bool, count: nat) -> Option<Seq<char>> {
    if count == 0 {
        if loading {
            Some("Loading deadlines..."@)
        } else {
            Some("No upcoming deadlines! You're all caught up."@)
        }
    } else {
        None
    }
}

/// The message the deadline panel shows in place of rows, if any.
pub fn deadlines_panel_message(app: &App) -> (r: Option<String>)
    ensures
        crate::views::opt_text(r) == deadlines_message(app.loading, app.deadlines@.len()),
{
    if app.deadlines.len() == 0 {
        if app.loading {
            Some(crate::strs::owned("Loading deadlines..."))
        } else {
            Some(crate::strs::owned("No upcoming deadlines! You're all caught up."))
        }
    } else {
        None
    }
}

/// The two lines of a course on the dashboard: marker (only on the
/// selected row of the focused panel), a colour block and the name
/// (`Untitled`); the course code.
pub open spec fn course_lines(
    c: crate::tui_app::CourseEntry,
    marked: bool,
) -> (Seq<char>, Seq<char>) {
    (marker(marked) + "█ "@ + text_or(c.name, "Untitled"@), "     "@ + text_or(c.course_code, ""@))
}

/// The rows of the course panel.
pub fn course_rows(app: &App) -> (r: Vec<(String, String)>)
    ensures
        r@.len() == app.courses@.len(),
        forall|i: int|
            0 <= i < r@.len() ==> ((#[trigger] r@[i]).0@, r@[i].1@) == course_lines(
                app.courses@[i],
                i == app.course_selected && app.dashboard_focus == DashboardFocus::Courses,
            ),
{
    let focused = app.dashboard_focus == DashboardFocus::Courses;
    let mut r: Vec<(String, String)> = Vec::new();
    let mut i: usize = 0;
    while i < app.courses.len()
        invariant
            i <= app.courses.len(),
            focused == (app.dashboard_focus == DashboardFocus::Courses),
            r@.len() == i,
            forall|j: int|
                0 <= j < i ==> ((#[trigger] r@[j]).0@, r@[j].1@) == course_lines(
                    app.courses@[j],
                    j == app.course_selected && app.dashboard_focus == DashboardFocus::Courses,
                ),
        decreases app.courses.len() - i,
    {
        let c = &app.courses[i];
        let mut l1 = crate::strs::owned(crate::views::marker_of(i == app.course_selected && focused));
        crate::strs::push_str(&mut l1, "█ ");
        let n = crate::modules::text_or_exec(&c.name, "Untitled");
        crate::strs::push_str(&mut l1, n.as_str());
        let mut l2 = crate::strs::owned("     ");
        let code = crate::modules::text_or_exec(&c.course_code, "");
        crate::strs::push_str(&mut l2, code.as_str());
        r.push((l1, l2));
        i = i + 1;
    }
    r
}

/// The key bindings listed under Quick Actions.
pub open spec fn quick_actions() -> Seq<(Seq<char>, Seq<char>)> {
    seq![
        ("Enter"@, "Open selected course"@),
        ("j/k"@, "Navigate up/down"@),
        ("h/l"@, "Switch panels"@),
        ("Tab"@, "Switch panel focus"@),
        ("/"@, "Search"@),
        ("Ctrl+P"@, "Quick open"@),
        ("r"@, "Refresh"@),
        ("o"@, "Open in browser"@),
        ("?"@, "Show all shortcuts"@),
        ("q"@, "Quit"@),
    ]
}

/// The line of a quick action: the keys right-aligned in 8 characters.
pub open spec fn quick_action_line(b: (Seq<char>, Seq<char>)) -> Seq<char> {
    "  "@ + pad_left(b.0, 8) + "  "@ + b.1
}

/// The lines of the Quick Actions panel.
pub fn quick_action_lines() -> (r: Vec<String>)
    ensures
        lines_view(r@) == quick_actions().map_values(|b: (Seq<char>, Seq<char>)| quick_action_line(b)),
{
    let actions = vec![
        ("Enter", "Open selected course"),
        ("j/k", "Navigate up/down"),
        ("h/l", "Switch panels"),
        ("Tab", "Switch panel focus"),
        ("/", "Search"),
        ("Ctrl+P", "Quick open"),
        ("r", "Refresh"),
        ("o", "Open in browser"),
        ("?", "Show all shortcuts"),
        ("q", "Quit"),
    ];
    assert(bindings_view(actions@) =~= quick_actions());
    let mut r: Vec<String> = Vec::new();
    let mut i: usize = 0;
    while i < actions.len()
        invariant
            i <= actions.len(),
            bindings_view(actions@) == quick_actions(),
            lines_view(r@) == quick_actions().take(i as int).map_values(
                |b: (Seq<char>, Seq<char>)| quick_action_line(b),
            ),
        decreases actions.len() - i,
    {
        let (k, d) = actions[i];
        let mut l = crate::strs::owned("  ");
        let p = pad_left_exec(k, 8);
        crate::strs::push_str(&mut l, p.as_str());
        crate::strs::push_str(&mut l, "  ");
        crate::strs::push_str(&mut l, d);
        let ghost before = r@;
        r.push(l);
        assert(lines_view(r@) =~= lines_view(before).push(l@));
        assert(quick_actions()[i as int] == bindings_view(actions@)[i as int]);
        assert(quick_actions().take(i + 1) =~= quick_actions().take(i as int).push((k@, d@)));
        assert(quick_actions().take(i + 1).map_values(|b: (Seq<char>, Seq<char>)| quick_action_line(b))
            =~= quick_actions().take(i as int).map_values(
            |b: (Seq<char>, Seq<char>)| quick_action_line(b),
        ).push(l@));
        i = i + 1;
    }
    assert(quick_actions().take(actions.len() as int) =~= quick_actions());
    r
}


// ───────────────────────────── file preview ─────────────────────────────

/// The first present text of two, else `dflt`.
pub open spec fn first_text(a: Option<String>, b: Option<String>, dflt: Seq<char>) -> Seq<char> {
    match a {
        Some(x) => x@,
        None => text_or(b, dflt),
    }
}

fn first_text_exec(a: &Option<String>, b: &Option<String>, dflt: &str) -> (r: String)
    ensures
        r@ == first_text(*a, *b, dflt@),
{
    match a {
        Some(x) => x.clone(),
        None => crate::modules::text_or_exec(b, dflt),
    }
}

/// What the file pop-up shows.
#[derive(Debug, Clone)]
pub struct FilePreview {
    /// ` File: <name> `.
    pub title: String,
    pub size_line: String,
    pub type_line: String,
    pub modified_line: String,
}

/// The file pop-up of a file whose HTTP content type is `content_type`:
/// its name (display name, else file name, else `Unknown`), size, type
/// (content type, else MIME class, else `Unknown`) and when it was last
/// updated.
pub fn file_preview(f: &crate::views::FileInfo, content_type: &Option<String>, now: Timestamp) -> (r:
    FilePreview)
    requires
        ts_valid(now),
        f.updated_at matches Some(u) ==> ts_valid(u),
    ensures
        r.title@ == " File: "@ + first_text(f.display_name, f.filename, "Unknown"@) + " "@,
        r.size_line@ == "  Size: "@ + crate::views::size_text(f.size),
        r.type_line@ == "  Type: "@ + first_text(*content_type, f.mime_class, "Unknown"@),
        r.modified_line@ == "  Modified: "@ + posted_text(f.updated_at, now),
{
    let mut title = crate::strs::owned(" File: ");
    let name = first_text_exec(&f.display_name, &f.filename, "Unknown");
    crate::strs::push_str(&mut title, name.as_str());
    crate::strs::push_str(&mut title, " ");
    let mut size_line = crate::strs::owned("  Size: ");
    let size = crate::views::format_size(f.size);
    crate::strs::push_str(&mut size_line, size.as_str());
    let mut type_line = crate::strs::owned("  Type: ");
    let kind = first_text_exec(content_type, &f.mime_class, "Unknown");
    crate::strs::push_str(&mut type_line, kind.as_str());
    let mut modified_line = crate::strs::owned("  Modified: ");
    let m = posted_exec(f.updated_at, now);
    crate::strs::push_str(&mut modified_line, m.as_str());
    FilePreview { title, size_line, type_line, modified_line }
}


// ───────────────────────────── cutting text ─────────────────────────────

/// The number of characters a cut text keeps before its `...`.
pub open spec fn cut_chars(max: nat) -> nat {
    if max >= 3 {
        (max - 3) as nat
    } else {
        0
    }
}

/// `s` fitted into `max` characters: unchanged when it fits, else its first
/// `max - 3` characters (none when `max < 3`) followed by `...`.
pub open spec fn truncated_chars(s: Seq<char>, max: nat) -> Seq<char> {
    if s.len() <= max {
        s
    } else {
        s.take(cut_chars(max) as int) + "..."@
    }
}

/// Truncate a string to `max_len` characters with an ellipsis (see
/// `truncated_chars`).
pub fn truncate(s: &str, max_len: usize) -> (r: String)
    ensures
        r@ == truncated_chars(s@, max_len as nat),
{
    let v = crate::strs::chars_of(s);
    if v.len() <= max_len {
        return crate::strs::owned(s);
    }
    let cut: usize = if max_len >= 3 {
        max_len - 3
    } else {
        0
    };
    let mut r = crate::strs::string_of_range(&v, 0, cut);
    crate::strs::push_str(&mut r, "...");
    proof {
        assert(v@.subrange(0, cut as int) =~= v@.take(cut as int));
    }
    r
}

} // verus!
