//! The TUI's key handling as a state machine: from the application state and
//! a key press to the next state and the outside work to do (load data, open
//! a URL, log in, download). The caller performs that work and hands the
//! results back through the `*_loaded` / `*_finished` transitions.

use vstd::prelude::*;

use crate::assignments::Timestamp;
use crate::tui::{
    tab_at, tab_index, AssignmentDetailState, ConfirmAction, CourseTab, CourseViewState,
    DashboardFocus, FilePreviewState, ListItem, Modal, NotificationItem, Screen, SearchResult,
    SearchState, TopicDetailState,
};

verus! {

/// The modifier keys held with a key, as far as the TUIs distinguish them.
#[derive(Debug, Clone, Copy, PartialEq, Eq, Structural)]
pub enum Mods {
    /// No modifier.
    Plain,
    /// Exactly Control.
    Control,
    /// Control together with other modifiers.
    ControlPlus,
    /// Any other combination, without Control.
    Other,
}

/// The key pressed.
#[derive(Debug, Clone, Copy, PartialEq, Eq, Structural)]
pub enum KeyCode {
    Char(char),
    Tab,
    BackTab,
    Up,
    Down,
    Left,
    Right,
    Enter,
    Esc,
    Backspace,
    Other,
}

/// A key press.
#[derive(Debug, Clone, Copy, PartialEq, Eq, Structural)]
pub struct Key {
    pub code: KeyCode,
    pub mods: Mods,
}

/// Outside work a transition asks for.
#[derive(Debug, Clone)]
pub enum Effect {
    /// Nothing to do.
    Nothing,
    /// Log in with the username and password in the state.
    Login,
    /// Load courses, deadlines and the user, then call `dashboard_loaded`.
    LoadDashboard,
    /// Load every tab of this course, then call `course_loaded`.
    LoadCourse(i64),
    /// Open this URL in the browser.
    OpenUrl(String),
    /// Load the files and sub-folders of a folder of a course (`None`: the
    /// course root), then call `folder_loaded`.
    LoadFolder(i64, Option<i64>),
    /// Download this URL into the download directory under this file name.
    Download(String, String),
}

/// A course on the dashboard.
#[derive(Debug, Clone)]
pub struct CourseEntry {
    pub id: Option<i64>,
    pub name: Option<String>,
    pub course_code: Option<String>,
}

/// An upcoming deadline: an assignment of a course.
#[derive(Debug, Clone)]
pub struct Deadline {
    pub course_name: String,
    pub course_id: i64,
    pub assignment_name: String,
    pub assignment_id: i64,
    pub due_at: Timestamp,
    pub submitted: bool,
}

/// The whole state the TUI's key handling works on.
#[derive(Debug, Clone)]
pub struct App {
    pub should_quit: bool,
    pub screen: Screen,
    pub modal: Option<Modal>,
    pub login_username: String,
    pub login_password: String,
    /// 0 = username, 1 = password.
    pub login_field: usize,
    pub login_error: Option<String>,
    pub login_loading: bool,
    pub courses: Vec<CourseEntry>,
    pub deadlines: Vec<Deadline>,
    pub dashboard_focus: DashboardFocus,
    pub course_selected: usize,
    pub deadline_selected: usize,
    pub loading: bool,
    pub status_message: Option<String>,
    pub last_sync: Option<Timestamp>,
    /// One view per course visited; course ids are distinct.
    pub course_views: Vec<CourseViewState>,
    /// Screens to go back to, most recent last.
    pub history: Vec<Screen>,
    /// Whether a data service (a session) is available.
    pub has_session: bool,
    /// Most recently opened courses first, at most 10, no repeats.
    pub recent_courses: Vec<i64>,
    pub notifications: Vec<NotificationItem>,
    pub unread_count: usize,
}

/// The number of courses kept in `recent_courses`.
pub const RECENT_LIMIT: usize = 10;

/// Base URL of NTU COOL.
pub const COOL_BASE: &'static str = "https://cool.ntu.edu.tw";

/// The index of the view of course `id`, or -1.
pub open spec fn view_index(views: Seq<CourseViewState>, id: i64) -> int
    decreases views.len(),
{
    if views.len() == 0 {
        -1
    } else if views.last().course_id == id {
        views.len() - 1
    } else {
        view_index(views.drop_last(), id)
    }
}

proof fn lemma_view_index(views: Seq<CourseViewState>, id: i64)
    ensures
        -1 <= view_index(views, id) < views.len(),
        view_index(views, id) >= 0 ==> views[view_index(views, id)].course_id == id,
        view_index(views, id) < 0 ==> forall|j: int|
            0 <= j < views.len() ==> (#[trigger] views[j]).course_id != id,
    decreases views.len(),
{
    if views.len() > 0 && views.last().course_id != id {
        lemma_view_index(views.drop_last(), id);
        if view_index(views, id) < 0 {
            assert forall|j: int| 0 <= j < views.len() implies (#[trigger] views[j]).course_id != id by {
                if j < views.len() - 1 {
                    assert(views[j] == views.drop_last()[j]);
                }
            }
        }
    }
}

/// Every view is well-formed.
pub open spec fn views_wf(views: Seq<CourseViewState>) -> bool {
    forall|j: int| 0 <= j < views.len() ==> (#[trigger] views[j]).wf() && views[j].files@.len()
        + views[j].folders@.len() <= usize::MAX
}

/// `recent` holds no course twice.
pub open spec fn no_repeats(recent: Seq<i64>) -> bool {
    forall|i: int, j: int| 0 <= i < j < recent.len() ==> recent[i] != recent[j]
}

/// The state is well-formed.
pub open spec fn app_wf(a: App) -> bool {
    &&& views_wf(a.course_views@)
    &&& a.login_field < 2
}

/// One step down a list of `len` rows: never past the last row.
pub open spec fn step_down(sel: usize, by: usize, len: int) -> usize {
    if len == 0 {
        sel
    } else if sel + by < len {
        (sel + by) as usize
    } else {
        (len - 1) as usize
    }
}

/// One step up: never above the first row.
pub open spec fn step_up(sel: usize, by: usize) -> usize {
    if sel >= by {
        (sel - by) as usize
    } else {
        0
    }
}

/// To the last row, if there is one.
pub open spec fn to_last(sel: usize, len: int) -> usize {
    if len == 0 {
        sel
    } else {
        (len - 1) as usize
    }
}

fn down(sel: usize, by: usize, len: usize) -> (r: usize)
    ensures
        r == step_down(sel, by, len as int),
{
    if len == 0 {
        sel
    } else if by < len && sel < len - by {
        sel + by
    } else {
        len - 1
    }
}

fn up(sel: usize, by: usize) -> (r: usize)
    ensures
        r == step_up(sel, by),
{
    if sel >= by {
        sel - by
    } else {
        0
    }
}

/// `s` with every occurrence of `id` removed.
pub open spec fn without(s: Seq<i64>, id: i64) -> Seq<i64> {
    s.filter(|x: i64| x != id)
}

/// `recent` after opening `id`: `id` first, earlier entries after it
/// without `id`, cut to the limit.
pub open spec fn recent_after(recent: Seq<i64>, id: i64) -> Seq<i64> {
    let rest = without(recent, id);
    let all = seq![id] + rest;
    if all.len() > RECENT_LIMIT {
        all.take(RECENT_LIMIT as int)
    } else {
        all
    }
}

/// The browser URL of a course page: `<base>/courses/<id><suffix>`.
pub open spec fn course_url(id: i64, suffix: Seq<char>) -> Seq<char> {
    COOL_BASE@ + "/courses/"@ + crate::num::dec_int(id as int) + suffix
}

fn course_url_exec(id: i64, suffix: &str) -> (r: String)
    ensures
        r@ == course_url(id, suffix@),
{
    let mut s = crate::strs::owned(COOL_BASE);
    crate::strs::push_str(&mut s, "/courses/");
    crate::num::push_dec_i64(&mut s, id);
    crate::strs::push_str(&mut s, suffix);
    s
}

/// The view of an optional string.
pub open spec fn ostr(o: Option<String>) -> Option<Seq<char>> {
    match o {
        Some(s) => Some(s@),
        None => None,
    }
}

impl App {
    /// The start state: the dashboard when a session exists, else login.
    pub fn new(has_session: bool) -> (r: App)
        ensures
            app_wf(r),
            r.screen == if has_session { Screen::Dashboard } else { Screen::Login },
            r.has_session == has_session,
            !r.should_quit,
            r.modal is None,
            r.history@.len() == 0,
            r.course_views@.len() == 0,
            r.recent_courses@.len() == 0,
            r.dashboard_focus == DashboardFocus::Courses,
            r.course_selected == 0 && r.deadline_selected == 0,
            r.login_field == 0,
    {
        App {
            should_quit: false,
            screen: if has_session {
                Screen::Dashboard
            } else {
                Screen::Login
            },
            modal: None,
            login_username: String::new(),
            login_password: String::new(),
            login_field: 0,
            login_error: None,
            login_loading: false,
            courses: Vec::new(),
            deadlines: Vec::new(),
            dashboard_focus: DashboardFocus::Courses,
            course_selected: 0,
            deadline_selected: 0,
            loading: false,
            status_message: None,
            last_sync: None,
            course_views: Vec::new(),
            history: Vec::new(),
            has_session,
            recent_courses: Vec::new(),
            notifications: Vec::new(),
            unread_count: 0,
        }
    }

    /// The index of the view of course `id`.
    pub fn find_view(&self, id: i64) -> (r: Option<usize>)
        ensures
            match r {
                Some(i) => i as int == view_index(self.course_views@, id) && i < self.course_views@.len(),
                None => view_index(self.course_views@, id) == -1,
            },
    {
        proof {
            lemma_view_index(self.course_views@, id);
        }
        let mut j = self.course_views.len();
        assert(self.course_views@.take(j as int) =~= self.course_views@);
        while j > 0
            invariant
                j <= self.course_views.len(),
                view_index(self.course_views@, id) == view_index(self.course_views@.take(j as int), id),
            decreases j,
        {
            assert(self.course_views@.take(j as int).drop_last() =~= self.course_views@.take(j - 1));
            assert(self.course_views@.take(j as int).last() == self.course_views@[j - 1]);
            if self.course_views[j - 1].course_id == id {
                return Some(j - 1);
            }
            j = j - 1;
        }
        None
    }

    /// Go back to the previous screen, if any.
    pub fn go_back(&mut self)
        ensures
            old(self).history@.len() > 0 ==> final(self).screen == old(self).history@.last()
                && final(self).history@ == old(self).history@.drop_last(),
            old(self).history@.len() == 0 ==> final(self).screen == old(self).screen
                && final(self).history@ == old(self).history@,
            final(self).modal == old(self).modal,
            final(self).course_views == old(self).course_views,
            final(self).should_quit == old(self).should_quit,
            final(self).recent_courses == old(self).recent_courses,
            final(self).courses == old(self).courses,
            final(self).deadlines == old(self).deadlines,
            final(self).has_session == old(self).has_session,
            final(self).login_field == old(self).login_field,
    {
        match self.history.pop() {
            Some(prev) => {
                self.screen = prev;
            },
            None => {},
        }
    }

    /// Put `id` first among the recent courses.
    fn touch_recent(&mut self, id: i64)
        ensures
            final(self).recent_courses@ == recent_after(old(self).recent_courses@, id),
            final(self).screen == old(self).screen,
            final(self).history == old(self).history,
            final(self).course_views == old(self).course_views,
            final(self).modal == old(self).modal,
            final(self).should_quit == old(self).should_quit,
            final(self).courses == old(self).courses,
            final(self).deadlines == old(self).deadlines,
            final(self).has_session == old(self).has_session,
            final(self).login_field == old(self).login_field,
    {
        let mut rest: Vec<i64> = Vec::new();
        let ghost old_recent = self.recent_courses@;
        let mut i: usize = 0;
        while i < self.recent_courses.len()
            invariant
                i <= self.recent_courses.len(),
                self.recent_courses@ == old_recent,
                rest@ == without(old_recent.take(i as int), id),
            decreases self.recent_courses.len() - i,
        {
            let x = self.recent_courses[i];
            proof {
                assert(old_recent.take(i + 1).drop_last() =~= old_recent.take(i as int));
                lemma_without_push(old_recent.take(i as int), id, x);
                assert(old_recent.take(i + 1) =~= old_recent.take(i as int).push(x));
            }
            if x != id {
                rest.push(x);
            }
            i = i + 1;
        }
        assert(old_recent.take(old_recent.len() as int) =~= old_recent);
        let mut out: Vec<i64> = Vec::new();
        out.push(id);
        let mut k: usize = 0;
        while k < rest.len() && out.len() < RECENT_LIMIT
            invariant
                k <= rest.len(),
                out@ == (seq![id] + rest@).take(k + 1),
                out@.len() == k + 1,
                out@.len() <= RECENT_LIMIT,
            decreases rest.len() - k,
        {
            out.push(rest[k]);
            proof {
                assert((seq![id] + rest@).take(k + 2) =~= (seq![id] + rest@).take(k + 1).push(rest@[k as int]));
            }
            k = k + 1;
        }
        proof {
            let all = seq![id] + rest@;
            if all.len() > RECENT_LIMIT {
                assert(out@.len() == RECENT_LIMIT);
            } else {
                assert(k == rest.len());
                assert(all.take(k + 1) =~= all);
            }
        }
        self.recent_courses = out;
    }

    /// Open the detail screen of a course: remember where we were, put the
    /// course first among the recent ones, and create (and ask to load) its
    /// view if it has none yet.
    pub fn navigate_to_course(&mut self, course_id: i64, course_name: String) -> (e: Effect)
        requires
            views_wf(old(self).course_views@),
        ensures
            final(self).history@ == old(self).history@.push(old(self).screen),
            final(self).screen == Screen::CourseDetail(course_id),
            final(self).recent_courses@ == recent_after(old(self).recent_courses@, course_id),
            views_wf(final(self).course_views@),
            view_index(old(self).course_views@, course_id) >= 0 ==> final(self).course_views
                == old(self).course_views && e is Nothing,
            view_index(old(self).course_views@, course_id) < 0 ==> {
                &&& final(self).course_views@.len() == old(self).course_views@.len() + 1
                &&& final(self).course_views@.drop_last() == old(self).course_views@
                &&& final(self).course_views@.last().course_id == course_id
                &&& final(self).course_views@.last().course_name@ == course_name@
                &&& final(self).course_views@.last().active_tab == CourseTab::Assignments
                &&& e matches Effect::LoadCourse(c) && c == course_id
            },
            view_index(final(self).course_views@, course_id) >= 0,
            final(self).modal == old(self).modal,
            final(self).should_quit == old(self).should_quit,
            final(self).courses == old(self).courses,
            final(self).deadlines == old(self).deadlines,
            final(self).has_session == old(self).has_session,
            final(self).login_field == old(self).login_field,
    {
        let cur = self.screen;
        self.history.push(cur);
        self.screen = Screen::CourseDetail(course_id);
        self.touch_recent(course_id);
        proof {
            lemma_view_index(self.course_views@, course_id);
        }
        match self.find_view(course_id) {
            Some(_) => Effect::Nothing,
            None => {
                let ghost before = self.course_views@;
                let v = CourseViewState::new(course_id, course_name);
                self.course_views.push(v);
                proof {
                    assert(self.course_views@.drop_last() =~= before);
                    assert forall|j: int| 0 <= j < self.course_views@.len() implies (#[trigger]
                    self.course_views@[j]).wf() && self.course_views@[j].files@.len()
                        + self.course_views@[j].folders@.len() <= usize::MAX by {
                        if j < before.len() {
                            assert(self.course_views@[j] == before[j]);
                        }
                    }
                }
                Effect::LoadCourse(course_id)
            },
        }
    }
}

// ───────────────────────────── search palette ─────────────────────────────

impl App {
    /// Open the search palette with every entry listed.
    pub fn open_search(&mut self)
        ensures
            final(self).modal matches Some(Modal::Search(st)) && st.query@.len() == 0 && st.cursor == 0
                && st.selected == 0 && crate::search::results_view(st.results@)
                == crate::search::search_index(old(self).courses@, old(self).deadlines@),
            same_except_modal(*old(self), *final(self)),
    {
        let results = crate::search::build_search_index(&self.courses, &self.deadlines);
        self.modal = Some(Modal::Search(SearchState { query: String::new(), cursor: 0, results, selected: 0 }));
    }
}

/// Everything but the modal is unchanged.
pub open spec fn same_except_modal(a: App, b: App) -> bool {
    &&& b.should_quit == a.should_quit
    &&& b.screen == a.screen
    &&& same_lists(a, b)
    &&& b.dashboard_focus == a.dashboard_focus
    &&& b.course_selected == a.course_selected
    &&& b.deadline_selected == a.deadline_selected
}

/// The loaded data, the views, the history and the login form are unchanged.
pub open spec fn same_lists(a: App, b: App) -> bool {
    &&& b.courses == a.courses
    &&& b.deadlines == a.deadlines
    &&& b.course_views == a.course_views
    &&& b.history == a.history
    &&& b.recent_courses == a.recent_courses
    &&& b.notifications == a.notifications
    &&& b.unread_count == a.unread_count
    &&& b.has_session == a.has_session
    &&& b.login_username == a.login_username
    &&& b.login_password == a.login_password
    &&& b.login_field == a.login_field
    &&& b.login_loading == a.login_loading
    &&& b.status_message == a.status_message
}

// ───────────────────────────── dashboard ─────────────────────────────

/// The code is the character `c`.
pub open spec fn is_char(k: Key, c: char) -> bool {
    k.code == KeyCode::Char(c)
}

/// Which arm of the dashboard's key table a key takes.
pub open spec fn dashboard_arm(a: App, k: Key) -> int {
    if is_char(k, 'q') {
        0
    } else if (k.code == KeyCode::Tab || is_char(k, 'l')) && a.dashboard_focus == DashboardFocus::Courses {
        1
    } else if (k.code == KeyCode::BackTab || is_char(k, 'h')) && a.dashboard_focus
        == DashboardFocus::Deadlines {
        2
    } else if is_char(k, 'j') || k.code == KeyCode::Down {
        3
    } else if is_char(k, 'k') || k.code == KeyCode::Up {
        4
    } else if is_char(k, 'G') {
        5
    } else if is_char(k, 'g') {
        6
    } else if k.code == KeyCode::Enter {
        7
    } else if is_char(k, 'r') {
        8
    } else if is_char(k, '/') {
        9
    } else if k.mods == Mods::Control && is_char(k, 'd') {
        10
    } else if k.mods == Mods::Control && is_char(k, 'u') {
        11
    } else if is_char(k, 'o') {
        12
    } else {
        13
    }
}

/// The focused list's selection after a movement arm (3–6, 10, 11).
pub open spec fn moved(sel: usize, len: int, arm: int) -> usize {
    if arm == 3 {
        step_down(sel, 1, len)
    } else if arm == 4 {
        step_up(sel, 1)
    } else if arm == 5 {
        to_last(sel, len)
    } else if arm == 6 {
        0
    } else if arm == 10 {
        step_down(sel, 10, len)
    } else if arm == 11 {
        step_up(sel, 10)
    } else {
        sel
    }
}

/// The dashboard state after a key that moves, switches focus or quits
/// (every arm but Enter, refresh, search and open).
pub open spec fn dashboard_nav(a: App, k: Key) -> (bool, DashboardFocus, usize, usize) {
    let arm = dashboard_arm(a, k);
    let quit = a.should_quit || arm == 0;
    let focus = if arm == 1 {
        DashboardFocus::Deadlines
    } else if arm == 2 {
        DashboardFocus::Courses
    } else {
        a.dashboard_focus
    };
    let cs = if a.dashboard_focus == DashboardFocus::Courses {
        moved(a.course_selected, a.courses@.len() as int, arm)
    } else {
        a.course_selected
    };
    let ds = if a.dashboard_focus == DashboardFocus::Deadlines {
        moved(a.deadline_selected, a.deadlines@.len() as int, arm)
    } else {
        a.deadline_selected
    };
    (quit, focus, cs, ds)
}

/// The course the dashboard's Enter opens: its id and name.
pub open spec fn dashboard_target(a: App) -> Option<(i64, Seq<char>)> {
    if a.dashboard_focus == DashboardFocus::Courses {
        if a.course_selected < a.courses@.len() && a.courses@[a.course_selected as int].id is Some {
            Some(
                (
                    a.courses@[a.course_selected as int].id->0,
                    match a.courses@[a.course_selected as int].name {
                        Some(n) => n@,
                        None => seq![],
                    },
                ),
            )
        } else {
            None
        }
    } else if a.deadline_selected < a.deadlines@.len() {
        Some(
            (
                a.deadlines@[a.deadline_selected as int].course_id,
                a.deadlines@[a.deadline_selected as int].course_name@,
            ),
        )
    } else {
        None
    }
}

/// Everything but the quit flag, the dashboard focus and its two
/// selections is unchanged.
pub open spec fn same_except_nav(a: App, b: App) -> bool {
    &&& b.screen == a.screen
    &&& b.modal == a.modal
    &&& same_lists(a, b)
}

/// The URL `o` opens on the dashboard: the selected course's page.
pub open spec fn dashboard_open(a: App) -> Option<Seq<char>> {
    if a.course_selected < a.courses@.len() && a.courses@[a.course_selected as int].id is Some {
        Some(course_url(a.courses@[a.course_selected as int].id->0, seq![]))
    } else {
        None
    }
}

fn move_sel(sel: usize, len: usize, arm: u8) -> (r: usize)
    requires
        arm == 3 || arm == 4 || arm == 5 || arm == 6 || arm == 10 || arm == 11,
    ensures
        r == moved(sel, len as int, arm as int),
{
    if arm == 3 {
        down(sel, 1, len)
    } else if arm == 4 {
        up(sel, 1)
    } else if arm == 5 {
        if len == 0 {
            sel
        } else {
            len - 1
        }
    } else if arm == 6 {
        0
    } else if arm == 10 {
        down(sel, 10, len)
    } else {
        up(sel, 10)
    }
}

fn dashboard_arm_exec(a: &App, k: Key) -> (r: u8)
    ensures
        r as int == dashboard_arm(*a, k),
{
    let courses = a.dashboard_focus == DashboardFocus::Courses;
    let deadlines = a.dashboard_focus == DashboardFocus::Deadlines;
    if k.code == KeyCode::Char('q') {
        0
    } else if (k.code == KeyCode::Tab || k.code == KeyCode::Char('l')) && courses {
        1
    } else if (k.code == KeyCode::BackTab || k.code == KeyCode::Char('h')) && deadlines {
        2
    } else if k.code == KeyCode::Char('j') || k.code == KeyCode::Down {
        3
    } else if k.code == KeyCode::Char('k') || k.code == KeyCode::Up {
        4
    } else if k.code == KeyCode::Char('G') {
        5
    } else if k.code == KeyCode::Char('g') {
        6
    } else if k.code == KeyCode::Enter {
        7
    } else if k.code == KeyCode::Char('r') {
        8
    } else if k.code == KeyCode::Char('/') {
        9
    } else if k.mods == Mods::Control && k.code == KeyCode::Char('d') {
        10
    } else if k.mods == Mods::Control && k.code == KeyCode::Char('u') {
        11
    } else if k.code == KeyCode::Char('o') {
        12
    } else {
        13
    }
}

impl App {
    /// The dashboard's keys: `q` quits, Tab/`l` and BackTab/`h` switch
    /// focus, `j`/`k`/arrows move by one, `G`/`g` jump to the ends, Ctrl-d/u
    /// move by ten, Enter opens the focused course, `r` reloads, `/`
    /// searches, `o` opens the selected course in the browser.
    pub fn handle_dashboard_keys(&mut self, key: Key) -> (e: Effect)
        requires
            views_wf(old(self).course_views@),
        ensures
            dashboard_post(*old(self), *final(self), key, e),
            final(self).login_field == old(self).login_field,
            views_wf(final(self).course_views@),
    {
        let arm = dashboard_arm_exec(self, key);
        if arm == 0 {
            self.should_quit = true;
            Effect::Nothing
        } else if arm == 1 {
            self.dashboard_focus = DashboardFocus::Deadlines;
            Effect::Nothing
        } else if arm == 2 {
            self.dashboard_focus = DashboardFocus::Courses;
            Effect::Nothing
        } else if arm == 3 || arm == 4 || arm == 5 || arm == 6 || arm == 10 || arm == 11 {
            match self.dashboard_focus {
                DashboardFocus::Courses => {
                    self.course_selected = move_sel(self.course_selected, self.courses.len(), arm);
                },
                DashboardFocus::Deadlines => {
                    self.deadline_selected = move_sel(self.deadline_selected, self.deadlines.len(), arm);
                },
            }
            Effect::Nothing
        } else if arm == 7 {
            match self.dashboard_focus {
                DashboardFocus::Courses => {
                    if self.course_selected < self.courses.len() {
                        match self.courses[self.course_selected].id {
                            Some(id) => {
                                let name = match &self.courses[self.course_selected].name {
                                    Some(n) => n.clone(),
                                    None => String::new(),
                                };
                                self.navigate_to_course(id, name)
                            },
                            None => Effect::Nothing,
                        }
                    } else {
                        Effect::Nothing
                    }
                },
                DashboardFocus::Deadlines => {
                    if self.deadline_selected < self.deadlines.len() {
                        let cid = self.deadlines[self.deadline_selected].course_id;
                        let name = self.deadlines[self.deadline_selected].course_name.clone();
                        self.navigate_to_course(cid, name)
                    } else {
                        Effect::Nothing
                    }
                },
            }
        } else if arm == 8 {
            Effect::LoadDashboard
        } else if arm == 9 {
            self.open_search();
            Effect::Nothing
        } else if arm == 12 {
            if self.course_selected < self.courses.len() {
                match self.courses[self.course_selected].id {
                    Some(id) => {
                        proof {
                            reveal_strlit("");
                        }
                        Effect::OpenUrl(course_url_exec(id, ""))
                    },
                    None => Effect::Nothing,
                }
            } else {
                Effect::Nothing
            }
        } else {
            Effect::Nothing
        }
    }
}

/// Moving down never passes the last row, moving up never passes the first,
/// and a list of rows that fits keeps the selection on a row.
pub proof fn law_selection_stays_in_list(sel: usize, by: usize, len: int)
    requires
        0 < len <= usize::MAX,
        sel < len,
    ensures
        step_down(sel, by, len) < len,
        step_up(sel, by) < len,
        to_last(sel, len) == len - 1,
        step_down(sel, by, len) >= sel,
        step_up(sel, by) <= sel,
{
}

// ───────────────────────────── course detail ─────────────────────────────

/// Which arm of the course screen's key table a key takes.
pub open spec fn course_arm(k: Key) -> int {
    if k.code == KeyCode::Esc && k.mods == Mods::Plain {
        0
    } else if k.code == KeyCode::Backspace && k.mods == Mods::Plain {
        1
    } else if is_char(k, 'q') {
        2
    } else if is_char(k, '1') || is_char(k, '2') || is_char(k, '3') || is_char(k, '4') || is_char(k, '5')
        || is_char(k, '6') || is_char(k, '7') || is_char(k, '8') {
        3
    } else if k.mods == Mods::Plain && (is_char(k, 'a') || is_char(k, 'n') || is_char(k, 'd') || is_char(
        k,
        'f',
    ) || is_char(k, 'm') || is_char(k, 'p')) {
        4
    } else if k.code == KeyCode::Tab {
        5
    } else if k.code == KeyCode::BackTab {
        6
    } else if is_char(k, 'j') || k.code == KeyCode::Down {
        7
    } else if is_char(k, 'k') || k.code == KeyCode::Up {
        8
    } else if is_char(k, 'G') {
        9
    } else if is_char(k, 'g') {
        10
    } else if k.code == KeyCode::Enter {
        11
    } else if is_char(k, 'r') {
        12
    } else if is_char(k, 'o') {
        13
    } else if k.mods == Mods::Control && is_char(k, 'd') {
        14
    } else if k.mods == Mods::Control && is_char(k, 'u') {
        15
    } else if k.mods == Mods::Control && is_char(k, 's') {
        16
    } else {
        17
    }
}

/// The tab a digit or letter shortcut selects.
pub open spec fn key_tab(k: Key) -> CourseTab {
    if is_char(k, '1') || is_char(k, 'a') {
        CourseTab::Assignments
    } else if is_char(k, '2') || is_char(k, 'n') {
        CourseTab::Announcements
    } else if is_char(k, '3') || is_char(k, 'd') {
        CourseTab::Discussions
    } else if is_char(k, '4') || is_char(k, 'f') {
        CourseTab::Files
    } else if is_char(k, '5') || is_char(k, 'm') {
        CourseTab::Modules
    } else if is_char(k, '6') || is_char(k, 'p') {
        CourseTab::Pages
    } else if is_char(k, '7') {
        CourseTab::Quizzes
    } else {
        CourseTab::Grades
    }
}

/// The tab a course-screen key switches to, for the tab arms (3–6).
pub open spec fn next_tab(v: CourseViewState, k: Key) -> CourseTab {
    let arm = course_arm(k);
    if arm == 5 {
        tab_at(tab_index(v.active_tab) + 1)
    } else if arm == 6 {
        tab_at(tab_index(v.active_tab) + 7)
    } else {
        key_tab(k)
    }
}

/// `w` is `v` with possibly another active tab and other selections.
pub open spec fn same_rows(v: CourseViewState, w: CourseViewState) -> bool {
    &&& w.course_id == v.course_id
    &&& w.course_name == v.course_name
    &&& w.assignments == v.assignments
    &&& w.announcements == v.announcements
    &&& w.discussions == v.discussions
    &&& w.files == v.files
    &&& w.folders == v.folders
    &&& w.current_folder_id == v.current_folder_id
    &&& w.folder_path == v.folder_path
    &&& w.modules == v.modules
    &&& w.pages == v.pages
    &&& w.quizzes == v.quizzes
    &&& w.loading == v.loading
}

/// Only view `vi` may differ between `a` and `b`; everything else is equal.
pub open spec fn only_view_changed(a: App, b: App, vi: int) -> bool {
    &&& b.course_views@.len() == a.course_views@.len()
    &&& forall|j: int| 0 <= j < a.course_views@.len() && j != vi ==> b.course_views@[j] == a.course_views@[j]
    &&& b.screen == a.screen
    &&& b.modal == a.modal
    &&& b.should_quit == a.should_quit
    &&& b.history == a.history
    &&& b.recent_courses == a.recent_courses
    &&& b.courses == a.courses
    &&& b.deadlines == a.deadlines
    &&& b.has_session == a.has_session
    &&& b.login_field == a.login_field
}

/// The selection of the active tab after a movement arm (7–10, 14, 15).
pub open spec fn course_moved(v: CourseViewState, arm: int) -> usize {
    let sel = v.spec_selected();
    let n = v.spec_item_count();
    if arm == 7 {
        step_down(sel, 1, n)
    } else if arm == 8 {
        step_up(sel, 1)
    } else if arm == 9 {
        to_last(sel, n)
    } else if arm == 10 {
        0
    } else if arm == 14 {
        step_down(sel, 10, n)
    } else {
        step_up(sel, 10)
    }
}

fn course_arm_exec(k: Key) -> (r: u8)
    ensures
        r as int == course_arm(k),
{
    let c = k.code;
    if c == KeyCode::Esc && k.mods == Mods::Plain {
        0
    } else if c == KeyCode::Backspace && k.mods == Mods::Plain {
        1
    } else if c == KeyCode::Char('q') {
        2
    } else if c == KeyCode::Char('1') || c == KeyCode::Char('2') || c == KeyCode::Char('3') || c
        == KeyCode::Char('4') || c == KeyCode::Char('5') || c == KeyCode::Char('6') || c == KeyCode::Char(
        '7',
    ) || c == KeyCode::Char('8') {
        3
    } else if k.mods == Mods::Plain && (c == KeyCode::Char('a') || c == KeyCode::Char('n') || c
        == KeyCode::Char('d') || c == KeyCode::Char('f') || c == KeyCode::Char('m') || c == KeyCode::Char(
        'p',
    )) {
        4
    } else if c == KeyCode::Tab {
        5
    } else if c == KeyCode::BackTab {
        6
    } else if c == KeyCode::Char('j') || c == KeyCode::Down {
        7
    } else if c == KeyCode::Char('k') || c == KeyCode::Up {
        8
    } else if c == KeyCode::Char('G') {
        9
    } else if c == KeyCode::Char('g') {
        10
    } else if c == KeyCode::Enter {
        11
    } else if c == KeyCode::Char('r') {
        12
    } else if c == KeyCode::Char('o') {
        13
    } else if k.mods == Mods::Control && c == KeyCode::Char('d') {
        14
    } else if k.mods == Mods::Control && c == KeyCode::Char('u') {
        15
    } else if k.mods == Mods::Control && c == KeyCode::Char('s') {
        16
    } else {
        17
    }
}

fn key_tab_exec(k: Key) -> (r: CourseTab)
    ensures
        r == key_tab(k),
{
    let c = k.code;
    if c == KeyCode::Char('1') || c == KeyCode::Char('a') {
        CourseTab::Assignments
    } else if c == KeyCode::Char('2') || c == KeyCode::Char('n') {
        CourseTab::Announcements
    } else if c == KeyCode::Char('3') || c == KeyCode::Char('d') {
        CourseTab::Discussions
    } else if c == KeyCode::Char('4') || c == KeyCode::Char('f') {
        CourseTab::Files
    } else if c == KeyCode::Char('5') || c == KeyCode::Char('m') {
        CourseTab::Modules
    } else if c == KeyCode::Char('6') || c == KeyCode::Char('p') {
        CourseTab::Pages
    } else if c == KeyCode::Char('7') {
        CourseTab::Quizzes
    } else {
        CourseTab::Grades
    }
}

impl App {
    /// Switch the active tab of course `cid`'s view, if it has one.
    fn switch_tab(&mut self, vi: usize, tab: CourseTab)
        requires
            vi < old(self).course_views@.len(),
            views_wf(old(self).course_views@),
        ensures
            only_view_changed(*old(self), *final(self), vi as int),
            same_rows(old(self).course_views@[vi as int], final(self).course_views@[vi as int]),
            final(self).course_views@[vi as int].active_tab == tab,
            final(self).course_views@[vi as int].tab_selected == old(self).course_views@[vi as int].tab_selected,
            views_wf(final(self).course_views@),
    {
        let ghost before = self.course_views@;
        self.course_views[vi].active_tab = tab;
        proof {
            assert forall|j: int| 0 <= j < self.course_views@.len() implies (#[trigger]
            self.course_views@[j]).wf() && self.course_views@[j].files@.len()
                + self.course_views@[j].folders@.len() <= usize::MAX by {
                if j != vi {
                    assert(self.course_views@[j] == before[j]);
                }
            }
        }
    }

    /// Move the selection of the active tab of view `vi`.
    fn move_in_view(&mut self, vi: usize, arm: u8)
        requires
            vi < old(self).course_views@.len(),
            views_wf(old(self).course_views@),
            arm == 7 || arm == 8 || arm == 9 || arm == 10 || arm == 14 || arm == 15,
        ensures
            only_view_changed(*old(self), *final(self), vi as int),
            same_rows(old(self).course_views@[vi as int], final(self).course_views@[vi as int]),
            final(self).course_views@[vi as int].active_tab == old(self).course_views@[vi as int].active_tab,
            final(self).course_views@[vi as int].spec_selected() == course_moved(
                old(self).course_views@[vi as int],
                arm as int,
            ),
            final(self).course_views@[vi as int].tab_selected@ == old(self).course_views@[vi as int].tab_selected@.update(
                tab_index(old(self).course_views@[vi as int].active_tab),
                course_moved(old(self).course_views@[vi as int], arm as int),
            ),
            views_wf(final(self).course_views@),
    {
        let ghost before = self.course_views@;
        let count = self.course_views[vi].item_count();
        let sel = self.course_views[vi].selected();
        let next = if arm == 7 {
            down(sel, 1, count)
        } else if arm == 8 {
            up(sel, 1)
        } else if arm == 9 {
            if count == 0 {
                sel
            } else {
                count - 1
            }
        } else if arm == 10 {
            0
        } else if arm == 14 {
            down(sel, 10, count)
        } else {
            up(sel, 10)
        };
        self.course_views[vi].set_selected(next);
        proof {
            assert forall|j: int| 0 <= j < self.course_views@.len() implies (#[trigger]
            self.course_views@[j]).wf() && self.course_views@[j].files@.len()
                + self.course_views@[j].folders@.len() <= usize::MAX by {
                if j != vi {
                    assert(self.course_views@[j] == before[j]);
                }
            }
        }
    }
}

/// The view of an optional string, empty when absent.
pub open spec fn or_empty(o: Option<String>) -> Seq<char> {
    match o {
        Some(x) => x@,
        None => seq![],
    }
}

/// The URL of the row of `items` at `sel`, if that row exists and has one.
pub open spec fn row_url(items: Seq<ListItem>, sel: usize) -> Option<Seq<char>> {
    if sel < items.len() {
        ostr(items[sel as int].url)
    } else {
        None
    }
}

/// What `o` opens on a course screen, by tab.
pub open spec fn course_open(v: CourseViewState, cid: i64) -> Option<Seq<char>> {
    let sel = v.spec_selected();
    match v.active_tab {
        CourseTab::Assignments => if sel < v.assignments@.len() {
            match v.assignments@[sel as int].url {
                Some(u) => Some(u@),
                None => Some(course_url(cid, "/assignments"@)),
            }
        } else {
            None
        },
        CourseTab::Announcements => row_url(v.announcements@, sel),
        CourseTab::Discussions => row_url(v.discussions@, sel),
        CourseTab::Files => Some(course_url(cid, "/files"@)),
        CourseTab::Modules => Some(course_url(cid, "/modules"@)),
        CourseTab::Pages => match row_url(v.pages@, sel) {
            Some(slug) => Some(course_url(cid, "/pages/"@ + slug)),
            None => None,
        },
        CourseTab::Quizzes => row_url(v.quizzes@, sel),
        CourseTab::Grades => Some(course_url(cid, "/grades"@)),
    }
}

/// What Ctrl-s downloads: the selected file of the Files tab (folders come
/// first and cannot be downloaded), as (URL, file name).
pub open spec fn download_of(v: CourseViewState) -> Option<(Seq<char>, Seq<char>)> {
    let sel = v.spec_selected();
    let nf = v.folders@.len();
    if v.active_tab != CourseTab::Files || sel < nf || sel - nf >= v.files@.len() {
        None
    } else {
        let f = v.files@[sel - nf];
        match f.url {
            Some(u) => Some((u@, or_empty(f.name))),
            None => None,
        }
    }
}

/// Esc / Backspace on the Files tab inside a folder goes up one folder
/// (when a session exists) instead of leaving the course.
pub open spec fn can_go_up(a: App, cid: i64) -> bool {
    let vi = view_index(a.course_views@, cid);
    &&& vi >= 0
    &&& a.course_views@[vi].active_tab == CourseTab::Files
    &&& a.course_views@[vi].folder_path@.len() > 0
    &&& a.has_session
}

fn url_of(items: &Vec<ListItem>, sel: usize) -> (r: Option<String>)
    ensures
        ostr(r) == row_url(items@, sel),
{
    if sel < items.len() {
        match &items[sel].url {
            Some(u) => Some(u.clone()),
            None => None,
        }
    } else {
        None
    }
}

impl App {
    /// Go up one folder in course `cid`'s Files tab, if inside one.
    fn try_navigate_folder_up(&mut self, cid: i64) -> (r: Option<Effect>)
        requires
            views_wf(old(self).course_views@),
        ensures
            r is Some <==> can_go_up(*old(self), cid),
            r is None ==> *final(self) == *old(self),
            views_wf(final(self).course_views@),
            r is Some ==> {
                let vi = view_index(old(self).course_views@, cid);
                let v = old(self).course_views@[vi];
                let w = final(self).course_views@[vi];
                &&& only_view_changed(*old(self), *final(self), vi)
                &&& w.folder_path@ == v.folder_path@.drop_last()
                &&& w.spec_selected() == 0
                &&& w.active_tab == v.active_tab
                &&& w.current_folder_id == if w.folder_path@.len() > 0 {
                    Some(w.folder_path@.last().0)
                } else {
                    None
                }
                &&& r matches Some(Effect::LoadFolder(c, f)) && c == cid && f == w.current_folder_id
            },
    {
        proof {
            lemma_view_index(self.course_views@, cid);
        }
        let vi = match self.find_view(cid) {
            Some(i) => i,
            None => return None,
        };
        if self.course_views[vi].active_tab != CourseTab::Files || self.course_views[vi].folder_path.len()
            == 0 || !self.has_session {
            return None;
        }
        let ghost before = self.course_views@;
        self.course_views[vi].folder_path.pop();
        self.course_views[vi].set_selected(0);
        let n = self.course_views[vi].folder_path.len();
        let parent = if n > 0 {
            Some(self.course_views[vi].folder_path[n - 1].0)
        } else {
            None
        };
        self.course_views[vi].current_folder_id = parent;
        proof {
            assert forall|j: int| 0 <= j < self.course_views@.len() implies (#[trigger]
            self.course_views@[j]).wf() && self.course_views@[j].files@.len()
                + self.course_views@[j].folders@.len() <= usize::MAX by {
                if j != vi {
                    assert(self.course_views@[j] == before[j]);
                }
            }
        }
        Some(Effect::LoadFolder(cid, parent))
    }

    /// Enter folder `fid` named `name` of course `cid` (when a session
    /// exists): remember it in the breadcrumb and ask for its contents.
    fn navigate_into_folder(&mut self, cid: i64, fid: i64, name: String) -> (e: Effect)
        requires
            views_wf(old(self).course_views@),
        ensures
            views_wf(final(self).course_views@),
            final(self).login_field == old(self).login_field,
            !old(self).has_session ==> *final(self) == *old(self) && e is Nothing,
            old(self).has_session ==> (e matches Effect::LoadFolder(c, f) && c == cid && f == Some(fid)),
            old(self).has_session && view_index(old(self).course_views@, cid) < 0 ==> *final(self) == *old(self),
            old(self).has_session && view_index(old(self).course_views@, cid) >= 0 ==> {
                let vi = view_index(old(self).course_views@, cid);
                let v = old(self).course_views@[vi];
                let w = final(self).course_views@[vi];
                &&& only_view_changed(*old(self), *final(self), vi)
                &&& w.folder_path@.drop_last() == v.folder_path@
                &&& w.folder_path@.last().0 == fid
                &&& w.folder_path@.last().1@ == name@
                &&& w.current_folder_id == Some(fid)
                &&& w.spec_selected() == 0
                &&& w.active_tab == v.active_tab
            },
    {
        if !self.has_session {
            return Effect::Nothing;
        }
        proof {
            lemma_view_index(self.course_views@, cid);
        }
        match self.find_view(cid) {
            None => {},
            Some(vi) => {
                let ghost before = self.course_views@;
                let ghost old_path = self.course_views@[vi as int].folder_path@;
                self.course_views[vi].folder_path.push((fid, name));
                self.course_views[vi].current_folder_id = Some(fid);
                self.course_views[vi].set_selected(0);
                proof {
                    assert(self.course_views@[vi as int].folder_path@.drop_last() =~= old_path);
                    assert forall|j: int| 0 <= j < self.course_views@.len() implies (#[trigger]
                    self.course_views@[j]).wf() && self.course_views@[j].files@.len()
                        + self.course_views@[j].folders@.len() <= usize::MAX by {
                        if j != vi {
                            assert(self.course_views@[j] == before[j]);
                        }
                    }
                }
            },
        }
        Effect::LoadFolder(cid, Some(fid))
    }

    /// What `o` opens on course `cid`'s screen.
    fn course_open_url(&self, cid: i64) -> (e: Effect)
        requires
            views_wf(self.course_views@),
        ensures
            view_index(self.course_views@, cid) < 0 ==> e is Nothing,
            view_index(self.course_views@, cid) >= 0 ==> match course_open(
                self.course_views@[view_index(self.course_views@, cid)],
                cid,
            ) {
                Some(u) => e matches Effect::OpenUrl(x) && x@ == u,
                None => e is Nothing,
            },
    {
        proof {
            lemma_view_index(self.course_views@, cid);
        }
        let vi = match self.find_view(cid) {
            Some(i) => i,
            None => return Effect::Nothing,
        };
        let v = &self.course_views[vi];
        let sel = v.selected();
        match v.active_tab {
            CourseTab::Assignments => {
                if sel < v.assignments.len() {
                    match &v.assignments[sel].url {
                        Some(u) => Effect::OpenUrl(u.clone()),
                        None => Effect::OpenUrl(course_url_exec(cid, "/assignments")),
                    }
                } else {
                    Effect::Nothing
                }
            },
            CourseTab::Announcements => match url_of(&v.announcements, sel) {
                Some(u) => Effect::OpenUrl(u),
                None => Effect::Nothing,
            },
            CourseTab::Discussions => match url_of(&v.discussions, sel) {
                Some(u) => Effect::OpenUrl(u),
                None => Effect::Nothing,
            },
            CourseTab::Files => Effect::OpenUrl(course_url_exec(cid, "/files")),
            CourseTab::Modules => Effect::OpenUrl(course_url_exec(cid, "/modules")),
            CourseTab::Pages => match url_of(&v.pages, sel) {
                Some(slug) => {
                    let mut suffix = crate::strs::owned("/pages/");
                    crate::strs::push_str(&mut suffix, slug.as_str());
                    Effect::OpenUrl(course_url_exec(cid, suffix.as_str()))
                },
                None => Effect::Nothing,
            },
            CourseTab::Quizzes => match url_of(&v.quizzes, sel) {
                Some(u) => Effect::OpenUrl(u),
                None => Effect::Nothing,
            },
            CourseTab::Grades => Effect::OpenUrl(course_url_exec(cid, "/grades")),
        }
    }

    /// The download Ctrl-s asks for on course `cid`'s screen.
    fn download_selected_file(&self, cid: i64) -> (e: Effect)
        requires
            views_wf(self.course_views@),
        ensures
            view_index(self.course_views@, cid) < 0 ==> e is Nothing,
            view_index(self.course_views@, cid) >= 0 ==> match download_of(
                self.course_views@[view_index(self.course_views@, cid)],
            ) {
                Some((u, n)) => e matches Effect::Download(x, y) && x@ == u && y@ == n,
                None => e is Nothing,
            },
    {
        proof {
            lemma_view_index(self.course_views@, cid);
        }
        let vi = match self.find_view(cid) {
            Some(i) => i,
            None => return Effect::Nothing,
        };
        let v = &self.course_views[vi];
        if v.active_tab != CourseTab::Files {
            return Effect::Nothing;
        }
        let sel = v.selected();
        let nf = v.folders.len();
        if sel < nf || sel - nf >= v.files.len() {
            return Effect::Nothing;
        }
        let f = &v.files[sel - nf];
        match &f.url {
            Some(u) => {
                let name = match &f.name {
                    Some(n) => n.clone(),
                    None => String::new(),
                };
                proof {
                    assert(or_empty(f.name) == name@) by {
                        if f.name is None {
                            assert(name@ =~= Seq::<char>::empty());
                        }
                    }
                }
                Effect::Download(u.clone(), name)
            },
            None => Effect::Nothing,
        }
    }
}

/// The modal Enter opens on a course screen (not for folders).
pub open spec fn enter_modal(v: CourseViewState, cid: i64) -> Option<Modal> {
    let sel = v.spec_selected();
    let nf = v.folders@.len();
    match v.active_tab {
        CourseTab::Assignments => if sel < v.assignments@.len() {
            Some(Modal::AssignmentDetail(AssignmentDetailState { course_id: cid, assignment_idx: sel, scroll: 0 }))
        } else {
            None
        },
        CourseTab::Files => if sel >= nf && sel - nf < v.files@.len() {
            Some(Modal::FilePreview(FilePreviewState { course_id: cid, file_idx: (sel - nf) as usize }))
        } else {
            None
        },
        CourseTab::Announcements => if sel < v.announcements@.len() {
            Some(
                Modal::TopicDetail(
                    TopicDetailState { course_id: cid, topic_idx: sel, is_announcement: true, scroll: 0 },
                ),
            )
        } else {
            None
        },
        CourseTab::Discussions => if sel < v.discussions@.len() {
            Some(
                Modal::TopicDetail(
                    TopicDetailState { course_id: cid, topic_idx: sel, is_announcement: false, scroll: 0 },
                ),
            )
        } else {
            None
        },
        _ => None,
    }
}

/// The folder Enter goes into on the Files tab: (id, name).
pub open spec fn enter_folder(v: CourseViewState) -> Option<(i64, Seq<char>)> {
    let sel = v.spec_selected();
    if v.active_tab == CourseTab::Files && sel < v.folders@.len() {
        Some(
            (
                match v.folders@[sel as int].id {
                    Some(i) => i,
                    None => 0,
                },
                or_empty(v.folders@[sel as int].name),
            ),
        )
    } else {
        None
    }
}

/// What Enter does on the screen of course `cid`: nothing without its
/// view; on a folder row of the Files tab (with a session) it goes into the
/// folder and asks for its contents; on an assignment, topic or file row it
/// opens that row's pop-up; elsewhere nothing.
pub open spec fn course_enter_post(a: App, b: App, cid: i64, e: Effect) -> bool {
    let vi = view_index(a.course_views@, cid);
    &&& vi < 0 ==> b == a && e is Nothing
    &&& vi >= 0 ==> {
        let v = a.course_views@[vi];
        match enter_folder(v) {
            Some((fid, name)) => {
                &&& a.has_session ==> {
                    &&& e matches Effect::LoadFolder(c, f) && c == cid && f == Some(fid)
                    &&& only_view_changed(a, b, vi)
                    &&& b.course_views@[vi].folder_path@.drop_last() == v.folder_path@
                    &&& b.course_views@[vi].folder_path@.last().0 == fid
                    &&& b.course_views@[vi].folder_path@.last().1@ == name
                    &&& b.course_views@[vi].current_folder_id == Some(fid)
                    &&& b.course_views@[vi].spec_selected() == 0
                    &&& b.course_views@[vi].active_tab == v.active_tab
                }
                &&& !a.has_session ==> b == a && e is Nothing
            },
            None => {
                &&& e is Nothing
                &&& match enter_modal(v, cid) {
                    Some(m) => same_except_modal(a, b) && b.modal == Some(m),
                    None => b == a,
                }
            },
        }
    }
}

impl App {
    /// Enter on a course screen: open the selected assignment, topic or file
    /// in a modal, or go into the selected folder.
    fn handle_course_enter(&mut self, cid: i64) -> (e: Effect)
        requires
            views_wf(old(self).course_views@),
        ensures
            views_wf(final(self).course_views@),
            final(self).login_field == old(self).login_field,
            course_enter_post(*old(self), *final(self), cid, e),
    {
        proof {
            lemma_view_index(self.course_views@, cid);
        }
        let vi = match self.find_view(cid) {
            Some(i) => i,
            None => return Effect::Nothing,
        };
        let sel = self.course_views[vi].selected();
        let nf = self.course_views[vi].folders.len();
        match self.course_views[vi].active_tab {
            CourseTab::Assignments => {
                if sel < self.course_views[vi].assignments.len() {
                    self.modal = Some(
                        Modal::AssignmentDetail(
                            AssignmentDetailState { course_id: cid, assignment_idx: sel, scroll: 0 },
                        ),
                    );
                }
                Effect::Nothing
            },
            CourseTab::Files => {
                if sel < nf {
                    let fid = match self.course_views[vi].folders[sel].id {
                        Some(i) => i,
                        None => 0,
                    };
                    let name = match &self.course_views[vi].folders[sel].name {
                        Some(n) => n.clone(),
                        None => String::new(),
                    };
                    proof {
                        let f = self.course_views@[vi as int].folders@[sel as int];
                        assert(or_empty(f.name) == name@) by {
                            if f.name is None {
                                assert(name@ =~= Seq::<char>::empty());
                            }
                        }
                    }
                    self.navigate_into_folder(cid, fid, name)
                } else {
                    if sel - nf < self.course_views[vi].files.len() {
                        self.modal = Some(
                            Modal::FilePreview(FilePreviewState { course_id: cid, file_idx: sel - nf }),
                        );
                    }
                    Effect::Nothing
                }
            },
            CourseTab::Announcements => {
                if sel < self.course_views[vi].announcements.len() {
                    self.modal = Some(
                        Modal::TopicDetail(
                            TopicDetailState {
                                course_id: cid,
                                topic_idx: sel,
                                is_announcement: true,
                                scroll: 0,
                            },
                        ),
                    );
                }
                Effect::Nothing
            },
            CourseTab::Discussions => {
                if sel < self.course_views[vi].discussions.len() {
                    self.modal = Some(
                        Modal::TopicDetail(
                            TopicDetailState {
                                course_id: cid,
                                topic_idx: sel,
                                is_announcement: false,
                                scroll: 0,
                            },
                        ),
                    );
                }
                Effect::Nothing
            },
            _ => Effect::Nothing,
        }
    }

    /// The course screen's keys: Esc/Backspace go up a folder or back, `q`
    /// goes back, `1`–`8` and the letter shortcuts pick a tab, Tab/BackTab
    /// cycle tabs, `j`/`k`/`G`/`g` and Ctrl-d/u move, Enter opens, `r`
    /// reloads, `o` opens in the browser, Ctrl-s downloads.
    pub fn handle_course_keys(&mut self, key: Key, cid: i64) -> (e: Effect)
        requires
            views_wf(old(self).course_views@),
        ensures
            course_post(*old(self), *final(self), key, cid, e),
            final(self).login_field == old(self).login_field,
            views_wf(final(self).course_views@),
    {
        proof {
            lemma_view_index(self.course_views@, cid);
        }
        let arm = course_arm_exec(key);
        if arm == 0 || arm == 1 || arm == 2 {
            if arm != 2 {
                match self.try_navigate_folder_up(cid) {
                    Some(e) => return e,
                    None => {},
                }
            }
            self.go_back();
            return Effect::Nothing;
        }
        if arm == 12 {
            return Effect::LoadCourse(cid);
        }
        if arm == 13 {
            return self.course_open_url(cid);
        }
        if arm == 16 {
            return self.download_selected_file(cid);
        }
        if arm == 11 {
            return self.handle_course_enter(cid);
        }
        if arm == 17 {
            return Effect::Nothing;
        }
        let vi = match self.find_view(cid) {
            Some(i) => i,
            None => return Effect::Nothing,
        };
        if arm >= 3 && arm <= 6 {
            let tab = if arm == 5 {
                CourseTab::at(self.course_views[vi].active_tab.index() + 1)
            } else if arm == 6 {
                CourseTab::at(self.course_views[vi].active_tab.index() + 7)
            } else {
                key_tab_exec(key)
            };
            self.switch_tab(vi, tab);
        } else {
            self.move_in_view(vi, arm);
        }
        Effect::Nothing
    }
}

/// A movement key on a course screen (`j`/`k`/`g`/`G`, the arrows,
/// Ctrl-d/u) moves the active tab's selection only: every other tab keeps
/// its selected row, and the screen and history stay.
pub proof fn law_movement_keeps_other_tabs(a: App, b: App, key: Key, cid: i64, e: Effect, t: int)
    requires
        course_post(a, b, key, cid, e),
        (7 <= course_arm(key) <= 10) || course_arm(key) == 14 || course_arm(key) == 15,
        view_index(a.course_views@, cid) >= 0,
        0 <= t < 8,
        t != tab_index(a.course_views@[view_index(a.course_views@, cid)].active_tab),
        a.course_views@[view_index(a.course_views@, cid)].wf(),
    ensures
        b.course_views@[view_index(a.course_views@, cid)].tab_selected@[t] == a.course_views@[view_index(
            a.course_views@,
            cid,
        )].tab_selected@[t],
        b.screen == a.screen,
        b.history == a.history,
        e is Nothing,
{
}

/// Tab then BackTab (or BackTab then Tab) comes back to the tab we started
/// from, and eight Tabs go round the whole bar.
pub proof fn law_tab_cycle(t: CourseTab)
    ensures
        tab_at(tab_index(tab_at(tab_index(t) + 1)) + 7) == t,
        tab_at(tab_index(tab_at(tab_index(t) + 7)) + 1) == t,
        tab_at(tab_index(t) + 8) == t,
{
}

// ───────────────────────────── modals ─────────────────────────────

/// `x + 1`, stopping at the maximum.
pub open spec fn sat_inc(x: u16) -> u16 {
    if x < u16::MAX {
        (x + 1) as u16
    } else {
        x
    }
}

/// `x - 1`, stopping at zero.
pub open spec fn sat_dec(x: u16) -> u16 {
    if x > 0 {
        (x - 1) as u16
    } else {
        0
    }
}

fn inc(x: u16) -> (r: u16)
    ensures
        r == sat_inc(x),
{
    if x < u16::MAX {
        x + 1
    } else {
        x
    }
}

fn dec(x: u16) -> (r: u16)
    ensures
        r == sat_dec(x),
{
    if x > 0 {
        x - 1
    } else {
        0
    }
}

/// The URL of row `idx` of a list of course `cid`, picked by `pick`.
pub open spec fn view_row_url(a: App, cid: i64, tab: CourseTab, idx: usize) -> Option<Seq<char>> {
    let vi = view_index(a.course_views@, cid);
    if vi < 0 {
        None
    } else {
        let v = a.course_views@[vi];
        let rows = match tab {
            CourseTab::Assignments => v.assignments@,
            CourseTab::Announcements => v.announcements@,
            CourseTab::Discussions => v.discussions@,
            _ => v.files@,
        };
        row_url(rows, idx)
    }
}

/// Close keys of the detail modals: Esc and `q`.
pub open spec fn is_close(k: Key) -> bool {
    k.code == KeyCode::Esc || is_char(k, 'q')
}

/// Scroll-down keys: `j` and Down.
pub open spec fn is_down(k: Key) -> bool {
    is_char(k, 'j') || k.code == KeyCode::Down
}

/// Scroll-up keys: `k` and Up.
pub open spec fn is_up(k: Key) -> bool {
    is_char(k, 'k') || k.code == KeyCode::Up
}

/// Notification `i` of `n` is read and is notification `i` of `o`.
pub open spec fn all_read_same_id(n: Seq<NotificationItem>, o: Seq<NotificationItem>, i: int) -> bool {
    n[i].read && n[i].id == o[i].id
}

/// The status line after the download of `name` finished.
pub open spec fn downloaded_msg(name: Seq<char>) -> Seq<char> {
    "Downloaded "@ + name
}

/// The effect of opening the URL `u`, if any.
pub open spec fn open_effect(u: Option<Seq<char>>, e: Effect) -> bool {
    match u {
        Some(x) => e matches Effect::OpenUrl(y) && y@ == x,
        None => e is Nothing,
    }
}

fn tab_rows(v: &CourseViewState, tab: CourseTab) -> (r: &Vec<ListItem>)
    ensures
        r@ == match tab {
            CourseTab::Assignments => v.assignments@,
            CourseTab::Announcements => v.announcements@,
            CourseTab::Discussions => v.discussions@,
            _ => v.files@,
        },
{
    match tab {
        CourseTab::Assignments => &v.assignments,
        CourseTab::Announcements => &v.announcements,
        CourseTab::Discussions => &v.discussions,
        _ => &v.files,
    }
}

fn without_last(s: &String) -> (r: String)
    ensures
        r@ == if s@.len() > 0 {
            s@.drop_last()
        } else {
            s@
        },
{
    let v = crate::strs::chars_of(s.as_str());
    if v.len() == 0 {
        return s.clone();
    }
    let r = crate::strs::string_of_range(&v, 0, v.len() - 1);
    assert(v@.subrange(0, v.len() - 1) =~= s@.drop_last());
    r
}

impl App {
    fn open_row(&self, cid: i64, tab: CourseTab, idx: usize) -> (e: Effect)
        ensures
            open_effect(view_row_url(*self, cid, tab, idx), e),
    {
        proof {
            lemma_view_index(self.course_views@, cid);
        }
        match self.find_view(cid) {
            None => Effect::Nothing,
            Some(vi) => match url_of(tab_rows(&self.course_views[vi], tab), idx) {
                Some(u) => Effect::OpenUrl(u),
                None => Effect::Nothing,
            },
        }
    }

    /// The keys of the open modal. Detail modals scroll with `j`/`k`, open
    /// in the browser with `o` and close with Esc/`q`; the file preview
    /// downloads with `d`/Enter; a confirmation toggles with arrows/`h`/`l`
    /// and acts on Enter; the notification list clears with `c` and marks
    /// read with `r`; the search palette is handled by
    /// `handle_search_keys`.
    pub fn handle_modal_keys(&mut self, key: Key) -> (e: Effect)
        requires
            views_wf(old(self).course_views@),
        ensures
            modal_post(*old(self), *final(self), key, e),
            final(self).login_field == old(self).login_field,
            views_wf(final(self).course_views@),
    {
        let modal = self.modal.take();
        match modal {
            None => Effect::Nothing,
            Some(Modal::Help) => {
                if !(key.code == KeyCode::Esc || key.code == KeyCode::Char('q') || key.code
                    == KeyCode::Char('?')) {
                    self.modal = Some(Modal::Help);
                }
                Effect::Nothing
            },
            Some(Modal::Search(st)) => {
                self.modal = Some(Modal::Search(st));
                self.handle_search_keys(key)
            },
            Some(Modal::AssignmentDetail(st)) => {
                let close = key.code == KeyCode::Esc || key.code == KeyCode::Char('q');
                let mut e = Effect::Nothing;
                if close {
                } else if key.code == KeyCode::Char('j') || key.code == KeyCode::Down {
                    self.modal = Some(
                        Modal::AssignmentDetail(
                            AssignmentDetailState {
                                course_id: st.course_id,
                                assignment_idx: st.assignment_idx,
                                scroll: inc(st.scroll),
                            },
                        ),
                    );
                } else if key.code == KeyCode::Char('k') || key.code == KeyCode::Up {
                    self.modal = Some(
                        Modal::AssignmentDetail(
                            AssignmentDetailState {
                                course_id: st.course_id,
                                assignment_idx: st.assignment_idx,
                                scroll: dec(st.scroll),
                            },
                        ),
                    );
                } else {
                    self.modal = Some(Modal::AssignmentDetail(st));
                    if key.code == KeyCode::Char('o') {
                        e = self.open_row(st.course_id, CourseTab::Assignments, st.assignment_idx);
                    }
                }
                e
            },
            Some(Modal::TopicDetail(st)) => {
                let close = key.code == KeyCode::Esc || key.code == KeyCode::Char('q');
                let mut e = Effect::Nothing;
                if close {
                } else if key.code == KeyCode::Char('j') || key.code == KeyCode::Down {
                    self.modal = Some(
                        Modal::TopicDetail(
                            TopicDetailState {
                                course_id: st.course_id,
                                topic_idx: st.topic_idx,
                                is_announcement: st.is_announcement,
                                scroll: inc(st.scroll),
                            },
                        ),
                    );
                } else if key.code == KeyCode::Char('k') || key.code == KeyCode::Up {
                    self.modal = Some(
                        Modal::TopicDetail(
                            TopicDetailState {
                                course_id: st.course_id,
                                topic_idx: st.topic_idx,
                                is_announcement: st.is_announcement,
                                scroll: dec(st.scroll),
                            },
                        ),
                    );
                } else {
                    self.modal = Some(Modal::TopicDetail(st));
                    if key.code == KeyCode::Char('o') {
                        let tab = if st.is_announcement {
                            CourseTab::Announcements
                        } else {
                            CourseTab::Discussions
                        };
                        e = self.open_row(st.course_id, tab, st.topic_idx);
                    }
                }
                e
            },
            Some(Modal::FilePreview(st)) => {
                if key.code == KeyCode::Esc || key.code == KeyCode::Char('q') {
                    Effect::Nothing
                } else if key.code == KeyCode::Char('d') || key.code == KeyCode::Enter {
                    self.download_selected_file(st.course_id)
                } else {
                    self.modal = Some(Modal::FilePreview(st));
                    if key.code == KeyCode::Char('o') {
                        self.open_row(st.course_id, CourseTab::Files, st.file_idx)
                    } else {
                        Effect::Nothing
                    }
                }
            },
            Some(Modal::Confirm(st)) => {
                if key.code == KeyCode::Esc {
                } else if key.code == KeyCode::Left || key.code == KeyCode::Char('h') || key.code
                    == KeyCode::Right || key.code == KeyCode::Char('l') {
                    self.modal = Some(
                        Modal::Confirm(
                            crate::tui::ConfirmState {
                                message: st.message,
                                selected_yes: !st.selected_yes,
                                action: st.action,
                            },
                        ),
                    );
                } else if key.code == KeyCode::Enter {
                    if st.selected_yes {
                        match st.action {
                            ConfirmAction::Download(_file_id, name) => {
                                let mut m = crate::strs::owned("Downloaded ");
                                crate::strs::push_str(&mut m, name.as_str());
                                self.status_message = Some(m);
                            },
                            ConfirmAction::Quit => {
                                self.should_quit = true;
                            },
                        }
                    }
                } else {
                    self.modal = Some(Modal::Confirm(st));
                }
                Effect::Nothing
            },
            Some(Modal::Notification) => {
                if key.code == KeyCode::Esc || key.code == KeyCode::Char('q') {
                } else if key.code == KeyCode::Char('c') {
                    self.notifications = Vec::new();
                    self.unread_count = 0;
                } else if key.code == KeyCode::Char('r') {
                    let mut ns: Vec<NotificationItem> = Vec::new();
                    std::mem::swap(&mut ns, &mut self.notifications);
                    let mut i: usize = 0;
                    let ghost before = ns@;
                    while i < ns.len()
                        invariant
                            i <= ns.len(),
                            ns@.len() == before.len(),
                            forall|j: int| 0 <= j < i ==> (#[trigger] ns@[j]).read,
                            forall|j: int| 0 <= j < ns@.len() ==> (#[trigger] ns@[j]).id == before[j].id,
                        decreases ns.len() - i,
                    {
                        ns[i].read = true;
                        i = i + 1;
                    }
                    self.notifications = ns;
                    self.unread_count = 0;
                    self.modal = Some(Modal::Notification);
                } else {
                    self.modal = Some(Modal::Notification);
                }
                Effect::Nothing
            },
        }
    }

    /// Recompute the search palette's results for its current query.
    fn update_search_results(&mut self)
        requires
            old(self).modal matches Some(Modal::Search(_)),
        ensures
            old(self).modal matches Some(Modal::Search(st)) && final(self).modal matches Some(
                Modal::Search(nt),
            ) && nt.query == st.query && nt.selected == st.selected && nt.cursor == st.cursor
                && crate::search::is_search_outcome(
                crate::search::search_index(old(self).courses@, old(self).deadlines@),
                st.query@,
                nt.results@,
            ),
            same_except_modal(*old(self), *final(self)),
    {
        match self.modal.take() {
            Some(Modal::Search(st)) => {
                let index = crate::search::build_search_index(&self.courses, &self.deadlines);
                let results = crate::search::search_results(&index, st.query.as_str());
                self.modal = Some(
                    Modal::Search(
                        SearchState { query: st.query, cursor: st.cursor, results, selected: st.selected },
                    ),
                );
            },
            other => {
                self.modal = other;
            },
        }
    }
}

/// The course Enter opens from the search palette: (id, label).
pub open spec fn search_target(st: SearchState) -> Option<(i64, Seq<char>)> {
    if st.selected < st.results@.len() && st.results@[st.selected as int].course_id is Some {
        Some((st.results@[st.selected as int].course_id->0, st.results@[st.selected as int].label@))
    } else {
        None
    }
}

impl App {
    /// The search palette's keys: Esc closes, Enter opens the selected
    /// course, Up/Down move, typing and Backspace edit the query and rerank.
    pub fn handle_search_keys(&mut self, key: Key) -> (e: Effect)
        requires
            views_wf(old(self).course_views@),
            old(self).modal matches Some(Modal::Search(_)),
        ensures
            search_post(*old(self), *final(self), key, e),
    {
        let st = match self.modal.take() {
            Some(Modal::Search(st)) => st,
            other => {
                self.modal = other;
                return Effect::Nothing;
            },
        };
        match key.code {
            KeyCode::Esc => Effect::Nothing,
            KeyCode::Enter => {
                if st.selected < st.results.len() {
                    match st.results[st.selected].course_id {
                        Some(cid) => {
                            let name = st.results[st.selected].label.clone();
                            self.navigate_to_course(cid, name)
                        },
                        None => {
                            self.modal = Some(Modal::Search(st));
                            Effect::Nothing
                        },
                    }
                } else {
                    self.modal = Some(Modal::Search(st));
                    Effect::Nothing
                }
            },
            KeyCode::Up => {
                let sel = up(st.selected, 1);
                self.modal = Some(
                    Modal::Search(SearchState { query: st.query, cursor: st.cursor, results: st.results, selected: sel }),
                );
                Effect::Nothing
            },
            KeyCode::Down => {
                let sel = down(st.selected, 1, st.results.len());
                self.modal = Some(
                    Modal::Search(SearchState { query: st.query, cursor: st.cursor, results: st.results, selected: sel }),
                );
                Effect::Nothing
            },
            KeyCode::Char(c) => {
                let mut q = st.query;
                crate::strs::push_char(&mut q, c);
                self.modal = Some(
                    Modal::Search(SearchState { query: q, cursor: st.cursor, results: st.results, selected: 0 }),
                );
                self.update_search_results();
                Effect::Nothing
            },
            KeyCode::Backspace => {
                let q = without_last(&st.query);
                self.modal = Some(
                    Modal::Search(SearchState { query: q, cursor: st.cursor, results: st.results, selected: 0 }),
                );
                self.update_search_results();
                Effect::Nothing
            },
            _ => {
                self.modal = Some(Modal::Search(st));
                Effect::Nothing
            },
        }
    }
}

/// What the dashboard's keys do.
pub open spec fn dashboard_post(a: App, b: App, key: Key, e: Effect) -> bool {
    &&& (views_wf(b.course_views@))
    &&& (({
                let arm = dashboard_arm(a, key);
                &&& (arm != 7 && arm != 9) ==> same_except_nav(a, b) && (
                b.should_quit,
                b.dashboard_focus,
                b.course_selected,
                b.deadline_selected,
                ) == dashboard_nav(a, key)
                &&& arm == 8 ==> e is LoadDashboard
                &&& arm == 12 ==> match dashboard_open(a) {
                    Some(u) => e matches Effect::OpenUrl(x) && x@ == u,
                    None => e is Nothing,
                }
                &&& (arm != 7 && arm != 8 && arm != 12) ==> e is Nothing
                &&& arm == 9 ==> (b.modal matches Some(Modal::Search(st)) && st.query@.len() == 0)
                    && same_except_modal(a, b)
                &&& arm == 7 ==> match dashboard_target(a) {
                    None => b == a && e is Nothing,
                    Some((id, name)) => {
                        &&& b.screen == Screen::CourseDetail(id)
                        &&& b.history@ == a.history@.push(a.screen)
                        &&& b.recent_courses@ == recent_after(a.recent_courses@, id)
                        &&& view_index(b.course_views@, id) >= 0
                        &&& (view_index(a.course_views@, id) < 0 ==> (e matches Effect::LoadCourse(c)
                            && c == id && b.course_views@.last().course_name@ == name))
                        &&& (view_index(a.course_views@, id) >= 0 ==> e is Nothing)
                        &&& b.modal == a.modal
                    },
                }
            }))
}

/// What the course screen's keys do.
pub open spec fn course_post(a: App, b: App, key: Key, cid: i64, e: Effect) -> bool {
    &&& (views_wf(b.course_views@))
    &&& (({
                let arm = course_arm(key);
                let vi = view_index(a.course_views@, cid);
                &&& (arm == 0 || arm == 1) && can_go_up(a, cid) ==> (e matches Effect::LoadFolder(c, _)
                    && c == cid) && only_view_changed(a, b, vi)
                    && b.course_views@[vi].folder_path@ == a.course_views@[vi].folder_path@.drop_last()
                &&& ((arm == 0 || arm == 1) && !can_go_up(a, cid)) || arm == 2 ==> {
                    &&& e is Nothing
                    &&& b.course_views == a.course_views
                    &&& b.modal == a.modal
                    &&& (a.history@.len() > 0 ==> b.screen == a.history@.last()
                        && b.history@ == a.history@.drop_last())
                    &&& (a.history@.len() == 0 ==> b.screen == a.screen)
                }
                &&& (3 <= arm <= 6 || (7 <= arm <= 10) || arm == 14 || arm == 15) && vi < 0 ==> b
                    == a && e is Nothing
                &&& 3 <= arm <= 6 && vi >= 0 ==> {
                    &&& e is Nothing
                    &&& only_view_changed(a, b, vi)
                    &&& same_rows(a.course_views@[vi], b.course_views@[vi])
                    &&& b.course_views@[vi].active_tab == next_tab(a.course_views@[vi], key)
                    &&& b.course_views@[vi].tab_selected == a.course_views@[vi].tab_selected
                }
                &&& ((7 <= arm <= 10) || arm == 14 || arm == 15) && vi >= 0 ==> {
                    &&& e is Nothing
                    &&& only_view_changed(a, b, vi)
                    &&& same_rows(a.course_views@[vi], b.course_views@[vi])
                    &&& b.course_views@[vi].active_tab == a.course_views@[vi].active_tab
                    &&& b.course_views@[vi].spec_selected() == course_moved(
                        a.course_views@[vi],
                        arm,
                    )
                    &&& b.course_views@[vi].tab_selected@ == a.course_views@[vi].tab_selected@.update(
                        tab_index(a.course_views@[vi].active_tab),
                        course_moved(a.course_views@[vi], arm),
                    )
                }
                &&& arm == 11 ==> course_enter_post(a, b, cid, e)
                &&& arm == 12 ==> b == a && (e matches Effect::LoadCourse(c) && c == cid)
                &&& arm == 13 ==> b == a && (vi < 0 ==> e is Nothing) && (vi >= 0
                    ==> match course_open(a.course_views@[vi], cid) {
                    Some(u) => e matches Effect::OpenUrl(x) && x@ == u,
                    None => e is Nothing,
                })
                &&& arm == 16 ==> b == a && (vi < 0 ==> e is Nothing) && (vi >= 0
                    ==> match download_of(a.course_views@[vi]) {
                    Some((u, n)) => e matches Effect::Download(x, y) && x@ == u && y@ == n,
                    None => e is Nothing,
                })
                &&& arm == 17 ==> b == a && e is Nothing
            }))
}

/// What the search palette's keys do.
pub open spec fn search_post(a: App, b: App, key: Key, e: Effect) -> bool {
    &&& (views_wf(b.course_views@))
    &&& (b.should_quit == a.should_quit)
    &&& (b.courses == a.courses)
    &&& (b.deadlines == a.deadlines)
    &&& (b.has_session == a.has_session)
    &&& (b.login_field == a.login_field)
    &&& (a.modal matches Some(Modal::Search(st)) && ({
                let edited = match key.code {
                    KeyCode::Char(c) => Some(st.query@.push(c)),
                    KeyCode::Backspace => Some(
                        if st.query@.len() > 0 {
                            st.query@.drop_last()
                        } else {
                            st.query@
                        },
                    ),
                    _ => None,
                };
                &&& key.code == KeyCode::Esc ==> same_except_modal(a, b)
                    && b.modal is None && e is Nothing
                &&& key.code == KeyCode::Enter ==> match search_target(st) {
                    None => b == a && e is Nothing,
                    Some((cid, label)) => {
                        &&& b.modal is None
                        &&& b.screen == Screen::CourseDetail(cid)
                        &&& b.history@ == a.history@.push(a.screen)
                        &&& b.recent_courses@ == recent_after(a.recent_courses@, cid)
                        &&& view_index(b.course_views@, cid) >= 0
                        &&& (view_index(a.course_views@, cid) < 0 ==> (e matches Effect::LoadCourse(c)
                            && c == cid && b.course_views@.last().course_name@ == label))
                        &&& (view_index(a.course_views@, cid) >= 0 ==> e is Nothing)
                    },
                }
                &&& (key.code == KeyCode::Up || key.code == KeyCode::Down) ==> {
                    &&& e is Nothing
                    &&& same_except_modal(a, b)
                    &&& b.modal matches Some(Modal::Search(nt)) && nt.query == st.query
                        && nt.results == st.results && nt.selected == if key.code == KeyCode::Up {
                        step_up(st.selected, 1)
                    } else {
                        step_down(st.selected, 1, st.results@.len() as int)
                    }
                }
                &&& edited matches Some(q) ==> {
                    &&& e is Nothing
                    &&& same_except_modal(a, b)
                    &&& b.modal matches Some(Modal::Search(nt)) && nt.query@ == q && nt.selected
                        == 0 && crate::search::is_search_outcome(
                        crate::search::search_index(a.courses@, a.deadlines@),
                        q,
                        nt.results@,
                    )
                }
                &&& !(key.code == KeyCode::Esc || key.code == KeyCode::Enter || key.code == KeyCode::Up
                    || key.code == KeyCode::Down || edited is Some) ==> b == a
                    && e is Nothing
            }))
}

/// What the keys of the open modal do.
pub open spec fn modal_post(a: App, b: App, key: Key, e: Effect) -> bool {
    &&& (views_wf(b.course_views@))
    &&& (match a.modal {
                None => b == a && e is Nothing,
                Some(Modal::Help) => {
                    &&& e is Nothing
                    &&& if is_close(key) || is_char(key, '?') {
                        same_except_modal(a, b) && b.modal is None
                    } else {
                        b == a
                    }
                },
                Some(Modal::AssignmentDetail(st)) => {
                    &&& (is_char(key, 'o') && !is_close(key)) ==> open_effect(
                        view_row_url(a, st.course_id, CourseTab::Assignments, st.assignment_idx),
                        e,
                    )
                    &&& !is_char(key, 'o') ==> e is Nothing
                    &&& same_except_modal(a, b)
                    &&& b.modal == if is_close(key) {
                        None
                    } else if is_down(key) {
                        Some(Modal::AssignmentDetail(AssignmentDetailState { scroll: sat_inc(st.scroll), ..st }))
                    } else if is_up(key) {
                        Some(Modal::AssignmentDetail(AssignmentDetailState { scroll: sat_dec(st.scroll), ..st }))
                    } else {
                        a.modal
                    }
                },
                Some(Modal::TopicDetail(st)) => {
                    &&& (is_char(key, 'o') && !is_close(key)) ==> open_effect(
                        view_row_url(
                            a,
                            st.course_id,
                            if st.is_announcement {
                                CourseTab::Announcements
                            } else {
                                CourseTab::Discussions
                            },
                            st.topic_idx,
                        ),
                        e,
                    )
                    &&& !is_char(key, 'o') ==> e is Nothing
                    &&& same_except_modal(a, b)
                    &&& b.modal == if is_close(key) {
                        None
                    } else if is_down(key) {
                        Some(Modal::TopicDetail(TopicDetailState { scroll: sat_inc(st.scroll), ..st }))
                    } else if is_up(key) {
                        Some(Modal::TopicDetail(TopicDetailState { scroll: sat_dec(st.scroll), ..st }))
                    } else {
                        a.modal
                    }
                },
                Some(Modal::FilePreview(st)) => {
                    &&& same_except_modal(a, b)
                    &&& if is_close(key) {
                        b.modal is None && e is Nothing
                    } else if is_char(key, 'd') || key.code == KeyCode::Enter {
                        &&& b.modal is None
                        &&& view_index(a.course_views@, st.course_id) < 0 ==> e is Nothing
                        &&& view_index(a.course_views@, st.course_id) >= 0 ==> match download_of(
                            a.course_views@[view_index(a.course_views@, st.course_id)],
                        ) {
                            Some((u, n)) => e matches Effect::Download(x, y) && x@ == u && y@ == n,
                            None => e is Nothing,
                        }
                    } else if is_char(key, 'o') {
                        b.modal == a.modal && open_effect(
                            view_row_url(a, st.course_id, CourseTab::Files, st.file_idx),
                            e,
                        )
                    } else {
                        b.modal == a.modal && e is Nothing
                    }
                },
                Some(Modal::Confirm(st)) => {
                    &&& e is Nothing
                    &&& if key.code == KeyCode::Esc {
                        same_except_modal(a, b) && b.modal is None
                    } else if key.code == KeyCode::Left || is_char(key, 'h') || key.code == KeyCode::Right
                        || is_char(key, 'l') {
                        same_except_modal(a, b) && (b.modal matches Some(
                            Modal::Confirm(c),
                        ) && c.selected_yes == !st.selected_yes && c.message == st.message)
                    } else if key.code == KeyCode::Enter {
                        &&& b.modal is None
                        &&& b.should_quit == (a.should_quit || (st.selected_yes
                            && st.action is Quit))
                        &&& (st.selected_yes && st.action is Download) ==> (b.status_message
                            matches Some(m) && m@ == downloaded_msg(st.action->Download_1@))
                        &&& !(st.selected_yes && st.action is Download) ==> b.status_message
                            == a.status_message
                        &&& b.screen == a.screen
                        &&& b.course_views == a.course_views
                    } else {
                        b == a
                    }
                },
                Some(Modal::Notification) => {
                    &&& e is Nothing
                    &&& b.screen == a.screen
                    &&& b.course_views == a.course_views
                    &&& b.should_quit == a.should_quit
                    &&& if is_close(key) {
                        b.modal is None && b.notifications == a.notifications
                    } else if is_char(key, 'c') {
                        b.modal is None && b.notifications@.len() == 0
                            && b.unread_count == 0
                    } else if is_char(key, 'r') {
                        &&& b.modal == a.modal
                        &&& b.unread_count == 0
                        &&& b.notifications@.len() == a.notifications@.len()
                        &&& forall|i: int| 0 <= i < b.notifications@.len()
                            ==> #[trigger] all_read_same_id(b.notifications@, a.notifications@, i)
                    } else {
                        b == a
                    }
                },
                Some(Modal::Search(_)) => search_post(a, b, key, e),
            })
    &&& (a.modal matches Some(Modal::Search(_)) ==> b.should_quit == a.should_quit)
}

// ───────────────────────────── login screen ─────────────────────────────

/// The status line while logging in.
pub open spec fn authenticating_msg() -> Seq<char> {
    "Authenticating via SAML..."@
}

impl App {
    /// The login form's keys: Tab/Down and BackTab/Up switch field, typing
    /// and Backspace edit the focused field, Enter logs in (unless already
    /// logging in), Esc quits.
    pub fn handle_login_keys(&mut self, key: Key) -> (e: Effect)
        requires
            old(self).login_field < 2,
        ensures
            login_post(*old(self), *final(self), key, e),
    {
        match key.code {
            KeyCode::Tab | KeyCode::Down => {
                self.login_field = (self.login_field + 1) % 2;
                Effect::Nothing
            },
            KeyCode::BackTab | KeyCode::Up => {
                self.login_field = if self.login_field == 0 {
                    1
                } else {
                    0
                };
                Effect::Nothing
            },
            KeyCode::Enter => {
                if !self.login_loading {
                    self.login_loading = true;
                    self.login_error = None;
                    self.status_message = Some(crate::strs::owned("Authenticating via SAML..."));
                    Effect::Login
                } else {
                    Effect::Nothing
                }
            },
            KeyCode::Char(c) => {
                if self.login_field == 0 {
                    crate::strs::push_char(&mut self.login_username, c);
                } else {
                    crate::strs::push_char(&mut self.login_password, c);
                }
                Effect::Nothing
            },
            KeyCode::Backspace => {
                if self.login_field == 0 {
                    self.login_username = without_last(&self.login_username);
                } else {
                    self.login_password = without_last(&self.login_password);
                }
                Effect::Nothing
            },
            KeyCode::Esc => {
                self.should_quit = true;
                Effect::Nothing
            },
            _ => Effect::Nothing,
        }
    }
}

/// What the login form's keys do.
pub open spec fn login_post(a: App, b: App, key: Key, e: Effect) -> bool {
    let pop = |s: Seq<char>| if s.len() > 0 {
        s.drop_last()
    } else {
        s
    };
    &&& b.login_field < 2
    &&& b.screen == a.screen
    &&& b.modal == a.modal
    &&& b.courses == a.courses
    &&& b.deadlines == a.deadlines
    &&& b.course_views == a.course_views
    &&& b.history == a.history
    &&& b.has_session == a.has_session
    &&& match key.code {
        KeyCode::Tab | KeyCode::Down => b.login_field == (a.login_field + 1) % 2 && e is Nothing
            && b.login_username == a.login_username && b.login_password == a.login_password
            && b.should_quit == a.should_quit,
        KeyCode::BackTab | KeyCode::Up => b.login_field == (if a.login_field == 0 {
            1usize
        } else {
            0usize
        }) && e is Nothing && b.login_username == a.login_username && b.login_password
            == a.login_password && b.should_quit == a.should_quit,
        KeyCode::Enter => if a.login_loading {
            b == a && e is Nothing
        } else {
            &&& e is Login
            &&& b.login_loading
            &&& b.login_error is None
            &&& b.status_message matches Some(m) && m@ == authenticating_msg()
            &&& b.login_username == a.login_username
            &&& b.login_password == a.login_password
            &&& b.login_field == a.login_field
            &&& b.should_quit == a.should_quit
        },
        KeyCode::Char(c) => {
            &&& e is Nothing
            &&& b.should_quit == a.should_quit
            &&& b.login_field == a.login_field
            &&& a.login_field == 0 ==> b.login_username@ == a.login_username@.push(c) && b.login_password
                == a.login_password
            &&& a.login_field != 0 ==> b.login_password@ == a.login_password@.push(c) && b.login_username
                == a.login_username
        },
        KeyCode::Backspace => {
            &&& e is Nothing
            &&& b.should_quit == a.should_quit
            &&& b.login_field == a.login_field
            &&& a.login_field == 0 ==> b.login_username@ == pop(a.login_username@) && b.login_password
                == a.login_password
            &&& a.login_field != 0 ==> b.login_password@ == pop(a.login_password@) && b.login_username
                == a.login_username
        },
        KeyCode::Esc => b.should_quit && e is Nothing && b.login_username == a.login_username
            && b.login_password == a.login_password && b.login_field == a.login_field,
        _ => b == a && e is Nothing,
    }
}

// ───────────────────────────── dispatch ─────────────────────────────

/// Which global shortcut a key is, if any: 0 Ctrl-c quits, 1 Ctrl-p
/// searches, 2 `?` help, 3 `!` notifications, 4 none.
pub open spec fn global_arm(a: App, k: Key) -> int {
    if k.mods == Mods::Control && is_char(k, 'c') {
        0
    } else if k.mods == Mods::Control && is_char(k, 'p') && a.modal is None {
        1
    } else if k.mods == Mods::Plain && is_char(k, '?') && a.modal is None && a.screen != Screen::Login {
        2
    } else if k.mods == Mods::Plain && is_char(k, '!') && a.modal is None && a.screen != Screen::Login {
        3
    } else {
        4
    }
}

impl App {
    /// One key press: the global shortcuts first, then the open modal, then
    /// the active screen.
    pub fn on_key(&mut self, key: Key) -> (e: Effect)
        requires
            app_wf(*old(self)),
        ensures
            app_wf(*final(self)),
            ({
                let g = global_arm(*old(self), key);
                &&& g == 0 ==> final(self).should_quit && same_except_nav(*old(self), *final(self))
                    && e is Nothing
                &&& g == 1 ==> (final(self).modal matches Some(Modal::Search(st)) && st.query@.len() == 0
                    && st.selected == 0) && same_except_modal(*old(self), *final(self)) && e is Nothing
                &&& g == 2 ==> final(self).modal == Some(Modal::Help) && same_except_modal(
                    *old(self),
                    *final(self),
                ) && e is Nothing
                &&& g == 3 ==> final(self).modal == Some(Modal::Notification) && same_except_modal(
                    *old(self),
                    *final(self),
                ) && e is Nothing
                &&& g == 4 && old(self).modal is None && old(self).screen == Screen::Login ==> login_post(
                    *old(self),
                    *final(self),
                    key,
                    e,
                )
                &&& g == 4 && old(self).modal is None && old(self).screen == Screen::Dashboard
                    ==> dashboard_post(*old(self), *final(self), key, e)
                &&& (g == 4 && old(self).modal is None && old(self).screen is CourseDetail) ==> course_post(
                    *old(self),
                    *final(self),
                    key,
                    old(self).screen->CourseDetail_0,
                    e,
                )
                &&& g == 4 && old(self).modal is Some ==> modal_post(*old(self), *final(self), key, e)
            }),
    {
        if key.mods == Mods::Control && key.code == KeyCode::Char('c') {
            self.should_quit = true;
            return Effect::Nothing;
        }
        if key.mods == Mods::Control && key.code == KeyCode::Char('p') && self.modal.is_none() {
            self.open_search();
            return Effect::Nothing;
        }
        if key.mods == Mods::Plain && key.code == KeyCode::Char('?') && self.modal.is_none() && self.screen
            != Screen::Login {
            self.modal = Some(Modal::Help);
            return Effect::Nothing;
        }
        if key.mods == Mods::Plain && key.code == KeyCode::Char('!') && self.modal.is_none() && self.screen
            != Screen::Login {
            self.modal = Some(Modal::Notification);
            return Effect::Nothing;
        }
        if self.modal.is_some() {
            return self.handle_modal_keys(key);
        }
        match self.screen {
            Screen::Login => self.handle_login_keys(key),
            Screen::Dashboard => self.handle_dashboard_keys(key),
            Screen::CourseDetail(cid) => self.handle_course_keys(key, cid),
        }
    }

    /// What a timer tick asks for: the first dashboard load once a session
    /// exists.
    pub fn on_tick(&self) -> (e: Effect)
        ensures
            (self.screen == Screen::Dashboard && self.courses@.len() == 0 && !self.loading) ==> e is LoadDashboard,
            !(self.screen == Screen::Dashboard && self.courses@.len() == 0 && !self.loading) ==> e is Nothing,
    {
        if self.screen == Screen::Dashboard && self.courses.len() == 0 && !self.loading {
            Effect::LoadDashboard
        } else {
            Effect::Nothing
        }
    }
}

// ───────────────────────────── results of outside work ─────────────────────────────

/// Integer division truncating toward zero, for a positive divisor.
pub open spec fn trunc_div(a: int, b: int) -> int {
    if a >= 0 {
        a / b
    } else {
        -((-a) / b)
    }
}

/// `(later - earlier).num_seconds()`: the whole seconds from `earlier` to
/// `later`, truncated toward zero.
pub open spec fn secs_until(later: Timestamp, earlier: Timestamp) -> int {
    let nanos = (later.secs - earlier.secs) * 1_000_000_000 + (later.nanos - earlier.nanos);
    trunc_div(nanos, 1_000_000_000)
}

/// `(due - now).num_hours()`: whole hours until `due`, truncated toward
/// zero, after truncating the difference to whole seconds toward zero.
pub open spec fn hours_until(due: Timestamp, now: Timestamp) -> int {
    trunc_div(secs_until(due, now), 3600)
}

/// Whole seconds from `earlier` to `later`, as `chrono` counts them.
pub fn whole_secs(later: Timestamp, earlier: Timestamp) -> (r: i64)
    requires
        crate::assignments::ts_valid(later),
        crate::assignments::ts_valid(earlier),
    ensures
        r == secs_until(later, earlier),
{
    let ds: i64 = later.secs - earlier.secs;
    let dn: i64 = (later.nanos as i64) - (earlier.nanos as i64);
    // whole seconds, truncated toward zero
    let secs: i64 = if ds > 0 && dn < 0 {
        ds - 1
    } else if ds < 0 && dn > 0 {
        ds + 1
    } else {
        ds
    };
    proof {
        let nanos = ds * 1_000_000_000 + dn;
        assert(-1_000_000_000 < dn < 1_000_000_000);
        if ds > 0 && dn < 0 {
            assert(nanos >= 0);
            assert(trunc_div(nanos, 1_000_000_000) == ds - 1) by (nonlinear_arith)
                requires
                    nanos == ds * 1_000_000_000 + dn,
                    ds > 0,
                    -1_000_000_000 < dn < 0,
            {
                assert(nanos == (ds - 1) * 1_000_000_000 + (1_000_000_000 + dn));
            }
        } else if ds < 0 && dn > 0 {
            assert(trunc_div(nanos, 1_000_000_000) == ds + 1) by (nonlinear_arith)
                requires
                    nanos == ds * 1_000_000_000 + dn,
                    ds < 0,
                    0 < dn < 1_000_000_000,
            {
                assert(-nanos == (-ds - 1) * 1_000_000_000 + (1_000_000_000 - dn));
            }
        } else if ds >= 0 {
            assert(trunc_div(nanos, 1_000_000_000) == ds) by (nonlinear_arith)
                requires
                    nanos == ds * 1_000_000_000 + dn,
                    ds >= 0,
                    ds == 0 ==> dn >= 0 || dn < 0,
                    ds > 0 ==> dn >= 0,
                    -1_000_000_000 < dn < 1_000_000_000,
            {
                if ds == 0 && dn < 0 {
                    assert(-nanos == -dn);
                }
            }
        } else {
            assert(trunc_div(nanos, 1_000_000_000) == ds) by (nonlinear_arith)
                requires
                    nanos == ds * 1_000_000_000 + dn,
                    ds < 0,
                    dn <= 0,
                    -1_000_000_000 < dn,
            {
                assert(-nanos == (-ds) * 1_000_000_000 + (-dn));
            }
        }
    }
    secs
}

/// `a / b` truncated toward zero, for `b > 0`.
pub fn trunc_div_i64(a: i64, b: i64) -> (r: i64)
    requires
        b > 0,
        a > i64::MIN,
    ensures
        r == trunc_div(a as int, b as int),
{
    if a >= 0 {
        a / b
    } else {
        -((-a) / b)
    }
}

/// Whole hours from `now` until `due`, as `chrono` counts them.
pub fn hours_left(due: Timestamp, now: Timestamp) -> (r: i64)
    requires
        crate::assignments::ts_valid(due),
        crate::assignments::ts_valid(now),
    ensures
        r == hours_until(due, now),
{
    let secs = whole_secs(due, now);
    if secs >= 0 {
        secs / 3600
    } else {
        -((-secs) / 3600)
    }
}

/// The notifications of a dashboard load: one per deadline due in under 24
/// hours and not submitted, in deadline order.
pub open spec fn due_soon(ds: Seq<Deadline>, now: Timestamp) -> Seq<Deadline>
    decreases ds.len(),
{
    if ds.len() == 0 {
        seq![]
    } else {
        let prev = due_soon(ds.drop_last(), now);
        if hours_until(ds.last().due_at, now) < 24 && !ds.last().submitted {
            prev.push(ds.last())
        } else {
            prev
        }
    }
}

/// The notification of a deadline `h` hours away.
pub open spec fn notification_of(d: Deadline, h: int) -> (i64, Seq<char>, Seq<char>, Option<Seq<char>>, Timestamp) {
    (
        d.assignment_id,
        "Due soon: "@ + d.assignment_name@,
        "Due in "@ + crate::num::dec_int(if h > 0 { h } else { 0 }) + "h"@,
        Some(d.course_name@),
        d.due_at,
    )
}

/// The plain content of a notification.
pub open spec fn notification_view(n: NotificationItem) -> (i64, Seq<char>, Seq<char>, Option<Seq<char>>, Timestamp) {
    (n.id, n.title@, n.body@, ostr(n.course_name), n.timestamp)
}

/// The deadlines are all well inside chrono's range.
pub open spec fn deadlines_valid(ds: Seq<Deadline>) -> bool {
    forall|i: int| 0 <= i < ds.len() ==> crate::assignments::ts_valid(#[trigger] ds[i].due_at)
}

/// The notifications for the deadlines due soon: unread, of kind
/// `Assignment`.
pub fn notifications_for(deadlines: &Vec<Deadline>, now: Timestamp) -> (r: Vec<NotificationItem>)
    requires
        deadlines_valid(deadlines@),
        crate::assignments::ts_valid(now),
    ensures
        r@.len() == due_soon(deadlines@, now).len(),
        forall|i: int|
            0 <= i < r@.len() ==> notification_view(#[trigger] r@[i]) == notification_of(
                due_soon(deadlines@, now)[i],
                hours_until(due_soon(deadlines@, now)[i].due_at, now),
            ) && !r@[i].read && r@[i].notification_type == crate::tui::NotificationType::Assignment,
{
    let mut out: Vec<NotificationItem> = Vec::new();
    let mut i: usize = 0;
    while i < deadlines.len()
        invariant
            i <= deadlines.len(),
            deadlines_valid(deadlines@),
            crate::assignments::ts_valid(now),
            out@.len() == due_soon(deadlines@.take(i as int), now).len(),
            forall|k: int|
                0 <= k < out@.len() ==> notification_view(#[trigger] out@[k]) == notification_of(
                    due_soon(deadlines@.take(i as int), now)[k],
                    hours_until(due_soon(deadlines@.take(i as int), now)[k].due_at, now),
                ) && !out@[k].read && out@[k].notification_type
                    == crate::tui::NotificationType::Assignment,
        decreases deadlines.len() - i,
    {
        let d = &deadlines[i];
        let h = hours_left(d.due_at, now);
        proof {
            assert(deadlines@.take(i + 1).drop_last() =~= deadlines@.take(i as int));
            assert(deadlines@.take(i + 1).last() == deadlines@[i as int]);
        }
        if h < 24 && !d.submitted {
            let mut title = crate::strs::owned("Due soon: ");
            crate::strs::push_str(&mut title, d.assignment_name.as_str());
            let mut body = crate::strs::owned("Due in ");
            crate::num::push_dec_i64(&mut body, if h > 0 {
                h
            } else {
                0
            });
            crate::strs::push_str(&mut body, "h");
            let ghost before = out@;
            out.push(
                NotificationItem {
                    id: d.assignment_id,
                    title,
                    body,
                    course_name: Some(d.course_name.clone()),
                    timestamp: d.due_at,
                    read: false,
                    notification_type: crate::tui::NotificationType::Assignment,
                },
            );
            proof {
                assert forall|k: int| 0 <= k < out@.len() - 1 implies out@[k] == before[k] by {}
            }
        }
        i = i + 1;
    }
    assert(deadlines@.take(deadlines.len() as int) =~= deadlines@);
    out
}

/// The number of unread notifications.
pub open spec fn unread(ns: Seq<NotificationItem>) -> nat
    decreases ns.len(),
{
    if ns.len() == 0 {
        0
    } else {
        unread(ns.drop_last()) + if ns.last().read {
            0nat
        } else {
            1nat
        }
    }
}

fn count_unread(ns: &Vec<NotificationItem>) -> (r: usize)
    ensures
        r == unread(ns@),
{
    let mut c: usize = 0;
    let mut i: usize = 0;
    while i < ns.len()
        invariant
            i <= ns.len(),
            c == unread(ns@.take(i as int)),
            c <= i,
        decreases ns.len() - i,
    {
        assert(ns@.take(i + 1).drop_last() =~= ns@.take(i as int));
        if !ns[i].read {
            c = c + 1;
        }
        i = i + 1;
    }
    assert(ns@.take(ns.len() as int) =~= ns@);
    c
}

/// How logging in ended.
#[derive(Debug, Clone)]
pub enum LoginOutcome {
    /// Logged in and the session was saved; the credentials file could not
    /// be written when a message is given.
    Saved(Option<String>),
    /// Logged in, but saving the session failed.
    SaveFailed(String),
    /// The login itself failed.
    Failed(String),
}

/// How a load of the dashboard's courses and deadlines ended.
#[derive(Debug)]
pub struct DashboardData {
    pub courses: Result<Vec<CourseEntry>, String>,
    pub deadlines: Result<Vec<Deadline>, String>,
}

impl App {
    /// Record how logging in ended: on success the dashboard opens.
    pub fn login_finished(&mut self, outcome: LoginOutcome)
        ensures
            match outcome {
                LoginOutcome::Saved(_) => {
                    &&& final(self).screen == Screen::Dashboard
                    &&& final(self).has_session
                    &&& !final(self).login_loading
                    &&& final(self).status_message matches Some(m) && m@ == "Login successful!"@
                },
                LoginOutcome::SaveFailed(e) => {
                    &&& final(self).screen == old(self).screen
                    &&& final(self).has_session == old(self).has_session
                    &&& !final(self).login_loading
                    &&& final(self).login_error matches Some(m) && m@ == "Failed to save session: "@ + e@
                },
                LoginOutcome::Failed(e) => {
                    &&& final(self).screen == old(self).screen
                    &&& final(self).has_session == old(self).has_session
                    &&& !final(self).login_loading
                    &&& final(self).login_error matches Some(m) && m@ == "Login failed: "@ + e@
                    &&& final(self).status_message is None
                },
            },
            final(self).course_views == old(self).course_views,
            final(self).login_field == old(self).login_field,
            final(self).modal == old(self).modal,
    {
        match outcome {
            LoginOutcome::Saved(_warning) => {
                self.has_session = true;
                self.screen = Screen::Dashboard;
                self.login_loading = false;
                self.status_message = Some(crate::strs::owned("Login successful!"));
            },
            LoginOutcome::SaveFailed(e) => {
                let mut m = crate::strs::owned("Failed to save session: ");
                crate::strs::push_str(&mut m, e.as_str());
                self.login_error = Some(m);
                self.login_loading = false;
            },
            LoginOutcome::Failed(e) => {
                let mut m = crate::strs::owned("Login failed: ");
                crate::strs::push_str(&mut m, e.as_str());
                self.login_error = Some(m);
                self.login_loading = false;
                self.status_message = None;
            },
        }
    }

    /// Record a dashboard load at `now` (only with a session): the courses
    /// and deadlines, the notifications of deadlines due within a day, and
    /// the status line.
    pub fn dashboard_loaded(&mut self, data: DashboardData, now: Timestamp)
        requires
            crate::assignments::ts_valid(now),
            data.deadlines matches Ok(ds) ==> deadlines_valid(ds@),
            data.deadlines is Err ==> deadlines_valid(old(self).deadlines@),
        ensures
            !old(self).has_session ==> *final(self) == *old(self),
            old(self).has_session && data.courses is Err ==> {
                &&& final(self).courses == old(self).courses
                &&& !final(self).loading
                &&& final(self).status_message matches Some(m) && m@ == "Error: "@ + data.courses->Err_0@
            },
            old(self).has_session && data.courses is Ok ==> {
                &&& final(self).courses == data.courses->Ok_0
                &&& final(self).deadlines == match data.deadlines {
                    Ok(ds) => ds,
                    Err(_) => old(self).deadlines,
                }
                &&& final(self).notifications@.len() == due_soon(final(self).deadlines@, now).len()
                &&& forall|i: int|
                    0 <= i < final(self).notifications@.len() ==> notification_view(
                        #[trigger] final(self).notifications@[i],
                    ) == notification_of(
                        due_soon(final(self).deadlines@, now)[i],
                        hours_until(due_soon(final(self).deadlines@, now)[i].due_at, now),
                    )
                &&& final(self).unread_count == unread(final(self).notifications@)
                &&& final(self).last_sync == Some(now)
                &&& !final(self).loading
                &&& final(self).status_message matches Some(m) && m@ == crate::num::dec_nat(
                    final(self).courses@.len() as nat,
                ) + " courses, "@ + crate::num::dec_nat(final(self).deadlines@.len() as nat)
                    + " upcoming deadlines"@
            },
            final(self).course_views == old(self).course_views,
            final(self).login_field == old(self).login_field,
            final(self).screen == old(self).screen,
            final(self).modal == old(self).modal,
    {
        if !self.has_session {
            return;
        }
        match data.courses {
            Err(e) => {
                let mut m = crate::strs::owned("Error: ");
                crate::strs::push_str(&mut m, e.as_str());
                self.status_message = Some(m);
                self.loading = false;
                return;
            },
            Ok(cs) => {
                self.courses = cs;
            },
        }
        match data.deadlines {
            Ok(ds) => {
                self.deadlines = ds;
            },
            Err(_e) => {},
        }
        let ns = notifications_for(&self.deadlines, now);
        self.unread_count = count_unread(&ns);
        self.notifications = ns;
        self.last_sync = Some(now);
        self.loading = false;
        let mut m = String::new();
        crate::num::push_dec_u64(&mut m, self.courses.len() as u64);
        crate::strs::push_str(&mut m, " courses, ");
        crate::num::push_dec_u64(&mut m, self.deadlines.len() as u64);
        crate::strs::push_str(&mut m, " upcoming deadlines");
        proof {
            reveal_strlit("");
            assert(Seq::<char>::empty() + crate::num::dec_nat(self.courses@.len() as nat) =~= crate::num::dec_nat(
                self.courses@.len() as nat,
            ));
        }
        self.status_message = Some(m);
    }
}

/// The tabs of a course as loaded; a tab whose request failed is `None`.
#[derive(Debug, Clone)]
pub struct CourseData {
    pub assignments: Option<Vec<ListItem>>,
    pub announcements: Option<Vec<ListItem>>,
    pub discussions: Option<Vec<ListItem>>,
    pub files: Option<Vec<ListItem>>,
    pub folders: Option<Vec<ListItem>>,
    pub modules: Option<Vec<ListItem>>,
    pub pages: Option<Vec<ListItem>>,
    pub quizzes: Option<Vec<ListItem>>,
}

/// A loaded list, empty when its request failed.
pub open spec fn rows_or_empty(o: Option<Vec<ListItem>>) -> Seq<ListItem> {
    match o {
        Some(v) => v@,
        None => seq![],
    }
}

fn or_empty_rows(o: Option<Vec<ListItem>>) -> (r: Vec<ListItem>)
    ensures
        r@ == rows_or_empty(o),
{
    match o {
        Some(v) => v,
        None => Vec::new(),
    }
}

/// How a download to the downloads directory ended.
#[derive(Debug, Clone)]
pub enum DownloadOutcome {
    /// Written to this path.
    Written(String),
    /// The bytes arrived but could not be written.
    WriteFailed(String),
    /// The request or the body failed.
    Failed(String),
}

/// The status line after a download ended.
pub open spec fn download_status(o: DownloadOutcome) -> Seq<char> {
    match o {
        DownloadOutcome::Written(p) => "Downloaded: "@ + p@,
        DownloadOutcome::WriteFailed(e) => "Write failed: "@ + e@,
        DownloadOutcome::Failed(e) => "Download failed: "@ + e@,
    }
}

impl App {
    /// Record the loaded tabs of course `cid` (only with a session); the
    /// view stops loading.
    pub fn course_loaded(&mut self, cid: i64, data: CourseData, now: Timestamp)
        requires
            views_wf(old(self).course_views@),
            rows_or_empty(data.files).len() + rows_or_empty(data.folders).len() <= usize::MAX,
        ensures
            views_wf(final(self).course_views@),
            !old(self).has_session ==> *final(self) == *old(self),
            old(self).has_session ==> final(self).last_sync == Some(now),
            old(self).has_session && view_index(old(self).course_views@, cid) >= 0 ==> {
                let vi = view_index(old(self).course_views@, cid);
                let v = old(self).course_views@[vi];
                let w = final(self).course_views@[vi];
                &&& final(self).course_views@.len() == old(self).course_views@.len()
                &&& forall|j: int|
                    0 <= j < old(self).course_views@.len() && j != vi ==> final(self).course_views@[j]
                        == old(self).course_views@[j]
                &&& w.assignments@ == rows_or_empty(data.assignments)
                &&& w.announcements@ == rows_or_empty(data.announcements)
                &&& w.discussions@ == rows_or_empty(data.discussions)
                &&& w.files@ == rows_or_empty(data.files)
                &&& w.folders@ == rows_or_empty(data.folders)
                &&& w.modules@ == rows_or_empty(data.modules)
                &&& w.pages@ == rows_or_empty(data.pages)
                &&& w.quizzes@ == rows_or_empty(data.quizzes)
                &&& !w.loading
                &&& w.active_tab == v.active_tab
                &&& w.tab_selected == v.tab_selected
                &&& w.folder_path == v.folder_path
                &&& w.current_folder_id == v.current_folder_id
            },
            old(self).has_session && view_index(old(self).course_views@, cid) < 0 ==> final(self).course_views
                == old(self).course_views,
            final(self).screen == old(self).screen,
            final(self).modal == old(self).modal,
            final(self).login_field == old(self).login_field,
    {
        if !self.has_session {
            return;
        }
        proof {
            lemma_view_index(self.course_views@, cid);
        }
        match self.find_view(cid) {
            None => {},
            Some(vi) => {
                let ghost before = self.course_views@;
                let files = or_empty_rows(data.files);
                let folders = or_empty_rows(data.folders);
                self.course_views[vi].assignments = or_empty_rows(data.assignments);
                self.course_views[vi].announcements = or_empty_rows(data.announcements);
                self.course_views[vi].discussions = or_empty_rows(data.discussions);
                self.course_views[vi].files = files;
                self.course_views[vi].folders = folders;
                self.course_views[vi].modules = or_empty_rows(data.modules);
                self.course_views[vi].pages = or_empty_rows(data.pages);
                self.course_views[vi].quizzes = or_empty_rows(data.quizzes);
                self.course_views[vi].loading = false;
                proof {
                    assert forall|j: int| 0 <= j < self.course_views@.len() implies (#[trigger]
                    self.course_views@[j]).wf() && self.course_views@[j].files@.len()
                        + self.course_views@[j].folders@.len() <= usize::MAX by {
                        if j != vi {
                            assert(self.course_views@[j] == before[j]);
                        }
                    }
                }
            },
        }
        self.last_sync = Some(now);
    }

    /// Record the loaded contents of the folder shown for course `cid`.
    pub fn folder_loaded(&mut self, cid: i64, files: Option<Vec<ListItem>>, folders: Option<Vec<ListItem>>)
        requires
            views_wf(old(self).course_views@),
            rows_or_empty(files).len() + rows_or_empty(folders).len() <= usize::MAX,
        ensures
            views_wf(final(self).course_views@),
            view_index(old(self).course_views@, cid) < 0 ==> *final(self) == *old(self),
            view_index(old(self).course_views@, cid) >= 0 ==> {
                let vi = view_index(old(self).course_views@, cid);
                let v = old(self).course_views@[vi];
                let w = final(self).course_views@[vi];
                &&& only_view_changed(*old(self), *final(self), vi)
                &&& w.files@ == rows_or_empty(files)
                &&& w.folders@ == rows_or_empty(folders)
                &&& w.active_tab == v.active_tab
                &&& w.tab_selected == v.tab_selected
                &&& w.folder_path == v.folder_path
                &&& w.current_folder_id == v.current_folder_id
            },
    {
        proof {
            lemma_view_index(self.course_views@, cid);
        }
        match self.find_view(cid) {
            None => {},
            Some(vi) => {
                let ghost before = self.course_views@;
                self.course_views[vi].files = or_empty_rows(files);
                self.course_views[vi].folders = or_empty_rows(folders);
                proof {
                    assert forall|j: int| 0 <= j < self.course_views@.len() implies (#[trigger]
                    self.course_views@[j]).wf() && self.course_views@[j].files@.len()
                        + self.course_views@[j].folders@.len() <= usize::MAX by {
                        if j != vi {
                            assert(self.course_views@[j] == before[j]);
                        }
                    }
                }
            },
        }
    }

    /// The status line while a download runs.
    pub fn download_started(&mut self, filename: &str)
        ensures
            final(self).status_message matches Some(m) && m@ == "Downloading "@ + filename@ + "..."@,
            final(self).course_views == old(self).course_views,
            final(self).screen == old(self).screen,
            final(self).modal == old(self).modal,
            final(self).login_field == old(self).login_field,
    {
        let mut m = crate::strs::owned("Downloading ");
        crate::strs::push_str(&mut m, filename);
        crate::strs::push_str(&mut m, "...");
        self.status_message = Some(m);
    }

    /// The status line once a download ended.
    pub fn download_finished(&mut self, outcome: DownloadOutcome)
        ensures
            final(self).status_message matches Some(m) && m@ == download_status(outcome),
            final(self).course_views == old(self).course_views,
            final(self).screen == old(self).screen,
            final(self).modal == old(self).modal,
            final(self).login_field == old(self).login_field,
    {
        let m = match outcome {
            DownloadOutcome::Written(p) => {
                let mut m = crate::strs::owned("Downloaded: ");
                crate::strs::push_str(&mut m, p.as_str());
                m
            },
            DownloadOutcome::WriteFailed(e) => {
                let mut m = crate::strs::owned("Write failed: ");
                crate::strs::push_str(&mut m, e.as_str());
                m
            },
            DownloadOutcome::Failed(e) => {
                let mut m = crate::strs::owned("Download failed: ");
                crate::strs::push_str(&mut m, e.as_str());
                m
            },
        };
        self.status_message = Some(m);
    }
}

/// Going to a course and back returns to the screen we came from, with the
/// history as it was.
pub proof fn law_navigate_then_back(history: Seq<Screen>, screen: Screen, course_id: i64)
    ensures
        history.push(screen).last() == screen,
        history.push(screen).drop_last() == history,
{
    assert(history.push(screen).drop_last() =~= history);
}

/// After opening a course it is the most recent one, and the recent list
/// never exceeds its limit nor repeats a course.
pub proof fn law_recent_courses(recent: Seq<i64>, id: i64)
    requires
        no_repeats(recent),
    ensures
        recent_after(recent, id)[0] == id,
        recent_after(recent, id).len() <= RECENT_LIMIT,
        no_repeats(recent_after(recent, id)),
{
    let rest = without(recent, id);
    let all = seq![id] + rest;
    lemma_filter_no_repeats(recent, id);
    assert forall|i: int, j: int| 0 <= i < j < all.len() implies all[i] != all[j] by {
        if i == 0 {
            assert(all[j] == rest[j - 1]);
        } else {
            assert(all[i] == rest[i - 1]);
            assert(all[j] == rest[j - 1]);
        }
    }
    let r = recent_after(recent, id);
    assert forall|i: int, j: int| 0 <= i < j < r.len() implies r[i] != r[j] by {
        assert(r[i] == all[i] && r[j] == all[j]);
    }
}

proof fn lemma_without_push(s: Seq<i64>, id: i64, x: i64)
    ensures
        without(s.push(x), id) == if x != id {
            without(s, id).push(x)
        } else {
            without(s, id)
        },
{
    reveal(Seq::filter);
    assert(s.push(x).drop_last() =~= s);
}

proof fn lemma_filter_no_repeats(s: Seq<i64>, id: i64)
    requires
        no_repeats(s),
    ensures
        no_repeats(without(s, id)),
        forall|k: int| 0 <= k < without(s, id).len() ==> (#[trigger] without(s, id)[k]) != id,
        forall|k: int|
            0 <= k < without(s, id).len() ==> s.contains(#[trigger] without(s, id)[k]),
    decreases s.len(),
{
    if s.len() > 0 {
        let p = s.drop_last();
        assert(s == p.push(s.last()));
        assert forall|i: int, j: int| 0 <= i < j < p.len() implies p[i] != p[j] by {
            assert(p[i] == s[i] && p[j] == s[j]);
        }
        lemma_filter_no_repeats(p, id);
        lemma_without_push(p, id, s.last());
        let pf = without(p, id);
        let f = without(s, id);
        assert forall|k: int| 0 <= k < pf.len() implies s.contains(#[trigger] pf[k]) by {
            let w = choose|w: int| 0 <= w < p.len() && p[w] == pf[k];
            assert(s[w] == p[w]);
        }
        if s.last() != id {
            assert forall|k: int| 0 <= k < pf.len() implies pf[k] != s.last() by {
                let w = choose|w: int| 0 <= w < p.len() && p[w] == pf[k];
                assert(s[w] == p[w]);
            }
            assert forall|i: int, j: int| 0 <= i < j < f.len() implies f[i] != f[j] by {
                if j == f.len() - 1 {
                    assert(f[i] == pf[i]);
                } else {
                    assert(f[i] == pf[i] && f[j] == pf[j]);
                }
            }
            assert forall|k: int| 0 <= k < f.len() implies s.contains(#[trigger] f[k]) by {
                if k < pf.len() {
                    assert(f[k] == pf[k]);
                } else {
                    assert(s[s.len() - 1] == f[k]);
                }
            }
        }
    } else {
        assert(without(s, id) =~= seq![]) by {
            reveal(Seq::filter);
        }
    }
}

} // verus!
