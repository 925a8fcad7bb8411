//! The state of the full-screen TUI: screens, tabs, modals, the per-course
//! view and the urgency of deadlines.

use vstd::prelude::*;

use crate::assignments::Timestamp;

verus! {

/// Which top-level screen is active.
#[derive(Debug, Clone, Copy, PartialEq, Eq, Structural)]
pub enum Screen {
    Login,
    Dashboard,
    /// The detail view of the course with this id.
    CourseDetail(i64),
}

/// Focus within the dashboard.
#[derive(Debug, Clone, Copy, PartialEq, Eq, Structural)]
pub enum DashboardFocus {
    Courses,
    Deadlines,
}

/// Tabs within a course detail view.
#[derive(Debug, Clone, Copy, PartialEq, Eq, Structural)]
pub enum CourseTab {
    Assignments,
    Announcements,
    Discussions,
    Files,
    Modules,
    Pages,
    Quizzes,
    Grades,
}

/// Position of a tab in the tab bar, from 0.
pub open spec fn tab_index(t: CourseTab) -> int {
    match t {
        CourseTab::Assignments => 0,
        CourseTab::Announcements => 1,
        CourseTab::Discussions => 2,
        CourseTab::Files => 3,
        CourseTab::Modules => 4,
        CourseTab::Pages => 5,
        CourseTab::Quizzes => 6,
        CourseTab::Grades => 7,
    }
}

/// The tab at a position of the tab bar (positions taken modulo 8).
pub open spec fn tab_at(i: int) -> CourseTab {
    let k = i % 8;
    if k == 0 {
        CourseTab::Assignments
    } else if k == 1 {
        CourseTab::Announcements
    } else if k == 2 {
        CourseTab::Discussions
    } else if k == 3 {
        CourseTab::Files
    } else if k == 4 {
        CourseTab::Modules
    } else if k == 5 {
        CourseTab::Pages
    } else if k == 6 {
        CourseTab::Quizzes
    } else {
        CourseTab::Grades
    }
}

/// The tab bar, in order.
pub open spec fn all_tabs() -> Seq<CourseTab> {
    seq![
        CourseTab::Assignments,
        CourseTab::Announcements,
        CourseTab::Discussions,
        CourseTab::Files,
        CourseTab::Modules,
        CourseTab::Pages,
        CourseTab::Quizzes,
        CourseTab::Grades,
    ]
}

/// The tab label shown in the tab bar.
pub open spec fn tab_label(t: CourseTab) -> Seq<char> {
    match t {
        CourseTab::Assignments => "Assignments"@,
        CourseTab::Announcements => "Announcements"@,
        CourseTab::Discussions => "Discussions"@,
        CourseTab::Files => "Files"@,
        CourseTab::Modules => "Modules"@,
        CourseTab::Pages => "Pages"@,
        CourseTab::Quizzes => "Quizzes"@,
        CourseTab::Grades => "Grades"@,
    }
}

/// The one-letter icon of a tab.
pub open spec fn tab_icon(t: CourseTab) -> Seq<char> {
    match t {
        CourseTab::Assignments => "A"@,
        CourseTab::Announcements => "N"@,
        CourseTab::Discussions => "D"@,
        CourseTab::Files => "F"@,
        CourseTab::Modules => "M"@,
        CourseTab::Pages => "P"@,
        CourseTab::Quizzes => "Q"@,
        CourseTab::Grades => "G"@,
    }
}

/// The shortcut key of a tab.
pub open spec fn tab_shortcut(t: CourseTab) -> char {
    match t {
        CourseTab::Assignments => 'a',
        CourseTab::Announcements => 'n',
        CourseTab::Discussions => 'd',
        CourseTab::Files => 'f',
        CourseTab::Modules => 'm',
        CourseTab::Pages => 'p',
        CourseTab::Quizzes => 'q',
        CourseTab::Grades => 'g',
    }
}

impl CourseTab {
    /// Every tab, in tab-bar order.
    pub fn all() -> (r: Vec<CourseTab>)
        ensures
            r@ == all_tabs(),
    {
        let r = vec![
            CourseTab::Assignments,
            CourseTab::Announcements,
            CourseTab::Discussions,
            CourseTab::Files,
            CourseTab::Modules,
            CourseTab::Pages,
            CourseTab::Quizzes,
            CourseTab::Grades,
        ];
        assert(r@ =~= all_tabs());
        r
    }

    /// The label shown in the tab bar.
    pub fn label(&self) -> (r: &'static str)
        ensures
            r@ == tab_label(*self),
    {
        match self {
            CourseTab::Assignments => "Assignments",
            CourseTab::Announcements => "Announcements",
            CourseTab::Discussions => "Discussions",
            CourseTab::Files => "Files",
            CourseTab::Modules => "Modules",
            CourseTab::Pages => "Pages",
            CourseTab::Quizzes => "Quizzes",
            CourseTab::Grades => "Grades",
        }
    }

    /// The one-letter icon.
    pub fn icon(&self) -> (r: &'static str)
        ensures
            r@ == tab_icon(*self),
    {
        match self {
            CourseTab::Assignments => "A",
            CourseTab::Announcements => "N",
            CourseTab::Discussions => "D",
            CourseTab::Files => "F",
            CourseTab::Modules => "M",
            CourseTab::Pages => "P",
            CourseTab::Quizzes => "Q",
            CourseTab::Grades => "G",
        }
    }

    /// The shortcut key.
    pub fn shortcut(&self) -> (r: char)
        ensures
            r == tab_shortcut(*self),
    {
        match self {
            CourseTab::Assignments => 'a',
            CourseTab::Announcements => 'n',
            CourseTab::Discussions => 'd',
            CourseTab::Files => 'f',
            CourseTab::Modules => 'm',
            CourseTab::Pages => 'p',
            CourseTab::Quizzes => 'q',
            CourseTab::Grades => 'g',
        }
    }

    /// Position in the tab bar, from 0.
    pub fn index(&self) -> (r: usize)
        ensures
            r == tab_index(*self),
    {
        match self {
            CourseTab::Assignments => 0,
            CourseTab::Announcements => 1,
            CourseTab::Discussions => 2,
            CourseTab::Files => 3,
            CourseTab::Modules => 4,
            CourseTab::Pages => 5,
            CourseTab::Quizzes => 6,
            CourseTab::Grades => 7,
        }
    }

    /// The tab at position `i` (taken modulo 8).
    pub fn at(i: usize) -> (r: CourseTab)
        ensures
            r == tab_at(i as int),
    {
        let k = i % 8;
        if k == 0 {
            CourseTab::Assignments
        } else if k == 1 {
            CourseTab::Announcements
        } else if k == 2 {
            CourseTab::Discussions
        } else if k == 3 {
            CourseTab::Files
        } else if k == 4 {
            CourseTab::Modules
        } else if k == 5 {
            CourseTab::Pages
        } else if k == 6 {
            CourseTab::Quizzes
        } else {
            CourseTab::Grades
        }
    }
}

/// The tab bar lists each tab once, at its own position.
pub proof fn law_tab_positions(t: CourseTab)
    ensures
        all_tabs()[tab_index(t)] == t,
        tab_at(tab_index(t)) == t,
        0 <= tab_index(t) < all_tabs().len(),
{
}

// ───────────────────────────── modals ─────────────────────────────

/// One entry of the search palette.
#[derive(Debug, Clone)]
pub struct SearchResult {
    pub label: String,
    /// "Course", "Assignment", ...
    pub category: String,
    pub course_id: Option<i64>,
    pub item_id: Option<i64>,
}

/// The search palette.
#[derive(Debug, Clone)]
pub struct SearchState {
    pub query: String,
    pub cursor: usize,
    pub results: Vec<SearchResult>,
    pub selected: usize,
}

/// The assignment detail modal.
#[derive(Debug, Clone, Copy, PartialEq, Eq, Structural)]
pub struct AssignmentDetailState {
    pub course_id: i64,
    pub assignment_idx: usize,
    pub scroll: u16,
}

/// The announcement / discussion detail modal.
#[derive(Debug, Clone, Copy, PartialEq, Eq, Structural)]
pub struct TopicDetailState {
    pub course_id: i64,
    pub topic_idx: usize,
    pub is_announcement: bool,
    pub scroll: u16,
}

/// The file preview modal.
#[derive(Debug, Clone, Copy, PartialEq, Eq, Structural)]
pub struct FilePreviewState {
    pub course_id: i64,
    pub file_idx: usize,
}

/// What a confirmation does when accepted.
#[derive(Debug, Clone)]
pub enum ConfirmAction {
    /// Download file `id` under `name`.
    Download(i64, String),
    Quit,
}

/// A yes/no confirmation.
#[derive(Debug, Clone)]
pub struct ConfirmState {
    pub message: String,
    pub selected_yes: bool,
    pub action: ConfirmAction,
}

/// An overlay shown on top of the current screen.
#[derive(Debug, Clone)]
pub enum Modal {
    Help,
    Search(SearchState),
    AssignmentDetail(AssignmentDetailState),
    TopicDetail(TopicDetailState),
    FilePreview(FilePreviewState),
    Confirm(ConfirmState),
    Notification,
}

/// The kind of a notification.
#[derive(Debug, Clone, Copy, PartialEq, Eq, Structural)]
pub enum NotificationType {
    Assignment,
    Announcement,
    Discussion,
    Grade,
    System,
}

/// One notification.
#[derive(Debug, Clone)]
pub struct NotificationItem {
    pub id: i64,
    pub title: String,
    pub body: String,
    pub course_name: Option<String>,
    pub timestamp: Timestamp,
    pub read: bool,
    pub notification_type: NotificationType,
}

// ───────────────────────────── course view ─────────────────────────────

/// One row of a course tab: what the key handling reads of an assignment,
/// topic, file, folder, module, page or quiz.
#[derive(Debug, Clone)]
pub struct ListItem {
    pub id: Option<i64>,
    /// Display name (for files: display name, else file name).
    pub name: Option<String>,
    /// Browser URL (`html_url`); for files the download URL; for pages the slug.
    pub url: Option<String>,
}

/// The state of one course's detail view.
#[derive(Debug, Clone)]
pub struct CourseViewState {
    pub course_id: i64,
    pub course_name: String,
    pub active_tab: CourseTab,
    /// Selected row per tab, indexed by tab position; always 8 entries.
    pub tab_selected: Vec<usize>,
    pub assignments: Vec<ListItem>,
    pub announcements: Vec<ListItem>,
    pub discussions: Vec<ListItem>,
    pub files: Vec<ListItem>,
    pub folders: Vec<ListItem>,
    pub current_folder_id: Option<i64>,
    /// Breadcrumb of the folders entered: (folder id, name).
    pub folder_path: Vec<(i64, String)>,
    pub modules: Vec<ListItem>,
    pub pages: Vec<ListItem>,
    pub quizzes: Vec<ListItem>,
    pub loading: bool,
}

impl CourseViewState {
    /// Well-formed: one selection per tab.
    pub open spec fn wf(self) -> bool {
        self.tab_selected@.len() == 8
    }

    /// The selected row of the active tab.
    pub open spec fn spec_selected(self) -> usize {
        self.tab_selected@[tab_index(self.active_tab)]
    }

    /// The number of rows of the active tab (folders come before files).
    pub open spec fn spec_item_count(self) -> int {
        match self.active_tab {
            CourseTab::Assignments => self.assignments@.len() as int,
            CourseTab::Announcements => self.announcements@.len() as int,
            CourseTab::Discussions => self.discussions@.len() as int,
            CourseTab::Files => (self.files@.len() + self.folders@.len()) as int,
            CourseTab::Modules => self.modules@.len() as int,
            CourseTab::Pages => self.pages@.len() as int,
            CourseTab::Quizzes => self.quizzes@.len() as int,
            CourseTab::Grades => 0,
        }
    }

    /// A fresh view: the Assignments tab, every selection at the top,
    /// nothing loaded yet.
    pub fn new(course_id: i64, course_name: String) -> (r: CourseViewState)
        ensures
            r.wf(),
            r.course_id == course_id,
            r.course_name@ == course_name@,
            r.active_tab == CourseTab::Assignments,
            forall|i: int| 0 <= i < 8 ==> r.tab_selected@[i] == 0,
            r.assignments@.len() == 0 && r.announcements@.len() == 0 && r.discussions@.len() == 0,
            r.files@.len() == 0 && r.folders@.len() == 0 && r.modules@.len() == 0,
            r.pages@.len() == 0 && r.quizzes@.len() == 0,
            r.current_folder_id is None,
            r.folder_path@.len() == 0,
            r.loading,
    {
        CourseViewState {
            course_id,
            course_name,
            active_tab: CourseTab::Assignments,
            tab_selected: vec![0, 0, 0, 0, 0, 0, 0, 0],
            assignments: Vec::new(),
            announcements: Vec::new(),
            discussions: Vec::new(),
            files: Vec::new(),
            folders: Vec::new(),
            current_folder_id: None,
            folder_path: Vec::new(),
            modules: Vec::new(),
            pages: Vec::new(),
            quizzes: Vec::new(),
            loading: true,
        }
    }

    /// The selected row of the active tab.
    pub fn selected(&self) -> (r: usize)
        requires
            self.wf(),
        ensures
            r == self.spec_selected(),
    {
        self.tab_selected[self.active_tab.index()]
    }

    /// Select row `idx` of the active tab; the other tabs keep theirs.
    pub fn set_selected(&mut self, idx: usize)
        requires
            old(self).wf(),
        ensures
            final(self).wf(),
            final(self).tab_selected@ == old(self).tab_selected@.update(
                tab_index(old(self).active_tab),
                idx,
            ),
            final(self).active_tab == old(self).active_tab,
            final(self).spec_selected() == idx,
            final(self).course_id == old(self).course_id,
            final(self).course_name == old(self).course_name,
            final(self).assignments == old(self).assignments,
            final(self).announcements == old(self).announcements,
            final(self).discussions == old(self).discussions,
            final(self).files == old(self).files,
            final(self).folders == old(self).folders,
            final(self).current_folder_id == old(self).current_folder_id,
            final(self).folder_path == old(self).folder_path,
            final(self).modules == old(self).modules,
            final(self).pages == old(self).pages,
            final(self).quizzes == old(self).quizzes,
            final(self).loading == old(self).loading,
    {
        let k = self.active_tab.index();
        self.tab_selected.set(k, idx);
    }

    /// The number of rows of the active tab.
    pub fn item_count(&self) -> (r: usize)
        requires
            self.files@.len() + self.folders@.len() <= usize::MAX,
        ensures
            r == self.spec_item_count(),
    {
        match self.active_tab {
            CourseTab::Assignments => self.assignments.len(),
            CourseTab::Announcements => self.announcements.len(),
            CourseTab::Discussions => self.discussions.len(),
            CourseTab::Files => self.files.len() + self.folders.len(),
            CourseTab::Modules => self.modules.len(),
            CourseTab::Pages => self.pages.len(),
            CourseTab::Quizzes => self.quizzes.len(),
            CourseTab::Grades => 0,
        }
    }
}

/// Selecting a row of one tab leaves the selection of every other tab as it
/// was: each tab remembers its own position.
pub proof fn law_selection_per_tab(before: Seq<usize>, active: CourseTab, idx: usize, other: CourseTab)
    requires
        before.len() == 8,
        other != active,
    ensures
        before.update(tab_index(active), idx)[tab_index(other)] == before[tab_index(other)],
        before.update(tab_index(active), idx)[tab_index(active)] == idx,
{
}

// ───────────────────────────── urgency ─────────────────────────────

/// How soon a deadline is.
#[derive(Debug, Clone, Copy, PartialEq, Eq, Structural)]
pub enum Urgency {
    /// Under 24 hours.
    Urgent,
    /// Under 3 days.
    Soon,
    /// 3 days or more.
    Later,
    /// Already past, or no due date.
    NoDue,
}

/// The urgency of a deadline `hours` away.
pub open spec fn urgency_of(hours: i64) -> Urgency {
    if hours < 0 {
        Urgency::NoDue
    } else if hours < 24 {
        Urgency::Urgent
    } else if hours < 72 {
        Urgency::Soon
    } else {
        Urgency::Later
    }
}

/// The two-column marker of an urgency.
pub open spec fn urgency_icon(u: Urgency) -> Seq<char> {
    match u {
        Urgency::Urgent => "!!"@,
        Urgency::Soon => "! "@,
        Urgency::Later => "  "@,
        Urgency::NoDue => "  "@,
    }
}

impl Urgency {
    /// The urgency of a deadline `hours` away: under 24 urgent, under 72
    /// soon, later otherwise; negative hours have none.
    pub fn from_hours(hours: i64) -> (r: Urgency)
        ensures
            r == urgency_of(hours),
    {
        if hours < 0 {
            Urgency::NoDue
        } else if hours < 24 {
            Urgency::Urgent
        } else if hours < 72 {
            Urgency::Soon
        } else {
            Urgency::Later
        }
    }

    /// The two-column marker: `!!`, `! ` or blank.
    pub fn icon(&self) -> (r: &'static str)
        ensures
            r@ == urgency_icon(*self),
    {
        match self {
            Urgency::Urgent => "!!",
            Urgency::Soon => "! ",
            Urgency::Later => "  ",
            Urgency::NoDue => "  ",
        }
    }
}

/// Urgency never decreases as a deadline comes closer (for deadlines not yet
/// past): fewer hours left is at least as urgent.
pub proof fn law_urgency_monotone(a: i64, b: i64)
    requires
        0 <= a <= b,
    ensures
        urgency_of(b) == Urgency::Urgent ==> urgency_of(a) == Urgency::Urgent,
        urgency_of(b) == Urgency::Soon ==> urgency_of(a) != Urgency::Later,
        urgency_of(a) != Urgency::NoDue,
{
}

/// The palette of course colours, as RGB.
pub open spec fn course_palette() -> Seq<(u8, u8, u8)> {
    seq![
        (137u8, 180u8, 250u8),
        (203u8, 166u8, 247u8),
        (148u8, 226u8, 213u8),
        (166u8, 227u8, 161u8),
        (250u8, 179u8, 135u8),
        (245u8, 194u8, 231u8),
        (249u8, 226u8, 175u8),
        (180u8, 190u8, 254u8),
        (242u8, 205u8, 205u8),
        (148u8, 226u8, 213u8),
    ]
}

/// The colour of the course at `index`: the palette, cycled.
pub fn course_color(index: usize) -> (r: (u8, u8, u8))
    ensures
        r == course_palette()[(index % 10) as int],
{
    let k = index % 10;
    if k == 0 {
        (137, 180, 250)
    } else if k == 1 {
        (203, 166, 247)
    } else if k == 2 {
        (148, 226, 213)
    } else if k == 3 {
        (166, 227, 161)
    } else if k == 4 {
        (250, 179, 135)
    } else if k == 5 {
        (245, 194, 231)
    } else if k == 6 {
        (249, 226, 175)
    } else if k == 7 {
        (180, 190, 254)
    } else if k == 8 {
        (242, 205, 205)
    } else {
        (148, 226, 213)
    }
}

} // verus!
