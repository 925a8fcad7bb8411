//! Contract types: the trimmed, frontend-facing shape of every tool's I/O.

use vstd::prelude::*;

verus! {

// ───────────────────────────── submission (write path) ─────────────────────────────

/// Severity of a pre-submit risk. `Hard` risks abort the submission outright;
/// `Soft` risks proceed only when the caller explicitly acknowledges them.
#[derive(Debug, Clone, Copy, PartialEq, Eq, Structural)]
pub enum RiskSeverity {
    Hard,
    Soft,
}

/// One condition flagged by the pre-submit safety check.
#[derive(Debug, Clone)]
pub struct SubmitRisk {
    /// Stable machine code: `type_mismatch`, `locked`, `not_yet_unlocked`,
    /// `past_lock_date`, `disallowed_extension`, `attempts_exhausted` (all
    /// `Hard`); `past_due`, `overwrites_existing` (`Soft`).
    pub code: String,
    pub severity: RiskSeverity,
    /// Human-readable explanation, safe to show the user verbatim.
    pub message: String,
}

/// The mathematical content of a `SubmitRisk`.
pub struct RiskView {
    pub code: Seq<char>,
    pub severity: RiskSeverity,
    pub message: Seq<char>,
}

impl View for SubmitRisk {
    type V = RiskView;

    open spec fn view(&self) -> RiskView {
        RiskView { code: self.code@, severity: self.severity, message: self.message@ }
    }
}

/// Result of a preflight — what a submission would look like and every
/// risk attached to it, computed without submitting anything.
#[derive(Debug, Clone)]
pub struct SubmitPreflight {
    pub course_id: i64,
    pub assignment_id: i64,
    pub assignment_name: String,
    /// `online_upload` (files) or `online_text_entry` (text).
    pub submission_type: String,
    pub due_at: Option<String>,
    pub lock_at: Option<String>,
    /// Whether the user already has a submission.
    pub has_existing_submission: bool,
    /// Every flagged risk. Empty = clean. Any `Hard` entry means submit refuses.
    pub risks: Vec<SubmitRisk>,
}

/// Receipt for a completed submission, built from the `Submission` object
/// Canvas returns from `POST .../submissions`.
#[derive(Debug, Clone)]
pub struct SubmissionReceipt {
    pub course_id: i64,
    pub assignment_id: i64,
    pub workflow_state: Option<String>,
    pub submission_type: Option<String>,
    pub submitted_at: Option<String>,
    pub attempt: Option<i64>,
    pub late: Option<bool>,
    pub preview_url: Option<String>,
}

// ───────────────────────────── Canvas references ─────────────────────────────

/// Canvas-internal link discovered in HTML content.
#[derive(Debug, Clone)]
pub enum CanvasRef {
    File {
        id: i64,
        /// Visible link text (usually the original filename).
        name: String,
        /// Original HTML `href`.
        href: String,
    },
    Page {
        course_id: i64,
        /// Canvas page URL slug (page primary key).
        slug: String,
        name: String,
        href: String,
    },
    Assignment { course_id: i64, id: i64, name: String, href: String },
    DiscussionTopic { course_id: i64, id: i64, name: String, href: String },
    Module { course_id: i64, id: i64, name: String, href: String },
}

/// The mathematical content of a `CanvasRef`.
pub enum RefView {
    File { id: i64, name: Seq<char>, href: Seq<char> },
    Page { course_id: i64, slug: Seq<char>, name: Seq<char>, href: Seq<char> },
    Assignment { course_id: i64, id: i64, name: Seq<char>, href: Seq<char> },
    DiscussionTopic { course_id: i64, id: i64, name: Seq<char>, href: Seq<char> },
    Module { course_id: i64, id: i64, name: Seq<char>, href: Seq<char> },
}

impl View for CanvasRef {
    type V = RefView;

    open spec fn view(&self) -> RefView {
        match self {
            CanvasRef::File { id, name, href } => RefView::File { id: *id, name: name@, href: href@ },
            CanvasRef::Page { course_id, slug, name, href } => RefView::Page {
                course_id: *course_id,
                slug: slug@,
                name: name@,
                href: href@,
            },
            CanvasRef::Assignment { course_id, id, name, href } => RefView::Assignment {
                course_id: *course_id,
                id: *id,
                name: name@,
                href: href@,
            },
            CanvasRef::DiscussionTopic { course_id, id, name, href } => RefView::DiscussionTopic {
                course_id: *course_id,
                id: *id,
                name: name@,
                href: href@,
            },
            CanvasRef::Module { course_id, id, name, href } => RefView::Module {
                course_id: *course_id,
                id: *id,
                name: name@,
                href: href@,
            },
        }
    }
}


// ───────────────────────────── profile, users, courses ─────────────────────────────

/// The logged-in user's own profile.
#[derive(Debug, Clone)]
pub struct ProfileSummary {
    pub id: i64,
    pub name: String,
    pub login_id: Option<String>,
    pub primary_email: Option<String>,
}

/// Public view of any Canvas user. `login_id` and `email` are usually `None`
/// for other users at student privilege level.
#[derive(Debug, Clone)]
pub struct UserSummary {
    pub id: i64,
    pub name: String,
    /// Short display name, for author lines.
    pub short_name: Option<String>,
    /// "last, first" form used for sorting.
    pub sortable_name: Option<String>,
    pub login_id: Option<String>,
    pub email: Option<String>,
    pub avatar_url: Option<String>,
}

/// One enrolled course.
#[derive(Debug, Clone)]
pub struct CourseSummary {
    pub id: i64,
    pub name: String,
    pub course_code: Option<String>,
    /// Human-readable term name when known (e.g. "112-1").
    pub term: Option<String>,
}

/// A course with its windows, syllabus and teachers.
#[derive(Debug, Clone)]
pub struct CourseDetail {
    pub id: i64,
    pub name: String,
    pub course_code: Option<String>,
    pub term: Option<String>,
    pub start_at: Option<String>,
    pub end_at: Option<String>,
    pub term_start_at: Option<String>,
    pub term_end_at: Option<String>,
    /// IANA time zone string (e.g. "Asia/Taipei").
    pub time_zone: Option<String>,
    /// Canvas syllabus body (HTML).
    pub syllabus_html: Option<String>,
    pub teachers: Vec<TeacherSummary>,
    pub default_view: Option<String>,
}

/// A teacher of a course.
#[derive(Debug, Clone)]
pub struct TeacherSummary {
    pub id: i64,
    pub name: String,
}

// ───────────────────────────── files ─────────────────────────────

/// One file in a listing.
#[derive(Debug, Clone)]
pub struct FileSummary {
    pub id: i64,
    pub display_name: String,
    pub size_bytes: i64,
    pub mime_type: Option<String>,
    pub updated_at: Option<String>,
}

/// Full metadata of one file.
#[derive(Debug, Clone)]
pub struct FileMetadata {
    pub id: i64,
    pub display_name: String,
    pub size_bytes: i64,
    pub mime_type: Option<String>,
    pub updated_at: Option<String>,
    /// Canvas-signed, time-limited download URL.
    pub url: Option<String>,
    pub folder_id: Option<i64>,
}

/// The contents of one folder of a course.
#[derive(Debug, Clone)]
pub struct FolderListing {
    pub course_id: i64,
    /// Path the listing represents, "/" for root.
    pub path: String,
    pub folders: Vec<FolderSummary>,
    pub files: Vec<FileSummary>,
}

/// One sub-folder in a listing.
#[derive(Debug, Clone)]
pub struct FolderSummary {
    pub id: i64,
    pub name: String,
    pub files_count: Option<i64>,
}

/// Outcome of a download to the local disk.
#[derive(Debug, Clone)]
pub struct DownloadResult {
    pub file_id: i64,
    pub dest_path: String,
    pub bytes_written: u64,
}

/// A published file: where the client can read its bytes.
#[derive(Debug, Clone)]
pub struct FilesFetchResult {
    pub file_id: i64,
    pub display_name: String,
    pub mime_type: Option<String>,
    pub size_bytes: i64,
    /// `file:///abs/path` in stdio mode, `http(s)://host/files/<token>` in http mode.
    pub uri: String,
    /// RFC 3339 expiry; `None` for `file://` URIs.
    pub expires_at: Option<String>,
}

// ───────────────────────────── announcements, modules, discussions ─────────────────────────────

/// One announcement in a listing.
#[derive(Debug, Clone)]
pub struct AnnouncementSummary {
    pub id: i64,
    pub course_id: i64,
    pub title: String,
    pub posted_at: Option<String>,
    pub author_name: Option<String>,
    pub html_url: Option<String>,
}

/// One announcement with its body.
#[derive(Debug, Clone)]
pub struct AnnouncementDetail {
    pub id: i64,
    pub course_id: i64,
    pub title: String,
    pub body_md: String,
    pub body_html: Option<String>,
    pub posted_at: Option<String>,
    pub author_name: Option<String>,
    pub html_url: Option<String>,
    pub references: Vec<CanvasRef>,
}

/// One module in a listing.
#[derive(Debug, Clone)]
pub struct ModuleSummary {
    pub id: i64,
    pub course_id: i64,
    pub name: String,
    pub position: Option<i64>,
    pub items_count: Option<i64>,
}

/// One module with its items.
#[derive(Debug, Clone)]
pub struct ModuleDetail {
    pub id: i64,
    pub course_id: i64,
    pub name: String,
    pub position: Option<i64>,
    pub items: Vec<ModuleItem>,
}

/// One item of a module.
#[derive(Debug, Clone)]
pub struct ModuleItem {
    pub id: i64,
    pub title: String,
    /// File / Page / Discussion / Assignment / Quiz / ExternalUrl / ExternalTool / SubHeader.
    pub item_type: String,
    /// Resource id for File/Page/etc; `None` for SubHeader and ExternalUrl.
    pub content_id: Option<i64>,
    pub url: Option<String>,
    pub position: Option<i64>,
    pub indent: Option<i64>,
}

/// One discussion topic in a listing.
#[derive(Debug, Clone)]
pub struct DiscussionSummary {
    pub id: i64,
    pub course_id: i64,
    pub title: String,
    pub posted_at: Option<String>,
    pub author_name: Option<String>,
    pub html_url: Option<String>,
}

/// One discussion topic with its body and first-level replies.
#[derive(Debug, Clone)]
pub struct DiscussionDetail {
    pub id: i64,
    pub course_id: i64,
    pub title: String,
    pub message_md: String,
    pub message_html: Option<String>,
    pub posted_at: Option<String>,
    pub author_name: Option<String>,
    pub html_url: Option<String>,
    pub references: Vec<CanvasRef>,
    pub entries: Vec<DiscussionEntry>,
}

/// One reply in a discussion.
#[derive(Debug, Clone)]
pub struct DiscussionEntry {
    pub id: i64,
    pub author_name: Option<String>,
    pub message_md: String,
    pub message_html: Option<String>,
    pub posted_at: Option<String>,
}

// ───────────────────────────── PDF text ─────────────────────────────

/// Text of a PDF, page by page.
#[derive(Debug, Clone)]
pub struct PdfExtractResult {
    pub file_id: i64,
    pub display_name: String,
    /// Total page count of the document, even when only a subset is returned.
    pub page_count: usize,
    /// Per-page text in document order.
    pub pages: Vec<PdfPage>,
    /// True when the extractor returned no text at all.
    pub empty: bool,
}

/// One page of extracted text.
#[derive(Debug, Clone)]
pub struct PdfPage {
    /// 1-indexed page number in the original document.
    pub page_no: usize,
    pub text: String,
}

/// One match of a PDF content search.
#[derive(Debug, Clone)]
pub struct PdfSearchHit {
    pub file_id: i64,
    pub display_name: String,
    /// 1-indexed page where the match occurred.
    pub page: usize,
    /// Single-line excerpt around the match, whitespace collapsed.
    pub snippet: String,
}

// ───────────────────────────── wiki pages ─────────────────────────────

/// One wiki page in a listing.
#[derive(Debug, Clone)]
pub struct PageSummary {
    pub course_id: i64,
    /// URL slug, the page's key within a course.
    pub url: String,
    pub title: String,
    pub updated_at: Option<String>,
}

/// One wiki page with its body.
#[derive(Debug, Clone)]
pub struct PageDetail {
    pub course_id: i64,
    pub url: String,
    pub title: String,
    pub body_md: String,
    pub body_html: Option<String>,
    pub updated_at: Option<String>,
    pub html_url: Option<String>,
    pub references: Vec<CanvasRef>,
}

} // verus!
