//! The command line of `cool`, as plain data: what each subcommand carries
//! once its arguments have been parsed.

use vstd::prelude::*;

verus! {

/// Flags shared by every subcommand.
#[derive(Debug, Clone, Copy, PartialEq, Eq, Structural)]
pub struct GlobalOpts {
    /// Output JSON instead of a table.
    pub json: bool,
    /// Verbose debug output.
    pub verbose: bool,
}

/// The whole command line.
#[derive(Debug, Clone)]
pub struct Cli {
    pub global: GlobalOpts,
    pub command: Commands,
}

/// Top-level subcommands.
#[derive(Debug, Clone)]
pub enum Commands {
    /// Log in to NTU COOL.
    Login,
    /// Remove the saved session (and optionally the credentials).
    Logout(LogoutArgs),
    /// Show the current user.
    Whoami,
    /// Course operations.
    Course(CourseCommand),
    /// Assignment operations.
    Assignment(AssignmentArgs),
    /// File operations.
    File(FileCommand),
    /// Announcement operations.
    Announcement(AnnouncementCommand),
    /// Discussion operations.
    Discussion(DiscussionCommand),
    /// Module operations.
    Module(ModuleCommand),
}

/// `cool logout`.
#[derive(Debug, Clone, Copy, PartialEq, Eq, Structural)]
pub struct LogoutArgs {
    /// Also delete the saved credentials, not only the session cookies.
    pub purge: bool,
}

// ───────────────────────────── courses ─────────────────────────────

/// `cool course ...`.
#[derive(Debug, Clone)]
pub enum CourseCommand {
    /// List enrolled courses.
    List(CourseListArgs),
    /// Show one course.
    Info { id: String },
}

/// `cool course list`.
#[derive(Debug, Clone)]
pub struct CourseListArgs {
    /// Courses from all semesters, not only active ones.
    pub all: bool,
    /// Only courses of this term (e.g. "1131").
    pub semester: Option<String>,
}

// ───────────────────────────── assignments ─────────────────────────────

/// `cool assignment [...]`; without a subcommand the interactive browser opens.
#[derive(Debug, Clone)]
pub struct AssignmentArgs {
    pub command: Option<AssignmentCommand>,
}

/// `cool assignment ...`.
#[derive(Debug, Clone)]
pub enum AssignmentCommand {
    /// List assignments of a course.
    List(AssignmentListArgs),
    /// Show one assignment.
    Info(AssignmentInfoArgs),
    /// Submit files or text for an assignment.
    Submit(AssignmentSubmitArgs),
}

/// `cool assignment list`.
#[derive(Debug, Clone)]
pub struct AssignmentListArgs {
    /// Course id or name.
    pub course: String,
    /// Canvas bucket: upcoming|past|overdue|undated|ungraded|unsubmitted|future.
    pub bucket: Option<String>,
}

/// `cool assignment info`.
#[derive(Debug, Clone)]
pub struct AssignmentInfoArgs {
    /// Assignment id.
    pub id: String,
    /// Course id or name.
    pub course: String,
}

/// `cool assignment submit`.
#[derive(Debug, Clone)]
pub struct AssignmentSubmitArgs {
    /// Local files to upload; empty when `text` is given.
    pub files: Vec<String>,
    /// Course id or name.
    pub course: String,
    /// Assignment id.
    pub assignment: String,
    /// A text body instead of files.
    pub text: Option<String>,
    /// Optional comment for the grader.
    pub comment: Option<String>,
    /// Acknowledge soft risks and skip the confirmation prompt.
    pub i_understand: bool,
}

// ───────────────────────────── files ─────────────────────────────

/// `cool file ...`.
#[derive(Debug, Clone)]
pub enum FileCommand {
    /// List files in a course folder.
    Ls(FileLsArgs),
    /// Download a file.
    Download(FileDownloadArgs),
    /// Upload a file.
    Upload(FileUploadArgs),
}

/// `cool file ls`.
#[derive(Debug, Clone)]
pub struct FileLsArgs {
    /// Path within the course (default: root).
    pub path: Option<String>,
    /// Course id or name.
    pub course: String,
}

/// `cool file download`.
#[derive(Debug, Clone)]
pub struct FileDownloadArgs {
    /// File id, display name or filename.
    pub target: String,
    /// Course id or name.
    pub course: String,
    /// Output file path.
    pub output: Option<String>,
}

/// `cool file upload`.
#[derive(Debug, Clone)]
pub struct FileUploadArgs {
    /// Local file path.
    pub path: String,
    /// Course id or name.
    pub course: String,
    /// Remote destination folder path.
    pub to: Option<String>,
}

// ───────────────────────────── announcements, discussions ─────────────────────────────

/// `cool announcement ...`.
#[derive(Debug, Clone)]
pub enum AnnouncementCommand {
    /// List announcements of a course.
    List(AnnouncementListArgs),
    /// Show one announcement.
    Show(AnnouncementShowArgs),
}

/// `cool announcement list`.
#[derive(Debug, Clone)]
pub struct AnnouncementListArgs {
    /// Course id or name.
    pub course: String,
}

/// `cool announcement show`.
#[derive(Debug, Clone)]
pub struct AnnouncementShowArgs {
    /// Announcement (discussion topic) id.
    pub id: String,
    /// Course id or name.
    pub course: String,
}

/// `cool discussion ...`.
#[derive(Debug, Clone)]
pub enum DiscussionCommand {
    /// List discussion topics of a course.
    List(DiscussionListArgs),
    /// Show one discussion topic.
    Show(DiscussionShowArgs),
}

/// `cool discussion list`.
#[derive(Debug, Clone)]
pub struct DiscussionListArgs {
    /// Course id or name.
    pub course: String,
}

/// `cool discussion show`.
#[derive(Debug, Clone)]
pub struct DiscussionShowArgs {
    /// Discussion topic id.
    pub id: String,
    /// Course id or name.
    pub course: String,
}

// ───────────────────────────── modules ─────────────────────────────

/// `cool module ...`.
#[derive(Debug, Clone)]
pub enum ModuleCommand {
    /// List modules of a course.
    List(ModuleListArgs),
    /// Show one module's items.
    Show(ModuleShowArgs),
    /// Download every module file into a folder per module.
    Download(ModuleDownloadArgs),
}

/// `cool module list`.
#[derive(Debug, Clone)]
pub struct ModuleListArgs {
    /// Course id or name.
    pub course: String,
}

/// `cool module show`.
#[derive(Debug, Clone)]
pub struct ModuleShowArgs {
    /// Module id.
    pub id: String,
    /// Course id or name.
    pub course: String,
}

/// `cool module download`.
#[derive(Debug, Clone)]
pub struct ModuleDownloadArgs {
    /// Course id or name.
    pub course: String,
    /// Output directory (defaults to the course id).
    pub output: Option<String>,
    /// Overwrite files that already exist locally.
    pub overwrite: bool,
    /// Maximum concurrent downloads (4 by default).
    pub concurrency: usize,
}

impl ModuleDownloadArgs {
    /// The number of downloads run at once: the requested number, at least one.
    pub fn effective_concurrency(&self) -> (n: usize)
        ensures
            n == if self.concurrency == 0 { 1 } else { self.concurrency },
    {
        if self.concurrency == 0 {
            1
        } else {
            self.concurrency
        }
    }
}

// ───────────────────────────── submissions, users, grades ─────────────────────────────

/// `cool submission ...`.
#[derive(Debug, Clone)]
pub enum SubmissionCommand {
    /// List my own submissions, in one course or in every active one.
    Mine(SubmissionMineArgs),
}

/// `cool submission mine`.
#[derive(Debug, Clone)]
pub struct SubmissionMineArgs {
    /// Course filter; omit to go over every active enrolment.
    pub course: Option<i64>,
    /// workflow_state filter: submitted / unsubmitted / graded / pending_review.
    pub status: Option<String>,
}

/// `cool user ...`.
#[derive(Debug, Clone)]
pub enum UserCommand {
    /// Look up a user by id.
    Get(UserGetArgs),
}

/// `cool user get`.
#[derive(Debug, Clone, Copy, PartialEq, Eq, Structural)]
pub struct UserGetArgs {
    /// Canvas user id.
    pub user_id: i64,
}

/// `cool grade`.
#[derive(Debug, Clone, Copy, PartialEq, Eq, Structural)]
pub struct GradeArgs {
    /// Course filter; omit to list every active course's grade.
    pub course: Option<i64>,
}

} // verus!
