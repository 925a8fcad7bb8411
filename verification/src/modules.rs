//! Course modules: the Canvas shape of a module listing, and the planning of
//! `cool module download` — which files go into which folder, and the order
//! in which the downloads are started.

use vstd::prelude::*;

use crate::browser::truncated;
use crate::num::dec_nat;
use crate::strs::spec_trim;

verus! {

// ───────────────────────────── safe path components ─────────────────────────────

/// Characters that cannot stand in a file name on common systems: path
/// separators, `: * ? " < > |` and control characters.
pub open spec fn unsafe_in_path(c: char) -> bool {
    ||| c == '/'
    ||| c == '\\'
    ||| c == ':'
    ||| c == '*'
    ||| c == '?'
    ||| c == '"'
    ||| c == '<'
    ||| c == '>'
    ||| c == '|'
    ||| (c as u32) < 0x20
}

/// A character, with an unsafe one replaced by `_`.
pub open spec fn path_char(c: char) -> char {
    if unsafe_in_path(c) {
        '_'
    } else {
        c
    }
}

/// `s` without its leading dots.
pub open spec fn strip_dots_start(s: Seq<char>) -> Seq<char>
    decreases s.len(),
{
    if s.len() > 0 && s[0] == '.' {
        strip_dots_start(s.drop_first())
    } else {
        s
    }
}

/// `s` without its trailing dots.
pub open spec fn strip_dots_end(s: Seq<char>) -> Seq<char>
    decreases s.len(),
{
    if s.len() > 0 && s.last() == '.' {
        strip_dots_end(s.drop_last())
    } else {
        s
    }
}

/// `name` made into one path component: unsafe characters become `_`, the
/// result is trimmed of whitespace and then of dots at both ends, and an
/// empty result becomes `_`.
pub open spec fn sanitized_component(name: Seq<char>) -> Seq<char> {
    let t = strip_dots_end(
        strip_dots_start(spec_trim(name.map_values(|c: char| path_char(c)))),
    );
    if t.len() == 0 {
        seq!['_']
    } else {
        t
    }
}

/// Whether `c` is unsafe in a path (executable form of `unsafe_in_path`).
fn is_unsafe_in_path(c: char) -> (b: bool)
    ensures
        b == unsafe_in_path(c),
{
    c == '/' || c == '\\' || c == ':' || c == '*' || c == '?' || c == '"' || c == '<' || c == '>'
        || c == '|' || (c as u32) < 0x20
}

/// Sanitize a string so it can safely be used as a single path component.
/// Replaces path separators and other invalid characters with `_`, trims
/// leading/trailing whitespace and dots, and falls back to a placeholder
/// when the result would be empty.
pub fn sanitize_path_component(name: &str) -> (r: String)
    ensures
        r@ == sanitized_component(name@),
{
    let v = crate::strs::chars_of(name);
    let mut mapped: Vec<char> = Vec::new();
    let mut i: usize = 0;
    while i < v.len()
        invariant
            i <= v.len(),
            mapped@ == v@.take(i as int).map_values(|c: char| path_char(c)),
        decreases v.len() - i,
    {
        let c = v[i];
        let d = if is_unsafe_in_path(c) {
            '_'
        } else {
            c
        };
        mapped.push(d);
        assert(v@.take(i + 1).map_values(|c: char| path_char(c)) =~= v@.take(i as int).map_values(
            |c: char| path_char(c),
        ).push(d));
        i = i + 1;
    }
    assert(v@.take(v.len() as int) =~= v@);
    let t = crate::strs::trim_chars(&mapped);
    let n = t.len();
    let mut lo: usize = 0;
    assert(t@.subrange(0, n as int) =~= t@);
    while lo < n && t[lo] == '.'
        invariant
            lo <= n == t.len(),
            strip_dots_start(t@) == strip_dots_start(t@.subrange(lo as int, n as int)),
        decreases n - lo,
    {
        assert(t@.subrange(lo as int, n as int).drop_first() =~= t@.subrange(lo + 1, n as int));
        lo = lo + 1;
    }
    let mut hi: usize = n;
    while hi > lo && t[hi - 1] == '.'
        invariant
            lo <= hi <= n == t.len(),
            strip_dots_start(t@) == t@.subrange(lo as int, n as int),
            strip_dots_end(strip_dots_start(t@)) == strip_dots_end(
                t@.subrange(lo as int, hi as int),
            ),
        decreases hi - lo,
    {
        assert(t@.subrange(lo as int, hi as int).drop_last() =~= t@.subrange(lo as int, hi - 1));
        hi = hi - 1;
    }
    assert(v@ == name@);
    assert(mapped@ == name@.map_values(|c: char| path_char(c)));
    assert(strip_dots_end(t@.subrange(lo as int, hi as int)) == t@.subrange(lo as int, hi as int));
    if lo == hi {
        proof {
            reveal_strlit("_");
        }
        crate::strs::owned("_")
    } else {
        crate::strs::string_of_range(&t, lo, hi)
    }
}

/// `strip_dots_start` keeps a suffix.
proof fn lemma_strip_start_suffix(s: Seq<char>)
    ensures
        strip_dots_start(s).len() <= s.len(),
        strip_dots_start(s) == s.subrange(s.len() - strip_dots_start(s).len(), s.len() as int),
        strip_dots_start(s).len() > 0 ==> strip_dots_start(s)[0] != '.',
    decreases s.len(),
{
    if s.len() > 0 && s[0] == '.' {
        let t = s.drop_first();
        lemma_strip_start_suffix(t);
        let k = strip_dots_start(t).len();
        assert(t.subrange(t.len() - k, t.len() as int) =~= s.subrange(s.len() - k, s.len() as int));
    } else {
        assert(s.subrange(0, s.len() as int) =~= s);
    }
}

/// `strip_dots_end` keeps a prefix.
proof fn lemma_strip_end_prefix(s: Seq<char>)
    ensures
        strip_dots_end(s).len() <= s.len(),
        strip_dots_end(s) == s.subrange(0, strip_dots_end(s).len() as int),
        strip_dots_end(s).len() > 0 ==> strip_dots_end(s).last() != '.',
    decreases s.len(),
{
    if s.len() > 0 && s.last() == '.' {
        let t = s.drop_last();
        lemma_strip_end_prefix(t);
        let k = strip_dots_end(t).len();
        assert(t.subrange(0, k as int) =~= s.subrange(0, k as int));
    } else {
        assert(s.subrange(0, s.len() as int) =~= s);
    }
}

/// `trim_start` keeps a suffix.
proof fn lemma_trim_start_suffix(s: Seq<char>)
    ensures
        crate::strs::trim_start(s).len() <= s.len(),
        crate::strs::trim_start(s) == s.subrange(
            s.len() - crate::strs::trim_start(s).len(),
            s.len() as int,
        ),
    decreases s.len(),
{
    if s.len() > 0 && crate::strs::spec_is_whitespace(s[0]) {
        let t = s.drop_first();
        lemma_trim_start_suffix(t);
        let k = crate::strs::trim_start(t).len();
        assert(t.subrange(t.len() - k, t.len() as int) =~= s.subrange(s.len() - k, s.len() as int));
    } else {
        assert(s.subrange(0, s.len() as int) =~= s);
    }
}

/// `trim_end` keeps a prefix.
proof fn lemma_trim_end_prefix(s: Seq<char>)
    ensures
        crate::strs::trim_end(s).len() <= s.len(),
        crate::strs::trim_end(s) == s.subrange(0, crate::strs::trim_end(s).len() as int),
    decreases s.len(),
{
    if s.len() > 0 && crate::strs::spec_is_whitespace(s.last()) {
        let t = s.drop_last();
        lemma_trim_end_prefix(t);
        let k = crate::strs::trim_end(t).len();
        assert(t.subrange(0, k as int) =~= s.subrange(0, k as int));
    } else {
        assert(s.subrange(0, s.len() as int) =~= s);
    }
}

/// A sanitized name is one safe path component: it is not empty, holds no
/// separator, reserved or control character, and neither starts nor ends
/// with a dot (so it is never `.` or `..`).
pub proof fn law_sanitized_is_one_component(name: Seq<char>)
    ensures
        sanitized_component(name).len() > 0,
        forall|i: int|
            0 <= i < sanitized_component(name).len() ==> !unsafe_in_path(
                #[trigger] sanitized_component(name)[i],
            ),
        forall|i: int|
            0 <= i < sanitized_component(name).len() ==> {
                let c = #[trigger] sanitized_component(name)[i];
                &&& c != '/' && c != '\\' && c != ':' && c != '*' && c != '?' && c != '"'
                &&& c != '<' && c != '>' && c != '|' && c as u32 >= 0x20
            },
        sanitized_component(name)[0] != '.',
        sanitized_component(name).last() != '.',
{
    let m = name.map_values(|c: char| path_char(c));
    assert forall|i: int| 0 <= i < m.len() implies !unsafe_in_path(#[trigger] m[i]) by {
    }
    let a = crate::strs::trim_start(m);
    lemma_trim_start_suffix(m);
    let b = crate::strs::trim_end(a);
    lemma_trim_end_prefix(a);
    assert forall|i: int| 0 <= i < b.len() implies !unsafe_in_path(#[trigger] b[i]) by {
        assert(b[i] == a[i]);
        assert(a[i] == m[m.len() - a.len() + i]);
    }
    let c = strip_dots_start(b);
    lemma_strip_start_suffix(b);
    let d = strip_dots_end(c);
    lemma_strip_end_prefix(c);
    assert forall|i: int| 0 <= i < d.len() implies !unsafe_in_path(#[trigger] d[i]) by {
        assert(d[i] == c[i]);
        assert(c[i] == b[b.len() - c.len() + i]);
    }
    if d.len() > 0 {
        assert(d[0] == c[0]);
    }
}

// ───────────────────────────── module listings ─────────────────────────────

/// Item inside a `CanvasModule`. `item_type` covers File / Page / Assignment /
/// Discussion / Quiz / ExternalUrl / ExternalTool / SubHeader.
#[derive(Debug, Clone)]
pub struct CanvasModuleItem {
    pub id: Option<i64>,
    pub title: Option<String>,
    pub item_type: Option<String>,
    pub html_url: Option<String>,
    pub position: Option<i64>,
    pub indent: Option<i64>,
    pub content_id: Option<i64>,
}

/// Module with items as returned by `GET /courses/:id/modules?include[]=items`.
#[derive(Debug, Clone)]
pub struct CanvasModule {
    pub id: Option<i64>,
    pub name: Option<String>,
    pub position: Option<i64>,
    pub items: Option<Vec<CanvasModuleItem>>,
}

/// A string option, by its view.
pub open spec fn opt_view(o: Option<String>) -> Option<Seq<char>> {
    match o {
        Some(s) => Some(s@),
        None => None,
    }
}

/// The text of `o`, or `dflt` when absent.
pub open spec fn text_or(o: Option<String>, dflt: Seq<char>) -> Seq<char> {
    match o {
        Some(s) => s@,
        None => dflt,
    }
}

/// Whether an item is a file that can be fetched: of type `File`, with a
/// content id.
pub open spec fn is_file_entry(it: CanvasModuleItem) -> bool {
    &&& (it.item_type matches Some(t) && t@ == "File"@)
    &&& it.content_id is Some
}

/// The downloadable files among `items`, in order: their content id and
/// title (`(untitled)` when absent).
pub open spec fn file_entries(items: Seq<CanvasModuleItem>) -> Seq<(i64, Seq<char>)>
    decreases items.len(),
{
    if items.len() == 0 {
        seq![]
    } else {
        let prev = file_entries(items.drop_last());
        let it = items.last();
        if is_file_entry(it) {
            prev.push((it.content_id->0, text_or(it.title, "(untitled)"@)))
        } else {
            prev
        }
    }
}

/// The items of a module (none when the listing has no `items`).
pub open spec fn module_items(m: CanvasModule) -> Seq<CanvasModuleItem> {
    match m.items {
        Some(v) => v@,
        None => seq![],
    }
}

/// The name a module is shown under: its name, or `Module <n>` for the
/// `n`-th module (counting from 1).
pub open spec fn module_label(m: CanvasModule, idx: int) -> Seq<char> {
    match m.name {
        Some(s) => s@,
        None => "Module "@ + dec_nat((idx + 1) as nat),
    }
}

/// A file entry by its view.
pub open spec fn entry_view(e: (i64, String)) -> (i64, Seq<char>) {
    (e.0, e.1@)
}

/// The downloadable files among `items`.
pub fn file_entries_of(items: &Vec<CanvasModuleItem>) -> (r: Vec<(i64, String)>)
    ensures
        r@.map_values(|e: (i64, String)| entry_view(e)) == file_entries(items@),
{
    let mut r: Vec<(i64, String)> = Vec::new();
    let mut i: usize = 0;
    while i < items.len()
        invariant
            i <= items.len(),
            r@.map_values(|e: (i64, String)| entry_view(e)) == file_entries(
                items@.take(i as int),
            ),
        decreases items.len() - i,
    {
        let it = &items[i];
        let is_file = match &it.item_type {
            Some(t) => crate::strs::str_eq(t.as_str(), "File"),
            None => false,
        };
        assert(items@.take(i + 1).drop_last() =~= items@.take(i as int));
        if is_file {
            if let Some(cid) = it.content_id {
                let title = match &it.title {
                    Some(t) => t.clone(),
                    None => crate::strs::owned("(untitled)"),
                };
                let ghost before = r@;
                r.push((cid, title));
                assert(r@.map_values(|e: (i64, String)| entry_view(e)) =~= before.map_values(
                    |e: (i64, String)| entry_view(e),
                ).push(entry_view((cid, title))));
            }
        }
        i = i + 1;
    }
    assert(items@.take(items.len() as int) =~= items@);
    r
}

/// The name a module is shown under (see `module_label`).
pub fn module_label_of(m: &CanvasModule, idx: usize) -> (r: String)
    requires
        idx < usize::MAX,
    ensures
        r@ == module_label(*m, idx as int),
{
    match &m.name {
        Some(n) => n.clone(),
        None => {
            let mut r = crate::strs::owned("Module ");
            crate::num::push_dec_u64(&mut r, (idx + 1) as u64);
            r
        },
    }
}

// ───────────────────────────── download plan ─────────────────────────────

/// One module folder of a download: its directory name, the label of its
/// progress bar, and its files.
#[derive(Debug, Clone)]
pub struct ModuleFolder {
    pub dir_name: String,
    pub prefix: String,
    pub files: Vec<(i64, String)>,
}

/// One file download: the folder it goes into (an index into the plan's
/// folders), the file's content id and its item title.
#[derive(Debug, Clone)]
pub struct FileJob {
    pub folder: usize,
    pub content_id: i64,
    pub item_title: String,
}

/// What `cool module download` fetches: one folder per module that has
/// files, and the downloads in the order they are started.
#[derive(Debug, Clone)]
pub struct DownloadPlan {
    pub folders: Vec<ModuleFolder>,
    pub jobs: Vec<FileJob>,
}

/// The width of a module's progress-bar label.
pub const PREFIX_WIDTH: usize = 30;

/// A folder by its view.
pub open spec fn folder_view(f: ModuleFolder) -> (Seq<char>, Seq<char>, Seq<(i64, Seq<char>)>) {
    (f.dir_name@, f.prefix@, f.files@.map_values(|e: (i64, String)| entry_view(e)))
}

/// A job by its view.
pub open spec fn job_view(j: FileJob) -> (int, i64, Seq<char>) {
    (j.folder as int, j.content_id, j.item_title@)
}

/// The folder made for the module at `idx`.
pub open spec fn folder_of(m: CanvasModule, idx: int) -> (
    Seq<char>,
    Seq<char>,
    Seq<(i64, Seq<char>)>,
) {
    let label = module_label(m, idx);
    (
        sanitized_component(label),
        truncated(label, PREFIX_WIDTH),
        file_entries(module_items(m)),
    )
}

/// The folders for the first `n` modules: one per module with at least one
/// downloadable file, in module order.
pub open spec fn planned_folders(modules: Seq<CanvasModule>, n: int) -> Seq<
    (Seq<char>, Seq<char>, Seq<(i64, Seq<char>)>),
>
    decreases n,
{
    if n <= 0 {
        seq![]
    } else {
        let prev = planned_folders(modules, n - 1);
        if file_entries(module_items(modules[n - 1])).len() > 0 {
            prev.push(folder_of(modules[n - 1], n - 1))
        } else {
            prev
        }
    }
}

/// The jobs of each folder, in file order.
pub open spec fn job_groups(folders: Seq<(Seq<char>, Seq<char>, Seq<(i64, Seq<char>)>)>) -> Seq<
    Seq<(int, i64, Seq<char>)>,
> {
    Seq::new(
        folders.len(),
        |f: int| folders[f].2.map_values(|e: (i64, Seq<char>)| (f, e.0, e.1)),
    )
}

/// Job groups by their views.
pub open spec fn job_lift(groups: Seq<Vec<FileJob>>) -> Seq<Seq<(int, i64, Seq<char>)>> {
    lift(group_views(groups), |j: FileJob| job_view(j))
}

/// The jobs of one folder.
fn folder_jobs(folder: usize, files: &Vec<(i64, String)>) -> (r: Vec<FileJob>)
    ensures
        r@.map_values(|j: FileJob| job_view(j)) == files@.map_values(
            |e: (i64, String)| entry_view(e),
        ).map_values(|e: (i64, Seq<char>)| (folder as int, e.0, e.1)),
{
    let mut r: Vec<FileJob> = Vec::new();
    let mut i: usize = 0;
    while i < files.len()
        invariant
            i <= files.len(),
            r@.map_values(|j: FileJob| job_view(j)) == files@.take(i as int).map_values(
                |e: (i64, String)| entry_view(e),
            ).map_values(|e: (i64, Seq<char>)| (folder as int, e.0, e.1)),
        decreases files.len() - i,
    {
        let job = FileJob { folder, content_id: files[i].0, item_title: files[i].1.clone() };
        let ghost before = r@;
        r.push(job);
        assert(r@.map_values(|j: FileJob| job_view(j)) =~= before.map_values(
            |j: FileJob| job_view(j),
        ).push(job_view(job)));
        assert(files@.take(i + 1).map_values(|e: (i64, String)| entry_view(e)).map_values(
            |e: (i64, Seq<char>)| (folder as int, e.0, e.1),
        ) =~= files@.take(i as int).map_values(|e: (i64, String)| entry_view(e)).map_values(
            |e: (i64, Seq<char>)| (folder as int, e.0, e.1),
        ).push(job_view(job)));
        i = i + 1;
    }
    assert(files@.take(files.len() as int) =~= files@);
    r
}

/// Plan a module download: one folder per module that has downloadable
/// files (named after the module, made path-safe), and the file jobs merged
/// round-robin across folders, so that the first downloads touch every
/// folder instead of draining one folder at a time.
pub fn plan_download(modules: &Vec<CanvasModule>) -> (plan: DownloadPlan)
    ensures
        plan.folders@.map_values(|f: ModuleFolder| folder_view(f)) == planned_folders(
            modules@,
            modules.len() as int,
        ),
        plan.jobs@.map_values(|j: FileJob| job_view(j)) == interleaved(
            job_groups(planned_folders(modules@, modules.len() as int)),
        ),
{
    let mut folders: Vec<ModuleFolder> = Vec::new();
    let mut groups: Vec<Vec<FileJob>> = Vec::new();
    let mut idx: usize = 0;
    while idx < modules.len()
        invariant
            idx <= modules.len(),
            folders@.map_values(|f: ModuleFolder| folder_view(f)) == planned_folders(
                modules@,
                idx as int,
            ),
            job_lift(groups@) == job_groups(planned_folders(modules@, idx as int)),
        decreases modules.len() - idx,
    {
        let m = &modules[idx];
        let entries = match &m.items {
            Some(v) => file_entries_of(v),
            None => Vec::new(),
        };
        assert(entries@.map_values(|e: (i64, String)| entry_view(e)) == file_entries(
            module_items(*m),
        )) by {
            if m.items is None {
                assert(entries@.map_values(|e: (i64, String)| entry_view(e)) =~= Seq::<
                    (i64, Seq<char>),
                >::empty());
            }
        }
        if entries.len() > 0 {
            let label = module_label_of(m, idx);
            let dir_name = sanitize_path_component(label.as_str());
            let prefix = truncate_prefix(label.as_str(), PREFIX_WIDTH);
            let f = folders.len();
            let jobs = folder_jobs(f, &entries);
            let folder = ModuleFolder { dir_name, prefix, files: entries };
            let ghost fb = folders@;
            let ghost gb = groups@;
            let ghost prev = planned_folders(modules@, idx as int);
            folders.push(folder);
            groups.push(jobs);
            assert(folders@.map_values(|f: ModuleFolder| folder_view(f)) =~= fb.map_values(
                |f: ModuleFolder| folder_view(f),
            ).push(folder_view(folder)));
            assert(job_lift(groups@) =~= job_groups(
                prev.push(folder_of(modules@[idx as int], idx as int)),
            )) by {
                assert(prev.len() == f);
                assert(job_lift(gb).len() == gb.len());
                assert(gb.len() == f);
                assert forall|g: int| 0 <= g <= f implies #[trigger] job_lift(groups@)[g]
                    == job_groups(prev.push(folder_of(modules@[idx as int], idx as int)))[g] by {
                    if g < f {
                        assert(groups@[g] == gb[g]);
                        assert(job_lift(gb)[g] == job_groups(prev)[g]);
                    }
                }
            }
        } else {
            assert(folders@.map_values(|f: ModuleFolder| folder_view(f)) == planned_folders(
                modules@,
                idx + 1,
            ));
        }
        idx = idx + 1;
    }
    let ghost gv = group_views(groups@);
    let jobs = interleave_round_robin(groups);
    proof {
        lemma_interleave_map(gv, |j: FileJob| job_view(j));
    }
    DownloadPlan { folders, jobs }
}

// ───────────────────────────── running the jobs ─────────────────────────────

/// The name a fetched file is saved under, before it is made path-safe: its
/// display name, else its file name, else the module item's title.
pub open spec fn chosen_name(
    display_name: Option<String>,
    filename: Option<String>,
    item_title: Seq<char>,
) -> Seq<char> {
    match display_name {
        Some(d) => d@,
        None => text_or(filename, item_title),
    }
}

/// The name shown for a fetched file and the path component it is saved
/// under.
pub fn download_target(
    display_name: &Option<String>,
    filename: &Option<String>,
    item_title: &str,
) -> (r: (String, String))
    ensures
        r.0@ == chosen_name(*display_name, *filename, item_title@),
        r.1@ == sanitized_component(r.0@),
{
    let shown = match display_name {
        Some(d) => d.clone(),
        None => match filename {
            Some(f) => f.clone(),
            None => crate::strs::owned(item_title),
        },
    };
    let safe = sanitize_path_component(shown.as_str());
    (shown, safe)
}

/// How one file download ended.
#[derive(Debug, Clone, Copy, PartialEq, Eq)]
pub enum JobOutcome {
    Downloaded,
    Skipped,
    Failed,
}

/// The outcome settled before fetching: a file already on disk is skipped
/// unless overwriting was asked for.
pub fn outcome_before_fetch(overwrite: bool, exists: bool) -> (r: Option<JobOutcome>)
    ensures
        r == (if !overwrite && exists {
            Some(JobOutcome::Skipped)
        } else {
            None
        }),
{
    if !overwrite && exists {
        Some(JobOutcome::Skipped)
    } else {
        None
    }
}

/// Counts of finished downloads.
#[derive(Debug, Clone, Copy)]
pub struct DownloadTally {
    pub downloaded: usize,
    pub skipped: usize,
    pub failed: usize,
}

/// The closing line of a download.
pub open spec fn tally_summary(t: DownloadTally, output_root: Seq<char>) -> Seq<char> {
    "Done. "@ + dec_nat(t.downloaded as nat) + " downloaded, "@ + dec_nat(t.skipped as nat)
        + " skipped, "@ + dec_nat(t.failed as nat) + " failed → "@ + output_root
}

impl DownloadTally {
    /// No download finished yet.
    pub fn new() -> (t: DownloadTally)
        ensures
            t.downloaded == 0 && t.skipped == 0 && t.failed == 0,
    {
        DownloadTally { downloaded: 0, skipped: 0, failed: 0 }
    }

    /// Counts one finished download.
    pub fn record(&mut self, outcome: JobOutcome)
        requires
            old(self).downloaded < usize::MAX,
            old(self).skipped < usize::MAX,
            old(self).failed < usize::MAX,
        ensures
            final(self).downloaded == old(self).downloaded + if outcome == JobOutcome::Downloaded {
                1int
            } else {
                0int
            },
            final(self).skipped == old(self).skipped + if outcome == JobOutcome::Skipped {
                1int
            } else {
                0int
            },
            final(self).failed == old(self).failed + if outcome == JobOutcome::Failed {
                1int
            } else {
                0int
            },
    {
        match outcome {
            JobOutcome::Downloaded => self.downloaded = self.downloaded + 1,
            JobOutcome::Skipped => self.skipped = self.skipped + 1,
            JobOutcome::Failed => self.failed = self.failed + 1,
        }
    }

    /// `Done. <d> downloaded, <s> skipped, <f> failed → <root>`.
    pub fn summary(&self, output_root: &str) -> (r: String)
        ensures
            r@ == tally_summary(*self, output_root@),
    {
        let mut r = crate::strs::owned("Done. ");
        crate::num::push_dec_u64(&mut r, self.downloaded as u64);
        crate::strs::push_str(&mut r, " downloaded, ");
        crate::num::push_dec_u64(&mut r, self.skipped as u64);
        crate::strs::push_str(&mut r, " skipped, ");
        crate::num::push_dec_u64(&mut r, self.failed as u64);
        crate::strs::push_str(&mut r, " failed → ");
        crate::strs::push_str(&mut r, output_root);
        r
    }
}

// ───────────────────────────── listing and showing modules ─────────────────────────────

/// The icon shown before a module item of type `t`.
pub open spec fn item_icon(t: Seq<char>) -> Seq<char> {
    if t == "File"@ {
        "📁"@
    } else if t == "Page"@ {
        "📄"@
    } else if t == "Assignment"@ {
        "📝"@
    } else if t == "Discussion"@ {
        "💬"@
    } else if t == "Quiz"@ {
        "❓"@
    } else if t == "ExternalUrl"@ || t == "ExternalTool"@ {
        "🔗"@
    } else if t == "SubHeader"@ {
        "──"@
    } else {
        "  "@
    }
}

/// The icon for an item type (none counts as the empty type).
pub fn module_item_icon(item_type: &Option<String>) -> (r: &'static str)
    ensures
        r@ == item_icon(text_or(*item_type, ""@)),
{
    let t: &str = match item_type {
        Some(s) => s.as_str(),
        None => "",
    };
    if crate::strs::str_eq(t, "File") {
        "📁"
    } else if crate::strs::str_eq(t, "Page") {
        "📄"
    } else if crate::strs::str_eq(t, "Assignment") {
        "📝"
    } else if crate::strs::str_eq(t, "Discussion") {
        "💬"
    } else if crate::strs::str_eq(t, "Quiz") {
        "❓"
    } else if crate::strs::str_eq(t, "ExternalUrl") || crate::strs::str_eq(t, "ExternalTool") {
        "🔗"
    } else if crate::strs::str_eq(t, "SubHeader") {
        "──"
    } else {
        "  "
    }
}

/// The line listing one item: `  <icon> <type>: <title>`.
pub open spec fn item_line(it: CanvasModuleItem) -> Seq<char> {
    "  "@ + item_icon(text_or(it.item_type, ""@)) + " "@ + text_or(it.item_type, "Unknown"@)
        + ": "@ + text_or(it.title, "(untitled)"@)
}

/// The lines of the first `n` items.
pub open spec fn item_lines(items: Seq<CanvasModuleItem>, n: int) -> Seq<Seq<char>>
    decreases n,
{
    if n <= 0 {
        seq![]
    } else {
        item_lines(items, n - 1).push(item_line(items[n - 1]))
    }
}

/// The lines listing one module: its quoted name, its items (or
/// `  (no items)`), and a blank line.
pub open spec fn module_block(m: CanvasModule) -> Seq<Seq<char>> {
    let head = seq!["Module: \""@ + text_or(m.name, "(unnamed module)"@) + "\""@];
    let items = module_items(m);
    let body = if items.len() > 0 {
        item_lines(items, items.len() as int)
    } else {
        seq!["  (no items)"@]
    };
    head + body + seq![""@]
}

/// The lines listing the first `n` modules.
pub open spec fn module_listing(modules: Seq<CanvasModule>, n: int) -> Seq<Seq<char>>
    decreases n,
{
    if n <= 0 {
        seq![]
    } else {
        module_listing(modules, n - 1) + module_block(modules[n - 1])
    }
}

/// A string option's text, or `dflt`.
pub(crate) fn text_or_exec(o: &Option<String>, dflt: &str) -> (r: String)
    ensures
        r@ == text_or(*o, dflt@),
{
    match o {
        Some(s) => s.clone(),
        None => crate::strs::owned(dflt),
    }
}

/// The text lines of `cool module list`.
pub fn module_listing_lines(modules: &Vec<CanvasModule>) -> (r: Vec<String>)
    ensures
        r@.map_values(|l: String| l@) == module_listing(modules@, modules.len() as int),
{
    let mut r: Vec<String> = Vec::new();
    let mut i: usize = 0;
    while i < modules.len()
        invariant
            i <= modules.len(),
            r@.map_values(|l: String| l@) == module_listing(modules@, i as int),
        decreases modules.len() - i,
    {
        let m = &modules[i];
        let ghost start = r@.map_values(|l: String| l@);
        let mut head = crate::strs::owned("Module: \"");
        let name = text_or_exec(&m.name, "(unnamed module)");
        crate::strs::push_str(&mut head, name.as_str());
        crate::strs::push_str(&mut head, "\"");
        r.push(head);
        let ghost items = module_items(*m);
        let mut listed = false;
        if let Some(items_v) = &m.items {
            if items_v.len() > 0 {
                let mut k: usize = 0;
                while k < items_v.len()
                    invariant
                        k <= items_v.len(),
                        items == items_v@,
                        r@.map_values(|l: String| l@) == start + seq![
                            "Module: \""@ + text_or(m.name, "(unnamed module)"@) + "\""@,
                        ] + item_lines(items, k as int),
                    decreases items_v.len() - k,
                {
                    let it = &items_v[k];
                    let mut line = crate::strs::owned("  ");
                    crate::strs::push_str(&mut line, module_item_icon(&it.item_type));
                    crate::strs::push_str(&mut line, " ");
                    let t = text_or_exec(&it.item_type, "Unknown");
                    crate::strs::push_str(&mut line, t.as_str());
                    crate::strs::push_str(&mut line, ": ");
                    let title = text_or_exec(&it.title, "(untitled)");
                    crate::strs::push_str(&mut line, title.as_str());
                    let ghost before = r@;
                    r.push(line);
                    assert(r@.map_values(|l: String| l@) =~= before.map_values(|l: String| l@).push(
                        line@,
                    ));
                    k = k + 1;
                }
                listed = true;
            }
        }
        if !listed {
            let ghost before = r@;
            r.push(crate::strs::owned("  (no items)"));
            assert(r@.map_values(|l: String| l@) =~= before.map_values(|l: String| l@).push(
                "  (no items)"@,
            ));
        }
        let ghost before = r@;
        r.push(crate::strs::owned(""));
        assert(r@.map_values(|l: String| l@) =~= before.map_values(|l: String| l@).push(""@));
        assert(r@.map_values(|l: String| l@) =~= module_listing(modules@, i + 1));
        i = i + 1;
    }
    r
}

/// The rows of `cool module show`'s table: type, title, and URL (`-` when
/// absent).
pub open spec fn show_row(it: CanvasModuleItem) -> (Seq<char>, Seq<char>, Seq<char>) {
    (text_or(it.item_type, ""@), text_or(it.title, ""@), text_or(it.html_url, "-"@))
}

/// The table rows of `cool module show`.
pub fn module_show_rows(items: &Vec<CanvasModuleItem>) -> (r: Vec<(String, String, String)>)
    ensures
        r@.len() == items@.len(),
        forall|i: int|
            0 <= i < items@.len() ==> (#[trigger] r@[i].0@, r@[i].1@, r@[i].2@) == show_row(
                items@[i],
            ),
{
    let mut r: Vec<(String, String, String)> = Vec::new();
    let mut i: usize = 0;
    while i < items.len()
        invariant
            i <= items.len(),
            r@.len() == i,
            forall|j: int|
                0 <= j < i ==> (#[trigger] r@[j].0@, r@[j].1@, r@[j].2@) == show_row(items@[j]),
        decreases items.len() - i,
    {
        let it = &items[i];
        r.push(
            (
                text_or_exec(&it.item_type, ""),
                text_or_exec(&it.title, ""),
                text_or_exec(&it.html_url, "-"),
            ),
        );
        i = i + 1;
    }
    r
}

/// Truncate `s` to fit within `max` chars (counting code points, not bytes),
/// appending `…` when truncated.
pub fn truncate_prefix(s: &str, max: usize) -> (r: String)
    ensures
        r@ == truncated(s@, max),
{
    crate::browser::truncate_str(s, max)
}

// ───────────────────────────── round-robin merge ─────────────────────────────

/// Round `r` restricted to the first `n` groups: the `r`-th item of each of
/// them that has one, in group order.
pub open spec fn round_upto<T>(groups: Seq<Seq<T>>, r: int, n: int) -> Seq<T>
    decreases n,
{
    if n <= 0 {
        seq![]
    } else {
        let prev = round_upto(groups, r, n - 1);
        if groups[n - 1].len() > r {
            prev.push(groups[n - 1][r])
        } else {
            prev
        }
    }
}

/// Round `r`: the `r`-th item of every group that has one, in group order.
pub open spec fn round<T>(groups: Seq<Seq<T>>, r: int) -> Seq<T> {
    round_upto(groups, r, groups.len() as int)
}

/// The first `k` rounds, one after the other.
pub open spec fn rounds<T>(groups: Seq<Seq<T>>, k: nat) -> Seq<T>
    decreases k,
{
    if k == 0 {
        seq![]
    } else {
        rounds(groups, (k - 1) as nat) + round(groups, k - 1)
    }
}

/// The length of the longest of the first `n` groups.
pub open spec fn max_len<T>(groups: Seq<Seq<T>>, n: int) -> nat
    decreases n,
{
    if n <= 0 {
        0
    } else {
        let m = max_len(groups, n - 1);
        if groups[n - 1].len() > m {
            groups[n - 1].len()
        } else {
            m
        }
    }
}

/// The number of items in the first `n` groups.
pub open spec fn total_len<T>(groups: Seq<Seq<T>>, n: int) -> nat
    decreases n,
{
    if n <= 0 {
        0
    } else {
        total_len(groups, n - 1) + groups[n - 1].len()
    }
}

/// The round-robin merge of `groups`: one item from each group in order,
/// repeated until every group is used up.
pub open spec fn interleaved<T>(groups: Seq<Seq<T>>) -> Seq<T> {
    rounds(groups, max_len(groups, groups.len() as int))
}

/// Where item `k` of group `i` lands in the merge.
pub open spec fn position<T>(groups: Seq<Seq<T>>, i: int, k: int) -> int {
    (rounds(groups, k as nat).len() + round_upto(groups, k, i).len()) as int
}

/// What is left of a group once `r` items were taken from its front.
pub open spec fn rest<T>(g: Seq<T>, r: int) -> Seq<T> {
    if r < g.len() {
        g.subrange(r, g.len() as int)
    } else {
        seq![]
    }
}

/// The views of a vector of vectors.
pub open spec fn group_views<T>(groups: Seq<Vec<T>>) -> Seq<Seq<T>> {
    groups.map_values(|g: Vec<T>| g@)
}

/// Round-robin merge: take one item from each group in order, repeat until
/// every group is empty. Preserves the order within a group.
pub fn interleave_round_robin<T>(groups: Vec<Vec<T>>) -> (out: Vec<T>)
    ensures
        out@ == interleaved(group_views(groups@)),
{
    let ghost gs = group_views(groups@);
    let n = groups.len();
    let mut m: usize = 0;
    let mut i: usize = 0;
    while i < n
        invariant
            i <= n == groups.len() == gs.len(),
            gs == group_views(groups@),
            m == max_len(gs, i as int),
        decreases n - i,
    {
        if groups[i].len() > m {
            m = groups[i].len();
        }
        i = i + 1;
    }
    let mut queues = groups;
    let mut out: Vec<T> = Vec::new();
    let mut r: usize = 0;
    while r < m
        invariant
            r <= m == max_len(gs, n as int),
            queues.len() == n == gs.len(),
            forall|j: int| 0 <= j < n ==> #[trigger] queues@[j]@ == rest(gs[j], r as int),
            out@ == rounds(gs, r as nat),
        decreases m - r,
    {
        let mut i: usize = 0;
        while i < n
            invariant
                i <= n == queues.len() == gs.len(),
                r < m,
                forall|j: int| 0 <= j < i ==> #[trigger] queues@[j]@ == rest(gs[j], r + 1),
                forall|j: int| i <= j < n ==> #[trigger] queues@[j]@ == rest(gs[j], r as int),
                out@ == rounds(gs, r as nat) + round_upto(gs, r as int, i as int),
            decreases n - i,
        {
            let ghost before = queues@;
            if queues[i].len() > 0 {
                let x = queues[i].remove(0);
                assert(gs[i as int].len() > r);
                assert(x == gs[i as int][r as int]);
                out.push(x);
                assert(queues@[i as int]@ =~= rest(gs[i as int], r + 1));
            } else {
                assert(rest(gs[i as int], r + 1) =~= rest(gs[i as int], r as int));
            }
            assert forall|j: int| 0 <= j < n && j != i implies #[trigger] queues@[j] == before[j] by {
            }
            i = i + 1;
        }
        r = r + 1;
    }
    out
}

/// Every group mapped element-wise by `f`.
pub open spec fn lift<T, U>(groups: Seq<Seq<T>>, f: spec_fn(T) -> U) -> Seq<Seq<U>> {
    groups.map_values(|g: Seq<T>| g.map_values(f))
}

proof fn lemma_round_upto_map<T, U>(groups: Seq<Seq<T>>, f: spec_fn(T) -> U, r: int, n: int)
    requires
        0 <= n <= groups.len(),
        0 <= r,
    ensures
        round_upto(lift(groups, f), r, n) == round_upto(groups, r, n).map_values(f),
    decreases n,
{
    if n > 0 {
        lemma_round_upto_map(groups, f, r, n - 1);
        let prev = round_upto(groups, r, n - 1);
        if groups[n - 1].len() > r {
            assert(prev.push(groups[n - 1][r]).map_values(f) =~= prev.map_values(f).push(
                f(groups[n - 1][r]),
            ));
        }
    } else {
        assert(Seq::<T>::empty().map_values(f) =~= Seq::<U>::empty());
    }
}

proof fn lemma_rounds_map<T, U>(groups: Seq<Seq<T>>, f: spec_fn(T) -> U, k: nat)
    ensures
        rounds(lift(groups, f), k) == rounds(groups, k).map_values(f),
    decreases k,
{
    if k > 0 {
        lemma_rounds_map(groups, f, (k - 1) as nat);
        lemma_round_upto_map(groups, f, k - 1, groups.len() as int);
        let a = rounds(groups, (k - 1) as nat);
        let b = round(groups, k - 1);
        assert((a + b).map_values(f) =~= a.map_values(f) + b.map_values(f));
    } else {
        assert(Seq::<T>::empty().map_values(f) =~= Seq::<U>::empty());
    }
}

proof fn lemma_max_len_map<T, U>(groups: Seq<Seq<T>>, f: spec_fn(T) -> U, n: int)
    requires
        0 <= n <= groups.len(),
    ensures
        max_len(lift(groups, f), n) == max_len(groups, n),
    decreases n,
{
    if n > 0 {
        lemma_max_len_map(groups, f, n - 1);
    }
}

/// Merging commutes with mapping every item.
pub proof fn lemma_interleave_map<T, U>(groups: Seq<Seq<T>>, f: spec_fn(T) -> U)
    ensures
        interleaved(lift(groups, f)) == interleaved(groups).map_values(f),
{
    lemma_max_len_map(groups, f, groups.len() as int);
    lemma_rounds_map(groups, f, max_len(groups, groups.len() as int));
}

// ───────────────────────────── facts about the merge ─────────────────────────────

/// Extending the set of groups a round looks at only appends to it.
proof fn lemma_round_upto_prefix<T>(groups: Seq<Seq<T>>, r: int, i: int, n: int)
    requires
        0 <= i <= n <= groups.len(),
    ensures
        round_upto(groups, r, i).len() <= round_upto(groups, r, n).len(),
        forall|j: int|
            0 <= j < round_upto(groups, r, i).len() ==> #[trigger] round_upto(groups, r, n)[j]
                == round_upto(groups, r, i)[j],
        i < n && groups[i].len() > r ==> round_upto(groups, r, i).len() < round_upto(
            groups,
            r,
            n,
        ).len() && round_upto(groups, r, n)[round_upto(groups, r, i).len() as int]
            == groups[i][r],
    decreases n - i,
{
    if i < n {
        lemma_round_upto_prefix(groups, r, i, n - 1);
        if i == n - 1 {
        } else {
            lemma_round_upto_prefix(groups, r, i + 1, n - 1);
        }
    }
}

/// The first rounds are a prefix of the later ones.
proof fn lemma_rounds_prefix<T>(groups: Seq<Seq<T>>, k: nat, m: nat)
    requires
        k <= m,
    ensures
        rounds(groups, k).len() <= rounds(groups, m).len(),
        forall|j: int|
            0 <= j < rounds(groups, k).len() ==> #[trigger] rounds(groups, m)[j] == rounds(
                groups,
                k,
            )[j],
    decreases m - k,
{
    if k < m {
        lemma_rounds_prefix(groups, k, (m - 1) as nat);
    }
}

/// No group is longer than `max_len`.
proof fn lemma_max_len<T>(groups: Seq<Seq<T>>, i: int, n: int)
    requires
        0 <= i < n <= groups.len(),
    ensures
        groups[i].len() <= max_len(groups, n),
    decreases n,
{
    if i < n - 1 {
        lemma_max_len(groups, i, n - 1);
    }
}

/// `min(a, b)` on naturals.
pub open spec fn min_nat(a: nat, b: nat) -> nat {
    if a <= b {
        a
    } else {
        b
    }
}

/// The number of items of the first `n` groups that fall within the first `m`
/// rounds.
pub open spec fn capped_total<T>(groups: Seq<Seq<T>>, m: nat, n: int) -> nat
    decreases n,
{
    if n <= 0 {
        0
    } else {
        capped_total(groups, m, n - 1) + min_nat(groups[n - 1].len(), m)
    }
}

/// One more round adds one item per group long enough for it.
proof fn lemma_capped_step<T>(groups: Seq<Seq<T>>, m: nat, n: int)
    requires
        0 <= n <= groups.len(),
    ensures
        capped_total(groups, m + 1, n) == capped_total(groups, m, n) + round_upto(
            groups,
            m as int,
            n,
        ).len(),
    decreases n,
{
    if n > 0 {
        lemma_capped_step(groups, m, n - 1);
    }
}

/// No item falls within zero rounds.
proof fn lemma_capped_zero<T>(groups: Seq<Seq<T>>, n: int)
    ensures
        capped_total(groups, 0, n) == 0,
    decreases n,
{
    if n > 0 {
        lemma_capped_zero(groups, n - 1);
    }
}

/// The first `m` rounds hold exactly the items that fall within them.
proof fn lemma_rounds_len<T>(groups: Seq<Seq<T>>, m: nat)
    ensures
        rounds(groups, m).len() == capped_total(groups, m, groups.len() as int),
    decreases m,
{
    if m > 0 {
        lemma_rounds_len(groups, (m - 1) as nat);
        lemma_capped_step(groups, (m - 1) as nat, groups.len() as int);
    } else {
        lemma_capped_zero(groups, groups.len() as int);
    }
}

/// Rounds past the longest group hold every item.
proof fn lemma_capped_full<T>(groups: Seq<Seq<T>>, m: nat, n: int)
    requires
        0 <= n <= groups.len(),
        forall|i: int| 0 <= i < n ==> #[trigger] groups[i].len() <= m,
    ensures
        capped_total(groups, m, n) == total_len(groups, n),
    decreases n,
{
    if n > 0 {
        lemma_capped_full(groups, m, n - 1);
    }
}

/// Item `k` of group `i` sits at `position(groups, i, k)`, inside round `k`.
proof fn lemma_position<T>(groups: Seq<Seq<T>>, i: int, k: int)
    requires
        0 <= i < groups.len(),
        0 <= k < groups[i].len(),
    ensures
        rounds(groups, k as nat).len() <= position(groups, i, k) < rounds(
            groups,
            (k + 1) as nat,
        ).len(),
        rounds(groups, (k + 1) as nat)[position(groups, i, k)] == groups[i][k],
{
    lemma_round_upto_prefix(groups, k, i, groups.len() as int);
}

/// The number of items of all groups.
pub open spec fn item_count<T>(groups: Seq<Seq<T>>) -> nat {
    total_len(groups, groups.len() as int)
}

/// The merge holds every item once: its length is the number of items, and
/// item `k` of group `i` is found at `position(groups, i, k)`, a place no
/// other item takes.
pub proof fn law_interleave_places_every_item<T>(groups: Seq<Seq<T>>)
    ensures
        interleaved(groups).len() == item_count(groups),
        forall|i: int, k: int|
            0 <= i < groups.len() && 0 <= k < groups[i].len() ==> 0 <= #[trigger] position(
                groups,
                i,
                k,
            ) < interleaved(groups).len() && interleaved(groups)[position(groups, i, k)]
                == groups[i][k],
        forall|i1: int, k1: int, i2: int, k2: int|
            0 <= i1 < groups.len() && 0 <= k1 < groups[i1].len() && 0 <= i2 < groups.len() && 0
                <= k2 < groups[i2].len() && (i1 != i2 || k1 != k2) ==> #[trigger] position(
                groups,
                i1,
                k1,
            ) != #[trigger] position(groups, i2, k2),
{
    let n = groups.len() as int;
    let mx = max_len(groups, n);
    assert forall|i: int| 0 <= i < n implies #[trigger] groups[i].len() <= mx by {
        lemma_max_len(groups, i, n);
    }
    lemma_rounds_len(groups, mx);
    lemma_capped_full(groups, mx, n);
    assert forall|i: int, k: int|
        0 <= i < groups.len() && 0 <= k < groups[i].len() implies 0 <= #[trigger] position(
        groups,
        i,
        k,
    ) < interleaved(groups).len() && interleaved(groups)[position(groups, i, k)]
        == groups[i][k] by {
        lemma_max_len(groups, i, n);
        lemma_position(groups, i, k);
        lemma_rounds_prefix(groups, (k + 1) as nat, mx);
    }
    assert forall|i1: int, k1: int, i2: int, k2: int|
        0 <= i1 < groups.len() && 0 <= k1 < groups[i1].len() && 0 <= i2 < groups.len() && 0
            <= k2 < groups[i2].len() && (i1 != i2 || k1 != k2) implies #[trigger] position(
        groups,
        i1,
        k1,
    ) != #[trigger] position(groups, i2, k2) by {
        lemma_position(groups, i1, k1);
        lemma_position(groups, i2, k2);
        if k1 < k2 {
            lemma_rounds_prefix(groups, (k1 + 1) as nat, k2 as nat);
        } else if k2 < k1 {
            lemma_rounds_prefix(groups, (k2 + 1) as nat, k1 as nat);
        } else if i1 < i2 {
            lemma_round_upto_prefix(groups, k1, i1, i2);
        } else {
            lemma_round_upto_prefix(groups, k1, i2, i1);
        }
    }
}

/// The merge orders items by (index in their group, group): an earlier
/// round comes first whatever the groups, so the order within each group is
/// kept, and within one round it follows the order of the groups.
pub proof fn law_interleave_keeps_order<T>(groups: Seq<Seq<T>>)
    ensures
        forall|i1: int, k1: int, i2: int, k2: int|
            0 <= i1 < groups.len() && 0 <= k1 < groups[i1].len() && 0 <= i2 < groups.len() && 0
                <= k2 < groups[i2].len() && k1 < k2 ==> #[trigger] position(groups, i1, k1)
                < #[trigger] position(groups, i2, k2),
        forall|i: int, k1: int, k2: int|
            0 <= i < groups.len() && 0 <= k1 < k2 < groups[i].len() ==> #[trigger] position(
                groups,
                i,
                k1,
            ) < #[trigger] position(groups, i, k2),
        forall|i1: int, i2: int, k: int|
            0 <= i1 < i2 < groups.len() && 0 <= k < groups[i1].len() && k < groups[i2].len()
                ==> #[trigger] position(groups, i1, k) < #[trigger] position(groups, i2, k),
{
    assert forall|i1: int, k1: int, i2: int, k2: int|
        0 <= i1 < groups.len() && 0 <= k1 < groups[i1].len() && 0 <= i2 < groups.len() && 0 <= k2
            < groups[i2].len() && k1 < k2 implies #[trigger] position(groups, i1, k1)
        < #[trigger] position(groups, i2, k2) by {
        lemma_position(groups, i1, k1);
        lemma_position(groups, i2, k2);
        lemma_rounds_prefix(groups, (k1 + 1) as nat, k2 as nat);
    }
    assert forall|i: int, k1: int, k2: int|
        0 <= i < groups.len() && 0 <= k1 < k2 < groups[i].len() implies #[trigger] position(
        groups,
        i,
        k1,
    ) < #[trigger] position(groups, i, k2) by {
        lemma_position(groups, i, k1);
        lemma_position(groups, i, k2);
        lemma_rounds_prefix(groups, (k1 + 1) as nat, k2 as nat);
    }
    assert forall|i1: int, i2: int, k: int|
        0 <= i1 < i2 < groups.len() && 0 <= k < groups[i1].len() && k < groups[i2].len()
            implies #[trigger] position(groups, i1, k) < #[trigger] position(groups, i2, k) by {
        lemma_round_upto_prefix(groups, k, i1, i2);
    }
}

} // verus!
