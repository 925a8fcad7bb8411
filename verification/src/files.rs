//! Course files: the decisions of walking a folder path, searching, picking a
//! file by id or name, and uploading — the requests themselves are made by
//! the caller.

use vstd::prelude::*;

use crate::modules::text_or;
use crate::strs::split_char;
use crate::views::byte_len;

verus! {

// ───────────────────────────── folder paths ─────────────────────────────

/// `s` without its leading slashes.
pub open spec fn strip_slashes_start(s: Seq<char>) -> Seq<char>
    decreases s.len(),
{
    if s.len() > 0 && s[0] == '/' {
        strip_slashes_start(s.drop_first())
    } else {
        s
    }
}

/// `s` without its trailing slashes.
pub open spec fn strip_slashes_end(s: Seq<char>) -> Seq<char>
    decreases s.len(),
{
    if s.len() > 0 && s.last() == '/' {
        strip_slashes_end(s.drop_last())
    } else {
        s
    }
}

/// The folder names a path walks through from the course's root folder:
/// none for an empty path or `/` (the root itself); otherwise the path,
/// stripped of slashes at both ends, split at each `/` (empty names
/// included).
pub open spec fn path_parts(path: Seq<char>) -> Option<Seq<Seq<char>>> {
    if path.len() == 0 || path == seq!['/'] {
        None
    } else {
        Some(split_char(strip_slashes_end(strip_slashes_start(path)), '/'))
    }
}

/// The folder names a path walks through (see `path_parts`).
pub fn folder_path_parts(path: &str) -> (r: Option<Vec<String>>)
    ensures
        match (r, path_parts(path@)) {
            (Some(v), Some(p)) => v@.map_values(|s: String| s@) == p,
            (None, None) => true,
            _ => false,
        },
{
    let v = crate::strs::chars_of(path);
    if v.len() == 0 || (v.len() == 1 && v[0] == '/') {
        assert(v.len() == 1 ==> v@ =~= seq!['/']);
        return None;
    }
    assert(v@ != seq!['/']) by {
        if v@ =~= seq!['/'] {
            assert(v.len() == 1 && v@[0] == '/');
        }
    }
    let n = v.len();
    let mut lo: usize = 0;
    assert(v@.subrange(0, n as int) =~= v@);
    while lo < n && v[lo] == '/'
        invariant
            lo <= n == v.len(),
            strip_slashes_start(v@) == strip_slashes_start(v@.subrange(lo as int, n as int)),
        decreases n - lo,
    {
        assert(v@.subrange(lo as int, n as int).drop_first() =~= v@.subrange(lo + 1, n as int));
        lo = lo + 1;
    }
    let mut hi: usize = n;
    while hi > lo && v[hi - 1] == '/'
        invariant
            lo <= hi <= n == v.len(),
            strip_slashes_start(v@) == v@.subrange(lo as int, n as int),
            strip_slashes_end(strip_slashes_start(v@)) == strip_slashes_end(
                v@.subrange(lo as int, hi as int),
            ),
        decreases hi - lo,
    {
        assert(v@.subrange(lo as int, hi as int).drop_last() =~= v@.subrange(lo as int, hi - 1));
        hi = hi - 1;
    }
    let inner = crate::strs::sub_chars(&v, lo, hi);
    let pieces = crate::saml::split_all(&inner, '/');
    let mut r: Vec<String> = Vec::new();
    let mut i: usize = 0;
    while i < pieces.len()
        invariant
            i <= pieces.len(),
            r@.map_values(|s: String| s@) == pieces@.map_values(|p: Vec<char>| p@).take(i as int),
        decreases pieces.len() - i,
    {
        let ghost before = r@;
        let s = crate::strs::string_of(&pieces[i]);
        r.push(s);
        assert(r@.map_values(|s: String| s@) =~= before.map_values(|s: String| s@).push(s@));
        assert(pieces@.map_values(|p: Vec<char>| p@).take(i + 1) =~= pieces@.map_values(
            |p: Vec<char>| p@,
        ).take(i as int).push(pieces@[i as int]@));
        i = i + 1;
    }
    assert(pieces@.map_values(|p: Vec<char>| p@).take(pieces.len() as int) =~= pieces@.map_values(
        |p: Vec<char>| p@,
    ));
    Some(r)
}

/// Whether a folder's name is `part`.
pub open spec fn named(name: Option<String>, part: Seq<char>) -> bool {
    name matches Some(n) && n@ == part
}

/// The first subfolder called `part`.
pub open spec fn is_first_named(names: Seq<Option<String>>, part: Seq<char>, i: int) -> bool {
    &&& 0 <= i < names.len()
    &&& named(names[i], part)
    &&& forall|j: int| 0 <= j < i ==> !named(#[trigger] names[j], part)
}

/// The position of the first subfolder called `part`, if any.
pub fn find_folder(names: &Vec<Option<String>>, part: &str) -> (r: Option<usize>)
    ensures
        match r {
            Some(i) => is_first_named(names@, part@, i as int),
            None => forall|j: int| 0 <= j < names@.len() ==> !named(#[trigger] names@[j], part@),
        },
{
    let mut i: usize = 0;
    while i < names.len()
        invariant
            i <= names.len(),
            forall|j: int| 0 <= j < i ==> !named(#[trigger] names@[j], part@),
        decreases names.len() - i,
    {
        if let Some(n) = &names[i] {
            if crate::strs::str_eq(n.as_str(), part) {
                return Some(i);
            }
        }
        i = i + 1;
    }
    None
}

/// The error of a path step whose folder has no id.
pub fn no_folder_id_error() -> (r: String)
    ensures
        r@ == "Folder has no ID"@,
{
    crate::strs::owned("Folder has no ID")
}

/// The error of a path step naming no subfolder.
pub fn folder_not_found_error(part: &str) -> (r: String)
    ensures
        r@ == "Folder not found: "@ + part@,
{
    let mut r = crate::strs::owned("Folder not found: ");
    crate::strs::push_str(&mut r, part);
    r
}

// ───────────────────────────── searching and picking ─────────────────────────────

/// Canvas rejects searches of fewer than three bytes.
pub fn check_search_query(query: &str) -> (r: Result<(), String>)
    ensures
        r is Ok <==> byte_len(query@) >= 3,
        r matches Err(e) ==> e@ == "search query too short (Canvas requires at least 3 bytes)"@,
{
    if crate::views::byte_count_of(query) < 3 {
        Err(crate::strs::owned("search query too short (Canvas requires at least 3 bytes)"))
    } else {
        Ok(())
    }
}

/// Whether a file target is a file id (a number) rather than a name.
pub fn is_file_id(target: &str) -> (b: bool)
    ensures
        b == crate::num::spec_parse_i64(target@) is Some,
{
    crate::num::parse_i64(target).is_some()
}

/// A file's display name and file name, matched against a target name.
pub open spec fn names_match(f: (Option<String>, Option<String>), target: Seq<char>) -> bool {
    ||| (f.0 matches Some(d) && d@ == target)
    ||| (f.1 matches Some(n) && n@ == target)
}

/// The first file of a search whose display name or file name is exactly
/// `target`; an error naming the target when there is none.
pub fn pick_file(files: &Vec<(Option<String>, Option<String>)>, target: &str) -> (r: Result<
    usize,
    String,
>)
    ensures
        match r {
            Ok(i) => i < files@.len() && names_match(files@[i as int], target@) && forall|j: int|
                0 <= j < i ==> !names_match(#[trigger] files@[j], target@),
            Err(e) => e@ == "File not found: "@ + target@ && forall|j: int|
                0 <= j < files@.len() ==> !names_match(#[trigger] files@[j], target@),
        },
{
    let mut i: usize = 0;
    while i < files.len()
        invariant
            i <= files.len(),
            forall|j: int| 0 <= j < i ==> !names_match(#[trigger] files@[j], target@),
        decreases files.len() - i,
    {
        let hit_display = match &files[i].0 {
            Some(d) => crate::strs::str_eq(d.as_str(), target),
            None => false,
        };
        let hit_name = match &files[i].1 {
            Some(n) => crate::strs::str_eq(n.as_str(), target),
            None => false,
        };
        if hit_display || hit_name {
            return Ok(i);
        }
        i = i + 1;
    }
    let mut e = crate::strs::owned("File not found: ");
    crate::strs::push_str(&mut e, target);
    Err(e)
}

/// The local name of a download without a destination: the file's display
/// name, else `download`.
pub fn default_download_name(display_name: &Option<String>) -> (r: String)
    ensures
        r@ == text_or(*display_name, "download"@),
{
    match display_name {
        Some(d) => d.clone(),
        None => crate::strs::owned("download"),
    }
}

// ───────────────────────────── uploads ─────────────────────────────

/// What Canvas answers to an upload request: where to send the file, the
/// form fields to send with it, and the name of the file field.
#[derive(Debug, Clone)]
pub struct UploadToken {
    pub upload_url: String,
    pub upload_params: Vec<(String, String)>,
    pub file_param: Option<String>,
}

/// The name of the form field that carries the file (`file` unless Canvas
/// names another).
pub fn upload_file_field(token: &UploadToken) -> (r: String)
    ensures
        r@ == text_or(token.file_param, "file"@),
{
    match &token.file_param {
        Some(p) => p.clone(),
        None => crate::strs::owned("file"),
    }
}

/// The JSON of an upload's answer: the body without the `while(1);` guard
/// Canvas may put in front of it.
pub open spec fn unguarded(body: Seq<char>) -> Seq<char> {
    let guard = "while(1);"@;
    if body.len() >= guard.len() && body.take(guard.len() as int) == guard {
        body.skip(guard.len() as int)
    } else {
        body
    }
}

/// The JSON of an upload's answer (see `unguarded`).
pub fn upload_json(body: &str) -> (r: String)
    ensures
        r@ == unguarded(body@),
{
    let v = crate::strs::chars_of(body);
    let g = crate::strs::chars_of("while(1);");
    if crate::strs::starts_with_chars(&v, &g) {
        let r = crate::strs::string_of_range(&v, g.len(), v.len());
        proof {
            assert(v@.subrange(g@.len() as int, v@.len() as int) =~= v@.skip(g@.len() as int));
        }
        r
    } else {
        crate::strs::owned(body)
    }
}

} // verus!
