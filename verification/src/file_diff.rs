//! Decisions behind fetching both sides' full text of one file: path
//! validation, where each side is read from, existence/size probes, the
//! submodule/symlink special cases, the size guard and the binary check.

use vstd::prelude::*;

use crate::parse::{nul_tokens, split_nul};
use crate::process::{stderr_trimmed, stdout_trimmed, GitOutput};
use crate::summary::{looks_binary, looks_binary_spec, MAX_FILE_DIFF_BYTES};
use crate::text::{
    chars_of, concat3, contains_seq, contains_str, decode_lossy, parse_u64,
    parse_u64_spec, pieces, split_pieces, string_from_chars, trimmed_text, utf8_lossy, Splitter,
};
use crate::types::{CompareMode, FileContents, FileContentsView, SourceScope};

verus! {

// ---------------------------------------------------------------------------
// path validation
/// The path conventions of the platform the library runs on.
#[derive(Debug, Clone, Copy, PartialEq, Eq, Structural)]
pub enum PathStyle {
    /// `/` separates components and roots a path.
    Unix,
    /// `/` and `\` separate components and root a path, and a drive
    /// letter (`C:`) prefixes one.
    Windows,
}

/// A component separator.
pub open spec fn is_separator(style: PathStyle, c: char) -> bool {
    c == '/' || (style == PathStyle::Windows && c == '\\')
}

/// A `..` component of the path `p` starting at index `i`.
pub open spec fn parent_component_at(style: PathStyle, p: Seq<char>, i: int) -> bool {
    0 <= i && i + 2 <= p.len() && p[i] == '.' && p[i + 1] == '.' && (i == 0 || is_separator(
        style,
        p[i - 1],
    )) && (i + 2 == p.len() || is_separator(style, p[i + 2]))
}

/// A `..` component somewhere in the path `p`.
pub open spec fn has_parent_component(style: PathStyle, p: Seq<char>) -> bool {
    exists|i: int| #[trigger] parent_component_at(style, p, i)
}

/// A drive prefix (`C:`) on Windows: an ASCII letter followed by `:`.
pub open spec fn has_drive_prefix(style: PathStyle, p: Seq<char>) -> bool {
    &&& style == PathStyle::Windows
    &&& p.len() >= 2
    &&& p[1] == ':'
    &&& (('a' <= p[0] && p[0] <= 'z') || ('A' <= p[0] && p[0] <= 'Z'))
}

/// The check of a path-shaped input: non-empty, free of NUL, and
/// repository-relative with no traversal: no root, no drive prefix, no
/// `..` component.
pub open spec fn relative_path_check(style: PathStyle, p: Seq<char>) -> Result<(), Seq<char>> {
    if p.len() == 0 {
        Err("path must not be empty"@)
    } else if p.contains('\0') {
        Err("path must not contain a NUL byte"@)
    } else if is_separator(style, p[0]) || has_drive_prefix(style, p) || has_parent_component(
        style,
        p,
    ) {
        Err("path must be repository-relative with no traversal: '"@ + p + "'"@)
    } else {
        Ok(())
    }
}

fn separator(style: PathStyle, c: char) -> (res: bool)
    ensures
        res == is_separator(style, c),
{
    c == '/' || (style == PathStyle::Windows && c == '\\')
}

/// Rejects empty paths, NUL bytes, rooted or drive-prefixed paths and `..`
/// traversal, by the conventions of `style`.
pub fn validate_repo_relative_path(path: &str, style: PathStyle) -> (res: Result<(), String>)
    ensures
        match (res, relative_path_check(style, path@)) {
            (Ok(_), Ok(_)) => true,
            (Err(a), Err(b)) => a@ == b,
            _ => false,
        },
{
    let cs = chars_of(path);
    let n = cs.len();
    if n == 0 {
        return Err(String::from_str("path must not be empty"));
    }
    let mut i: usize = 0;
    while i < n
        invariant
            n == cs@.len(),
            cs@ == path@,
            i <= n,
            forall|k: int| 0 <= k < i ==> cs@[k] != '\0',
        decreases n - i,
    {
        if cs[i] == '\0' {
            assert(path@.contains('\0')) by {
                assert(path@[i as int] == '\0');
            }
            return Err(String::from_str("path must not contain a NUL byte"));
        }
        i += 1;
    }
    assert(!path@.contains('\0'));
    let traversal = concat3("path must be repository-relative with no traversal: '", path, "'");
    if separator(style, cs[0]) {
        return Err(traversal);
    }
    if style == PathStyle::Windows && n >= 2 && cs[1] == ':' && (('a' <= cs[0] && cs[0] <= 'z') || (
    'A' <= cs[0] && cs[0] <= 'Z')) {
        return Err(traversal);
    }
    assert(!has_drive_prefix(style, path@));
    let mut j: usize = 0;
    while j < n - 1
        invariant
            n == cs@.len(),
            n > 0,
            cs@ == path@,
            !path@.contains('\0'),
            traversal@ == "path must be repository-relative with no traversal: '"@ + path@ + "'"@,
            j <= n,
            forall|k: int| 0 <= k < j ==> !#[trigger] parent_component_at(style, path@, k),
        decreases n - j,
    {
        if cs[j] == '.' && cs[j + 1] == '.' && (j == 0 || separator(style, cs[j - 1])) && (j + 2 == n
            || separator(style, cs[j + 2])) {
            assert(parent_component_at(style, path@, j as int));
            return Err(traversal);
        }
        j += 1;
    }
    assert(!has_parent_component(style, path@)) by {
        assert forall|k: int| !#[trigger] parent_component_at(style, path@, k) by {
            if 0 <= k && k + 2 <= n {
                assert(k < j);
            }
        }
    }
    Ok(())
}

// ---------------------------------------------------------------------------
// where each side comes from
/// Where to read one side's full text from.
#[derive(Debug, Clone, PartialEq, Eq)]
pub enum Side {
    /// A git object: `rev` is a commit-ish, or empty for stage 0 of the
    /// index (`:<path>`).
    Blob { rev: String, path: String },
    /// A working-tree path, relative to the repository root and already
    /// validated to stay inside it.
    WorkingTree(String),
}

/// Mathematical model of a [`Side`].
pub enum SideView {
    Blob { rev: Seq<char>, path: Seq<char> },
    WorkingTree(Seq<char>),
}

impl View for Side {
    type V = SideView;

    open spec fn view(&self) -> SideView {
        match self {
            Side::Blob { rev, path } => SideView::Blob { rev: rev@, path: path@ },
            Side::WorkingTree(p) => SideView::WorkingTree(p@),
        }
    }
}

impl Side {
    /// `<rev>:<path>` (or `:<path>` when `rev` is empty, index stage 0).
    pub fn blob_spec(rev: &str, path: &str) -> (res: String)
        ensures
            res@ == rev@ + ":"@ + path@,
    {
        concat3(rev, ":", path)
    }
}

/// The revision the base side is read at: the merge base (an error when
/// there is none) or the target tip in tips mode.
pub fn file_diff_base(mode: CompareMode, target: &String, merge_base: Option<String>) -> (res: Result<
    String,
    String,
>)
    ensures
        mode == CompareMode::Tips ==> (res matches Ok(t) && t@ == target@),
        mode == CompareMode::MergeBase ==> match merge_base {
            Some(m) => res == Ok::<String, String>(m),
            None => res matches Err(e) && e@
                == "no merge base found between target and source (unrelated histories?)"@,
        },
{
    match mode {
        CompareMode::MergeBase => match merge_base {
            Some(m) => Ok(m),
            None => Err(
                String::from_str(
                    "no merge base found between target and source (unrelated histories?)",
                ),
            ),
        },
        CompareMode::Tips => Ok(target.clone()),
    }
}

/// The two sides of one file: the base side at `base_rev`, under the old
/// path for a rename; the head side at `source` (committed), in the index
/// (staged) or in the working tree (unstaged).
pub open spec fn sides_spec(
    scope: SourceScope,
    base_rev: Seq<char>,
    source: Seq<char>,
    path: Seq<char>,
    old_path: Option<Seq<char>>,
) -> (SideView, SideView) {
    let base = SideView::Blob {
        rev: base_rev,
        path: match old_path {
            Some(p) => p,
            None => path,
        },
    };
    let head = match scope {
        SourceScope::Committed => SideView::Blob { rev: source, path: path },
        SourceScope::Staged => SideView::Blob { rev: seq![], path: path },
        SourceScope::Unstaged => SideView::WorkingTree(path),
    };
    (base, head)
}

/// Where the base and head sides of `path` are read from.
pub fn file_diff_sides(
    scope: SourceScope,
    base_rev: String,
    source: String,
    path: &str,
    old_path: Option<String>,
) -> (res: (Side, Side))
    ensures
        (res.0@, res.1@) == sides_spec(scope, base_rev@, source@, path@, old_path.deep_view()),
{
    let base_path = match old_path {
        Some(p) => p,
        None => String::from_str(path),
    };
    let base = Side::Blob { rev: base_rev, path: base_path };
    let head = match scope {
        SourceScope::Committed => Side::Blob { rev: source, path: String::from_str(path) },
        SourceScope::Staged => Side::Blob { rev: String::new(), path: String::from_str(path) },
        SourceScope::Unstaged => Side::WorkingTree(String::from_str(path)),
    };
    (base, head)
}

// ---------------------------------------------------------------------------
// blob probes
/// Outcome of an existence/size probe of one blob side.
#[derive(Debug, Clone, Copy, PartialEq, Eq, Structural)]
pub enum Probe {
    /// The path does not exist at that revision / in the index.
    Missing,
    Size(u64),
}

/// Stderr texts meaning "this path does not exist there" rather than a
/// genuine failure.
pub open spec fn is_missing_path_text(stderr: Seq<char>) -> bool {
    contains_seq(stderr, "does not exist"@) || contains_seq(stderr, "exists on disk, but not"@)
}

/// Whether git's stderr says the path does not exist at that revision.
pub fn is_missing_path_error(stderr: &str) -> (res: bool)
    ensures
        res == is_missing_path_text(stderr@),
{
    contains_str(stderr, "does not exist") || contains_str(stderr, "exists on disk, but not")
}

/// Interprets `git cat-file -s <spec>`: the blob's size, `Missing` when
/// git reports the path absent, an error otherwise.
pub open spec fn probe_spec(output: GitOutput, spec: Seq<char>) -> Result<Probe, Seq<char>> {
    let out = trimmed_text(output.stdout@);
    let err = trimmed_text(output.stderr@);
    if output.success {
        match parse_u64_spec(out) {
            Some(n) => Ok(Probe::Size(n)),
            None => Err("unexpected `git cat-file -s` output: '"@ + out + "'"@),
        }
    } else if is_missing_path_text(err) {
        Ok(Probe::Missing)
    } else {
        Err("git cat-file -s "@ + spec + " failed: "@ + err)
    }
}

/// Probes existence and size of one blob side from the output of
/// `git cat-file -s <spec>`.
pub fn probe_blob(output: &GitOutput, spec: &str) -> (res: Result<Probe, String>)
    ensures
        match (res, probe_spec(*output, spec@)) {
            (Ok(a), Ok(b)) => a == b,
            (Err(a), Err(b)) => a@ == b,
            _ => false,
        },
{
    if output.success {
        let stdout = stdout_trimmed(output);
        let cs = chars_of(stdout.as_str());
        match parse_u64(cs.as_slice()) {
            Some(n) => Ok(Probe::Size(n)),
            None => Err(concat3("unexpected `git cat-file -s` output: '", stdout.as_str(), "'")),
        }
    } else {
        let err = stderr_trimmed(output);
        if is_missing_path_error(err.as_str()) {
            Ok(Probe::Missing)
        } else {
            let mut e = String::from_str("git cat-file -s ");
            e.append(spec);
            e.append(" failed: ");
            e.append(err.as_str());
            Err(e)
        }
    }
}

/// Whether a side of `size` bytes trips the size guard (`force` disables
/// it).
pub fn exceeds_size_guard(size: u64, force: bool) -> (res: bool)
    ensures
        res == (!force && size > MAX_FILE_DIFF_BYTES),
{
    !force && size > MAX_FILE_DIFF_BYTES
}

/// The bytes of `git show <spec>`, or git's error.
pub fn shown_blob(output: GitOutput, spec: &str) -> (res: Result<Vec<u8>, String>)
    ensures
        output.success ==> (res matches Ok(b) && b@ == output.stdout@),
        !output.success ==> (res matches Err(e) && e@ == "git show "@ + spec@ + " failed: "@
            + trimmed_text(output.stderr@)),
{
    if output.success {
        Ok(output.stdout)
    } else {
        let mut e = String::from_str("git show ");
        e.append(spec);
        e.append(" failed: ");
        e.append(stderr_trimmed(&output).as_str());
        Err(e)
    }
}

// ---------------------------------------------------------------------------
// modes
/// Mode and object id of a path at a revision (or in the index), parsed
/// from `git ls-tree -z <rev> -- <path>` (`<mode> <type> <sha>\t<path>`)
/// or `git ls-files -s -z -- <path>` (`<mode> <sha> <stage>\t<path>`).
pub open spec fn mode_lookup_spec(output: GitOutput, rev: Seq<char>, path: Seq<char>) -> Result<
    Option<(Seq<char>, Seq<char>)>,
    Seq<char>,
> {
    if !output.success {
        Err("failed to look up mode for '"@ + path + "' at '"@ + (if rev.len() == 0 {
            "<index>"@
        } else {
            rev
        }) + "': "@ + trimmed_text(output.stderr@))
    } else {
        let t = nul_tokens(output.stdout@);
        if t.len() == 0 {
            Ok(None)
        } else {
            let first = t[0];
            let meta = match crate::parse::first_index(first, '\t') {
                Some(i) => first.take(i),
                None => first,
            };
            let words = pieces(Splitter::Whitespace, meta);
            if words.len() == 0 {
                Ok(None)
            } else {
                let k = if rev.len() == 0 {
                    1int
                } else {
                    2int
                };
                Ok(Some((words[0], if k < words.len() { words[k] } else { "unknown"@ })))
            }
        }
    }
}

/// Looks up `(mode, object id)` of `path` at `rev`, or at index stage 0
/// when `rev` is empty; `Ok(None)` when the path does not exist there.
pub fn lookup_mode(output: &GitOutput, rev: &str, path: &str) -> (res: Result<
    Option<(String, String)>,
    String,
>)
    ensures
        match (res, mode_lookup_spec(*output, rev@, path@)) {
            (Ok(None), Ok(None)) => true,
            (Ok(Some((m, s))), Ok(Some((m2, s2)))) => m@ == m2 && s@ == s2,
            (Err(a), Err(b)) => a@ == b,
            _ => false,
        },
{
    if !output.success {
        let mut e = String::from_str("failed to look up mode for '");
        e.append(path);
        e.append("' at '");
        if rev.is_empty() {
            e.append("<index>");
        } else {
            e.append(rev);
        }
        e.append("': ");
        e.append(stderr_trimmed(output).as_str());
        return Err(e);
    }
    let tokens = split_nul(output.stdout.as_slice());
    if tokens.len() == 0 {
        return Ok(None);
    }
    let first = chars_of(tokens[0].as_str());
    assert(first@ == nul_tokens(output.stdout@)[0]);
    let meta_len = match crate::parse::find_char(first.as_slice(), '\t') {
        Some(i) => i,
        None => first.len(),
    };
    let meta = &first.as_slice()[0..meta_len];
    assert(meta@ =~= match crate::parse::first_index(first@, '\t') {
        Some(i) => first@.take(i),
        None => first@,
    });
    let words = split_pieces(Splitter::Whitespace, meta);
    if words.len() == 0 {
        return Ok(None);
    }
    let k: usize = if rev.is_empty() {
        1
    } else {
        2
    };
    assert(words.deep_view()[0] =~= words@[0]@);
    let mode = string_from_chars(words[0].as_slice());
    let sha = if k < words.len() {
        assert(words.deep_view()[k as int] =~= words@[k as int]@);
        string_from_chars(words[k].as_slice())
    } else {
        String::from_str("unknown")
    };
    Ok(Some((mode, sha)))
}

/// A non-regular-file mode of one side: submodules and symlinks are shown
/// differently from ordinary files.
#[derive(Debug, Clone, PartialEq, Eq)]
pub enum SpecialMode {
    Normal,
    /// Mode `120000`.
    Symlink,
    /// Mode `160000` (gitlink), with the commit when it is known.
    Submodule(Option<String>),
}

/// Mathematical model of a [`SpecialMode`].
pub enum SpecialModeView {
    Normal,
    Symlink,
    Submodule(Option<Seq<char>>),
}

impl View for SpecialMode {
    type V = SpecialModeView;

    open spec fn view(&self) -> SpecialModeView {
        match self {
            SpecialMode::Normal => SpecialModeView::Normal,
            SpecialMode::Symlink => SpecialModeView::Symlink,
            SpecialMode::Submodule(s) => SpecialModeView::Submodule(s.deep_view()),
        }
    }
}

/// The special mode of a blob side from its looked-up mode and object id.
pub open spec fn blob_mode_spec(lookup: Option<(Seq<char>, Seq<char>)>) -> SpecialModeView {
    match lookup {
        Some((mode, sha)) => if mode == "160000"@ {
            SpecialModeView::Submodule(Some(sha))
        } else if mode == "120000"@ {
            SpecialModeView::Symlink
        } else {
            SpecialModeView::Normal
        },
        None => SpecialModeView::Normal,
    }
}

/// Classifies a blob side by the mode [`lookup_mode`] found.
pub fn blob_special_mode(lookup: Option<(String, String)>) -> (res: SpecialMode)
    ensures
        res@ == blob_mode_spec(match lookup {
            Some((m, s)) => Some((m@, s@)),
            None => None,
        }),
{
    match lookup {
        Some((mode, sha)) => {
            if mode == String::from_str("160000") {
                SpecialMode::Submodule(Some(sha))
            } else if mode == String::from_str("120000") {
                SpecialMode::Symlink
            } else {
                SpecialMode::Normal
            }
        },
        None => SpecialMode::Normal,
    }
}

/// The note for a file: `submodule` when either side is one (the more
/// specific annotation wins), else `symlink` when either side is one.
pub open spec fn note_spec(base: SpecialModeView, head: SpecialModeView) -> Option<Seq<char>> {
    if base is Submodule || head is Submodule {
        Some("submodule"@)
    } else if base is Symlink || head is Symlink {
        Some("symlink"@)
    } else {
        None
    }
}

/// The note shown with a file's two sides.
pub fn special_note(base: &SpecialMode, head: &SpecialMode) -> (res: Option<String>)
    ensures
        res.deep_view() == note_spec(base@, head@),
{
    let base_sub = match base {
        SpecialMode::Submodule(_) => true,
        _ => false,
    };
    let head_sub = match head {
        SpecialMode::Submodule(_) => true,
        _ => false,
    };
    if base_sub || head_sub {
        return Some(String::from_str("submodule"));
    }
    let base_link = match base {
        SpecialMode::Symlink => true,
        _ => false,
    };
    let head_link = match head {
        SpecialMode::Symlink => true,
        _ => false,
    };
    if base_link || head_link {
        Some(String::from_str("symlink"))
    } else {
        None
    }
}

/// The synthesized content of a submodule side: `Subproject commit
/// <sha>\n`, with `unknown` for an unknown commit.
pub open spec fn submodule_text(sha: Option<Seq<char>>) -> Seq<char> {
    "Subproject commit "@ + (match sha {
        Some(s) => s,
        None => "unknown"@,
    }) + "\n"@
}

/// The content of a submodule side, as UTF-8 bytes.
pub fn submodule_content(sha: &Option<String>) -> (res: Vec<u8>)
    ensures
        res@ == vstd::utf8::encode_utf8(submodule_text(sha.deep_view())),
{
    let text = match sha {
        Some(s) => concat3("Subproject commit ", s.as_str(), "\n"),
        None => String::from_str("Subproject commit unknown\n"),
    };
    proof {
        if sha.is_none() {
            reveal_strlit("Subproject commit unknown\n");
            reveal_strlit("Subproject commit ");
            reveal_strlit("unknown");
            reveal_strlit("\n");
            assert(text@ =~= submodule_text(sha.deep_view()));
        }
    }
    vstd::slice::slice_to_vec(text.as_str().as_bytes())
}

// ---------------------------------------------------------------------------
// assembling the two sides
/// One side's content after reading: absent, bytes, or over the size
/// guard (with its size).
#[derive(Debug, Clone, PartialEq, Eq)]
pub enum ResolvedSide {
    Missing,
    Bytes(Vec<u8>),
    TooLarge(u64),
}

/// Mathematical model of a [`ResolvedSide`].
pub enum ResolvedView {
    Missing,
    Bytes(Seq<u8>),
    TooLarge(u64),
}

impl View for ResolvedSide {
    type V = ResolvedView;

    open spec fn view(&self) -> ResolvedView {
        match self {
            ResolvedSide::Missing => ResolvedView::Missing,
            ResolvedSide::Bytes(b) => ResolvedView::Bytes(b@),
            ResolvedSide::TooLarge(n) => ResolvedView::TooLarge(*n),
        }
    }
}

/// The larger of the oversized sides' sizes, if either side is oversized.
pub open spec fn too_large_size(base: ResolvedView, head: ResolvedView) -> Option<u64> {
    match (base, head) {
        (ResolvedView::TooLarge(a), ResolvedView::TooLarge(b)) => Some(if a >= b { a } else { b }),
        (ResolvedView::TooLarge(a), _) => Some(a),
        (_, ResolvedView::TooLarge(b)) => Some(b),
        _ => None,
    }
}

pub open spec fn side_bytes(r: ResolvedView) -> Option<Seq<u8>> {
    match r {
        ResolvedView::Bytes(b) => Some(b),
        _ => None,
    }
}

pub open spec fn side_looks_binary(r: ResolvedView) -> bool {
    match r {
        ResolvedView::Bytes(b) => looks_binary_spec(b),
        _ => false,
    }
}

pub open spec fn side_text(r: ResolvedView) -> Option<Seq<char>> {
    match r {
        ResolvedView::Bytes(b) => Some(utf8_lossy(b)),
        _ => None,
    }
}

/// One file's two sides: nothing but the size when a side is over the
/// size guard; nothing but the binary flag when a side looks binary;
/// otherwise both texts (lossy UTF-8), `None` for an absent side.
pub open spec fn file_contents_spec(
    path: Seq<char>,
    base: ResolvedView,
    head: ResolvedView,
    note: Option<Seq<char>>,
) -> FileContentsView {
    match too_large_size(base, head) {
        Some(size) => FileContentsView {
            path: path,
            base: None,
            head: None,
            is_binary: false,
            is_too_large: Some(true),
            size_bytes: Some(size),
            note: note,
        },
        None => if side_looks_binary(base) || side_looks_binary(head) {
            FileContentsView {
                path: path,
                base: None,
                head: None,
                is_binary: true,
                is_too_large: None,
                size_bytes: None,
                note: note,
            }
        } else {
            FileContentsView {
                path: path,
                base: side_text(base),
                head: side_text(head),
                is_binary: false,
                is_too_large: None,
                size_bytes: None,
                note: note,
            }
        },
    }
}

fn oversize(r: &ResolvedSide) -> (res: Option<u64>)
    ensures
        res == match r@ {
            ResolvedView::TooLarge(n) => Some(n),
            _ => None,
        },
{
    match r {
        ResolvedSide::TooLarge(n) => Some(*n),
        _ => None,
    }
}

fn binary_side(r: &ResolvedSide) -> (res: bool)
    ensures
        res == side_looks_binary(r@),
{
    match r {
        ResolvedSide::Bytes(b) => looks_binary(b.as_slice()),
        _ => false,
    }
}

fn text_side(r: ResolvedSide) -> (res: Option<String>)
    ensures
        res.deep_view() == side_text(r@),
{
    match r {
        ResolvedSide::Bytes(b) => Some(decode_lossy(b.as_slice())),
        _ => None,
    }
}

/// Assembles the result for one file from its two resolved sides.
pub fn file_contents(path: String, base: ResolvedSide, head: ResolvedSide, note: Option<String>) -> (res: FileContents)
    ensures
        res@ == file_contents_spec(path@, base@, head@, note.deep_view()),
{
    let too_large = match (oversize(&base), oversize(&head)) {
        (Some(a), Some(b)) => Some(if a >= b { a } else { b }),
        (Some(a), None) => Some(a),
        (None, Some(b)) => Some(b),
        (None, None) => None,
    };
    if let Some(size) = too_large {
        return FileContents {
            path,
            base: None,
            head: None,
            is_binary: false,
            is_too_large: Some(true),
            size_bytes: Some(size),
            note,
        };
    }
    if binary_side(&base) || binary_side(&head) {
        return FileContents {
            path,
            base: None,
            head: None,
            is_binary: true,
            is_too_large: None,
            size_bytes: None,
            note,
        };
    }
    FileContents {
        path,
        base: text_side(base),
        head: text_side(head),
        is_binary: false,
        is_too_large: None,
        size_bytes: None,
        note,
    }
}


/// The three outcomes exclude one another: an oversized file carries
/// neither text nor the binary flag, a binary file carries no text, and a
/// side that is absent has no text.
pub proof fn lemma_file_contents_outcomes(
    path: Seq<char>,
    base: ResolvedView,
    head: ResolvedView,
    note: Option<Seq<char>>,
)
    ensures
        ({
            let r = file_contents_spec(path, base, head, note);
            &&& r.path == path && r.note == note
            &&& r.is_too_large is Some ==> r.base is None && r.head is None && !r.is_binary
            &&& r.is_binary ==> r.base is None && r.head is None && r.is_too_large is None
            &&& base is Missing ==> r.base is None
            &&& head is Missing ==> r.head is None
            &&& (r.is_too_large is Some <==> (base is TooLarge || head is TooLarge))
        }),
{
}

} // verus!
