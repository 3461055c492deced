//! Decisions behind the diff summary of two branches: in-progress
//! operation warnings, the HEAD constraint on working-tree scopes, the
//! merge base, the `git diff` arguments, submodule reclassification,
//! untracked files and totals.

use vstd::prelude::*;

use crate::parse::{is_rename_or_copy, nul_tokens, prepend, split_nul};
use crate::process::{stderr_trimmed, stdout_trimmed, GitOutput};
use crate::text::{
    chars_of, concat2, pieces, split_pieces, string_from_chars, trimmed_text, Splitter,
};
use crate::types::{
    DiffFile, DiffFileStatus, DiffFileView, DiffOptions, DiffSummary, DiffTotals,
    SourceScope,
};

verus! {

/// Size guard threshold in bytes: larger files get no line count or text.
pub const MAX_FILE_DIFF_BYTES: u64 = 1_048_576;

/// Bytes inspected for a NUL byte to decide whether content is binary.
pub const BINARY_SNIFF_BYTES: usize = 8000;

/// Maximum number of untracked entries merged into the file list.
pub const UNTRACKED_LIMIT: usize = 100;

// ---------------------------------------------------------------------------
// merge / rebase in progress
/// The next step of detecting an in-progress merge or rebase.
#[derive(Debug, Clone, PartialEq, Eq)]
pub enum InProgressStep {
    /// Does `git rev-parse --git-path <name>` exist on disk?
    CheckPath(String),
    /// The warning to show, if any.
    Done(Option<String>),
}

/// Mathematical model of an [`InProgressStep`].
pub enum InProgressView {
    CheckPath(Seq<char>),
    Done(Option<Seq<char>>),
}

impl View for InProgressStep {
    type V = InProgressView;

    open spec fn view(&self) -> InProgressView {
        match self {
            InProgressStep::CheckPath(p) => InProgressView::CheckPath(p@),
            InProgressStep::Done(w) => InProgressView::Done(w.deep_view()),
        }
    }
}

pub open spec fn merge_in_progress_text() -> Seq<char> {
    "a merge is in progress in this repository (MERGE_HEAD present) — the diff, especially staged/unstaged scopes, may include unmerged/conflicted entries until it's resolved or aborted"@
}

pub open spec fn rebase_in_progress_text() -> Seq<char> {
    "a rebase is in progress in this repository — the diff, especially staged/unstaged scopes, may include unmerged/conflicted entries until it's resolved or aborted"@
}

/// The next step given the answers so far, in order, to "does
/// `MERGE_HEAD` exist?", "does `rebase-merge` exist?" and "does
/// `rebase-apply` exist?".
pub open spec fn in_progress_step(answers: Seq<bool>) -> InProgressView {
    if answers.len() == 0 {
        InProgressView::CheckPath("MERGE_HEAD"@)
    } else if answers[0] {
        InProgressView::Done(Some(merge_in_progress_text()))
    } else if answers.len() == 1 {
        InProgressView::CheckPath("rebase-merge"@)
    } else if answers[1] {
        InProgressView::Done(Some(rebase_in_progress_text()))
    } else if answers.len() == 2 {
        InProgressView::CheckPath("rebase-apply"@)
    } else if answers[2] {
        InProgressView::Done(Some(rebase_in_progress_text()))
    } else {
        InProgressView::Done(None)
    }
}

/// Detects a merge or rebase in progress from `MERGE_HEAD` /
/// `rebase-merge` / `rebase-apply` under the git directory. `answers`
/// holds the results of the path checks requested by earlier calls.
pub fn detect_in_progress_operation(answers: &[bool]) -> (res: InProgressStep)
    ensures
        res@ == in_progress_step(answers@),
{
    if answers.len() == 0 {
        return InProgressStep::CheckPath(String::from_str("MERGE_HEAD"));
    }
    if answers[0] {
        return InProgressStep::Done(
            Some(
                String::from_str(
                    "a merge is in progress in this repository (MERGE_HEAD present) — the diff, especially staged/unstaged scopes, may include unmerged/conflicted entries until it's resolved or aborted",
                ),
            ),
        );
    }
    if answers.len() == 1 {
        return InProgressStep::CheckPath(String::from_str("rebase-merge"));
    }
    if answers[1] {
        return InProgressStep::Done(Some(rebase_text()));
    }
    if answers.len() == 2 {
        return InProgressStep::CheckPath(String::from_str("rebase-apply"));
    }
    if answers[2] {
        return InProgressStep::Done(Some(rebase_text()));
    }
    InProgressStep::Done(None)
}

fn rebase_text() -> (res: String)
    ensures
        res@ == rebase_in_progress_text(),
{
    String::from_str(
        "a rebase is in progress in this repository — the diff, especially staged/unstaged scopes, may include unmerged/conflicted entries until it's resolved or aborted",
    )
}

/// Interprets `git rev-parse --git-path <name>`: the path whose existence
/// answers the check, none when git failed (the marker then counts as
/// absent).
pub fn git_path_exists(output: &GitOutput) -> (res: Option<String>)
    ensures
        output.success ==> (res matches Some(s) && s@ == trimmed_text(output.stdout@)),
        !output.success ==> res is None,
{
    if output.success {
        Some(stdout_trimmed(output))
    } else {
        None
    }
}

/// Detection needs at most three path checks.
pub proof fn lemma_in_progress_needs_at_most_three_checks(answers: Seq<bool>)
    requires
        answers.len() >= 3,
    ensures
        in_progress_step(answers) is Done,
{
}

/// Once detection is done, further answers do not change its outcome.
pub proof fn lemma_in_progress_outcome_is_stable(answers: Seq<bool>, more: Seq<bool>)
    requires
        in_progress_step(answers) is Done,
    ensures
        in_progress_step(answers + more) == in_progress_step(answers),
{
    let all = answers + more;
    assert forall|k: int| 0 <= k < answers.len() implies all[k] == answers[k] by {}
}

/// A merge in progress is reported as such, whatever else is present.
pub proof fn lemma_merge_reported_first(answers: Seq<bool>)
    requires
        answers.len() >= 1,
        answers[0],
    ensures
        in_progress_step(answers) == InProgressView::Done(Some(merge_in_progress_text())),
{
}

// ---------------------------------------------------------------------------
// HEAD constraint
/// The short name of the checked-out branch (`None` on a detached HEAD;
/// an unborn branch still has its name), from `git symbolic-ref --quiet
/// --short HEAD`.
pub fn symbolic_ref_short(output: &GitOutput) -> (res: Option<String>)
    ensures
        output.success ==> (res matches Some(s) && s@ == trimmed_text(output.stdout@)),
        !output.success ==> res is None,
{
    if output.success {
        Some(stdout_trimmed(output))
    } else {
        None
    }
}

/// Whether the fully-qualified `source` is the checked-out branch; a
/// detached HEAD (`None`) never matches.
pub open spec fn source_is_head(source: Seq<char>, current_branch: Option<Seq<char>>) -> bool {
    match current_branch {
        None => false,
        Some(b) => source == "refs/heads/"@ + b,
    }
}

/// Whether `source` (already fully qualified) refers to the checked-out
/// branch.
pub fn source_matches_head(source: &str, current_branch: Option<&String>) -> (res: bool)
    ensures
        res == source_is_head(source@, current_branch.deep_view()),
{
    match current_branch {
        None => false,
        Some(branch) => {
            let full = concat2("refs/heads/", branch.as_str());
            let s = String::from_str(source);
            s == full
        },
    }
}

pub open spec fn scope_fallback_warning(source_raw: Seq<char>, current_branch: Option<Seq<char>>) -> Seq<char> {
    "source \""@ + source_raw + "\" is not the checked-out branch (HEAD is "@ + (match current_branch {
        Some(b) => b,
        None => "detached"@,
    }) + ") — scope fixed to committed"@
}

/// The scope actually used: `staged`/`unstaged` exist only in the working
/// tree of the checked-out branch, so for any other source they fall back
/// to `committed`, with a warning naming the requested source.
pub fn effective_scope(
    requested: SourceScope,
    source: &str,
    source_raw: &str,
    current_branch: Option<String>,
) -> (res: (SourceScope, Option<String>))
    ensures
        requested == SourceScope::Committed ==> res.0 == SourceScope::Committed && res.1 is None,
        requested != SourceScope::Committed && source_is_head(source@, current_branch.deep_view())
            ==> res.0 == requested && res.1 is None,
        requested != SourceScope::Committed && !source_is_head(source@, current_branch.deep_view())
            ==> res.0 == SourceScope::Committed && res.1.deep_view() == Some(
            scope_fallback_warning(source_raw@, current_branch.deep_view()),
        ),
{
    if requested == SourceScope::Committed {
        return (SourceScope::Committed, None);
    }
    if source_matches_head(source, current_branch.as_ref()) {
        return (requested, None);
    }
    let head = match current_branch {
        Some(b) => b,
        None => String::from_str("detached"),
    };
    let mut w = String::from_str("source \"");
    w.append(source_raw);
    w.append("\" is not the checked-out branch (HEAD is ");
    w.append(head.as_str());
    w.append(") — scope fixed to committed");
    (SourceScope::Committed, Some(w))
}

// ---------------------------------------------------------------------------
// merge base
pub open spec fn no_merge_base_text() -> Seq<char> {
    "no merge base found between target and source (unrelated histories?)"@
}

pub open spec fn multiple_merge_bases_text() -> Seq<char> {
    "multiple merge bases found (criss-cross merge); using the first one"@
}

/// The non-empty lines of the trimmed stdout of `git merge-base --all`.
pub open spec fn merge_base_lines(output: GitOutput) -> Seq<Seq<char>> {
    pieces(Splitter::Lines, trimmed_text(output.stdout@))
}

/// Result of `git merge-base --all <target> <source>`: the first merge
/// base, `None` for unrelated histories; plus the warning to record.
pub open spec fn merge_base_outcome(output: GitOutput) -> (Result<Option<Seq<char>>, Seq<char>>, Option<Seq<char>>) {
    let lines = merge_base_lines(output);
    if !output.success {
        if lines.len() == 0 {
            (Ok(None), Some(no_merge_base_text()))
        } else {
            (Err("git merge-base failed: "@ + trimmed_text(output.stderr@)), None)
        }
    } else if lines.len() == 0 {
        (Ok(None), Some(no_merge_base_text()))
    } else if lines.len() == 1 {
        (Ok(Some(lines[0])), None)
    } else {
        (Ok(Some(lines[0])), Some(multiple_merge_bases_text()))
    }
}

/// Interprets `git merge-base --all`: takes the first line when several
/// merge bases exist (recording a warning); `Ok(None)` means no merge base
/// (unrelated histories), which is a warning rather than an error.
pub fn compute_merge_base(output: &GitOutput, warnings: &mut Vec<String>) -> (res: Result<
    Option<String>,
    String,
>)
    ensures
        ({
            let (r, w) = merge_base_outcome(*output);
            &&& match (res, r) {
                (Ok(a), Ok(b)) => a.deep_view() == b,
                (Err(a), Err(b)) => a@ == b,
                _ => false,
            }
            &&& match w {
                Some(t) => final(warnings).deep_view() == old(warnings).deep_view().push(t),
                None => final(warnings).deep_view() == old(warnings).deep_view(),
            }
        }),
{
    let stdout = stdout_trimmed(output);
    let cs = chars_of(stdout.as_str());
    let lines = split_pieces(Splitter::Lines, cs.as_slice());
    let ghost before = warnings.deep_view();
    if !output.success {
        if lines.len() == 0 {
            warnings.push(no_merge_base());
            assert(warnings.deep_view() =~= before.push(no_merge_base_text()));
            return Ok(None);
        }
        return Err(concat2("git merge-base failed: ", stderr_trimmed(output).as_str()));
    }
    if lines.len() == 0 {
        warnings.push(no_merge_base());
        assert(warnings.deep_view() =~= before.push(no_merge_base_text()));
        return Ok(None);
    }
    let first = string_from_chars(lines[0].as_slice());
    assert(lines[0].deep_view() =~= lines[0]@);
    if lines.len() > 1 {
        warnings.push(
            String::from_str("multiple merge bases found (criss-cross merge); using the first one"),
        );
        assert(warnings.deep_view() =~= before.push(multiple_merge_bases_text()));
    }
    Ok(Some(first))
}

fn no_merge_base() -> (res: String)
    ensures
        res@ == no_merge_base_text(),
{
    String::from_str("no merge base found between target and source (unrelated histories?)")
}

/// Abbreviated form of a commit from `git rev-parse --short <sha>`.
pub fn short_sha(output: &GitOutput, sha: &str) -> (res: Result<String, String>)
    ensures
        output.success ==> (res matches Ok(s) && s@ == trimmed_text(output.stdout@)),
        !output.success ==> (res matches Err(e) && e@ == "failed to abbreviate '"@ + sha@ + "': "@
            + trimmed_text(output.stderr@)),
{
    if output.success {
        Ok(stdout_trimmed(output))
    } else {
        let mut e = String::from_str("failed to abbreviate '");
        e.append(sha);
        e.append("': ");
        e.append(stderr_trimmed(output).as_str());
        Err(e)
    }
}

// ---------------------------------------------------------------------------
// diff arguments
/// Whether whitespace-only changes are hidden: on unless turned off.
pub fn hide_whitespace(options: &DiffOptions) -> (res: bool)
    ensures
        res == match options.ignore_whitespace {
            Some(b) => b,
            None => true,
        },
{
    match options.ignore_whitespace {
        Some(b) => b,
        None => true,
    }
}

/// The per-scope `git diff` operands placed before `--`.
pub open spec fn scope_args_spec(scope: SourceScope, base_rev: Seq<char>, source: Seq<char>) -> Seq<Seq<char>> {
    match scope {
        SourceScope::Committed => seq![base_rev, source],
        SourceScope::Staged => seq!["--cached"@, base_rev],
        SourceScope::Unstaged => seq![base_rev],
    }
}

/// Builds the diff operands for a scope: `<base> <source>` (committed),
/// `--cached <base>` (staged), `<base>` (unstaged, against the working
/// tree).
pub fn scope_diff_args(scope: SourceScope, base_rev: &str, source: &str) -> (res: Vec<String>)
    ensures
        res.deep_view() == scope_args_spec(scope, base_rev@, source@),
{
    let v = match scope {
        SourceScope::Committed => vec![String::from_str(base_rev), String::from_str(source)],
        SourceScope::Staged => vec![String::from_str("--cached"), String::from_str(base_rev)],
        SourceScope::Unstaged => vec![String::from_str(base_rev)],
    };
    assert(v.deep_view() =~= scope_args_spec(scope, base_rev@, source@));
    v
}

/// The full argument list of one `git diff` run: quoting and fsmonitor
/// off, the common flags, `-w` when hiding whitespace, the stat flag, the
/// scope operands and a closing `--`.
pub open spec fn diff_args_spec(stat_flag: Seq<char>, scope_args: Seq<Seq<char>>, ignore_whitespace: bool) -> Seq<Seq<char>> {
    seq![
        "-c"@,
        "core.quotepath=false"@,
        "-c"@,
        "core.fsmonitor=false"@,
        "diff"@,
        "--no-color"@,
        "--no-ext-diff"@,
        "-M"@,
        "-z"@,
    ] + (if ignore_whitespace {
        seq!["-w"@]
    } else {
        seq![]
    }) + seq![stat_flag] + scope_args + seq!["--"@]
}

/// Assembles the arguments of one `git diff` run.
pub fn diff_args(stat_flag: &str, scope_args: &Vec<String>, ignore_whitespace: bool) -> (res: Vec<String>)
    ensures
        res.deep_view() == diff_args_spec(stat_flag@, scope_args.deep_view(), ignore_whitespace),
{
    let mut args: Vec<String> = vec![
        String::from_str("-c"),
        String::from_str("core.quotepath=false"),
        String::from_str("-c"),
        String::from_str("core.fsmonitor=false"),
        String::from_str("diff"),
        String::from_str("--no-color"),
        String::from_str("--no-ext-diff"),
        String::from_str("-M"),
        String::from_str("-z"),
    ];
    let ghost common = args.deep_view();
    if ignore_whitespace {
        args.push(String::from_str("-w"));
    }
    let ghost with_ws = args.deep_view();
    assert(with_ws =~= common + (if ignore_whitespace {
        seq!["-w"@]
    } else {
        seq![]
    }));
    args.push(String::from_str(stat_flag));
    let ghost head = args.deep_view();
    assert(head =~= with_ws + seq![stat_flag@]);
    for i in 0..scope_args.len()
        invariant
            args.deep_view() == head + scope_args.deep_view().take(i as int),
    {
        let ghost before = args.deep_view();
        args.push(scope_args[i].clone());
        assert(scope_args.deep_view().take(i + 1) =~= scope_args.deep_view().take(i as int).push(
            scope_args@[i as int]@,
        ));
        assert(args.deep_view() =~= before.push(scope_args@[i as int]@));
    }
    assert(scope_args.deep_view().take(scope_args.len() as int) =~= scope_args.deep_view());
    let ghost body = args.deep_view();
    args.push(String::from_str("--"));
    assert(args.deep_view() =~= body + seq!["--"@]);
    args
}

/// Fails with git's message when one `git diff` run did not succeed.
pub fn check_diff_output(output: &GitOutput, stat_flag: &str) -> (res: Result<(), String>)
    ensures
        output.success ==> res is Ok,
        !output.success ==> (res matches Err(e) && e@ == "git diff "@ + stat_flag@ + " failed: "@
            + trimmed_text(output.stderr@)),
{
    if output.success {
        Ok(())
    } else {
        let mut e = String::from_str("git diff ");
        e.append(stat_flag);
        e.append(" failed: ");
        e.append(stderr_trimmed(output).as_str());
        Err(e)
    }
}


// ---------------------------------------------------------------------------
// submodules
/// `k`-th whitespace-separated word of `s`, or empty when there are fewer.
pub open spec fn word_or_empty(s: Seq<char>, k: int) -> Seq<char> {
    let w = pieces(Splitter::Whitespace, s);
    if 0 <= k < w.len() {
        w[k]
    } else {
        seq![]
    }
}

/// The metadata token of a `--raw` record without its leading `:`.
pub open spec fn raw_meta(tok: Seq<char>) -> Seq<char> {
    if tok.len() > 0 && tok[0] == ':' {
        tok.drop_first()
    } else {
        tok
    }
}

/// A `--raw` record whose old or new mode is `160000` (a gitlink).
pub open spec fn raw_is_submodule(meta: Seq<char>) -> bool {
    word_or_empty(meta, 0) == "160000"@ || word_or_empty(meta, 1) == "160000"@
}

/// The final paths of the submodule records of a `git diff --raw -z` token
/// stream, in order. Each record is `:<old-mode> <new-mode> <old-sha>
/// <new-sha> <status>` followed by one path, or two (old, new) for a
/// rename/copy status.
pub open spec fn raw_submodule_paths(t: Seq<Seq<char>>) -> Result<Seq<Seq<char>>, Seq<char>>
    decreases t.len(),
{
    if t.len() == 0 {
        Ok(seq![])
    } else {
        let meta = raw_meta(t[0]);
        let sub = raw_is_submodule(meta);
        if is_rename_or_copy(word_or_empty(meta, 4)) {
            if t.len() < 3 {
                Err("malformed --raw output: expected old/new path after rename/copy status"@)
            } else {
                prepend(
                    if sub {
                        seq![t[2]]
                    } else {
                        seq![]
                    },
                    raw_submodule_paths(t.skip(3)),
                )
            }
        } else {
            if t.len() < 2 {
                Err("malformed --raw output: expected path after status"@)
            } else {
                prepend(
                    if sub {
                        seq![t[1]]
                    } else {
                        seq![]
                    },
                    raw_submodule_paths(t.skip(2)),
                )
            }
        }
    }
}

proof fn lemma_prepend_assoc2<T>(a: Seq<T>, b: Seq<T>, r: Result<Seq<T>, Seq<char>>)
    ensures
        prepend(a, prepend(b, r)) == prepend(a + b, r),
{
    if let Ok(x) = r {
        assert(a + (b + x) =~= (a + b) + x);
    }
}

/// Word `k` of `words`, or an empty vector.
fn word_at(words: &Vec<Vec<char>>, k: usize) -> (res: Vec<char>)
    ensures
        res@ == if k < words@.len() {
            words.deep_view()[k as int]
        } else {
            Seq::<char>::empty()
        },
{
    if k < words.len() {
        assert(words.deep_view()[k as int] =~= words@[k as int]@);
        words[k].clone()
    } else {
        Vec::new()
    }
}

/// Whether `cs` spells `160000`.
fn is_gitlink_mode(cs: &Vec<char>) -> (res: bool)
    ensures
        res == (cs@ == "160000"@),
{
    let a = string_from_chars(cs.as_slice());
    let b = String::from_str("160000");
    a == b
}

/// Parses `git diff --raw -z` output down to the final paths (for renames,
/// the second path) of entries whose old or new mode is `160000`.
pub fn parse_raw_submodule_paths(bytes: &[u8]) -> (res: Result<Vec<String>, String>)
    ensures
        match (res, raw_submodule_paths(nul_tokens(bytes@))) {
            (Ok(a), Ok(b)) => a.deep_view() == b,
            (Err(a), Err(b)) => a@ == b,
            _ => false,
        },
{
    let tokens = split_nul(bytes);
    let ghost t = tokens.deep_view();
    let mut result: Vec<String> = Vec::new();
    let mut i: usize = 0;
    proof {
        assert(t.skip(0) =~= t);
        if let Ok(x) = raw_submodule_paths(t) {
            assert(Seq::<Seq<char>>::empty() + x =~= x);
        }
        assert(result.deep_view() =~= Seq::<Seq<char>>::empty());
    }
    while i < tokens.len()
        invariant
            t == tokens.deep_view(),
            t == nul_tokens(bytes@),
            i <= tokens.len(),
            raw_submodule_paths(t) == prepend(result.deep_view(), raw_submodule_paths(t.skip(i as int))),
        decreases tokens.len() - i,
    {
        let ghost rest = t.skip(i as int);
        assert(rest[0] == t[i as int]);
        let tok = chars_of(tokens[i].as_str());
        let meta: Vec<char> = if tok.len() > 0 && tok[0] == ':' {
            let m = vstd::slice::slice_to_vec(&tok.as_slice()[1..tok.len()]);
            assert(m@ =~= tok@.drop_first());
            m
        } else {
            tok
        };
        assert(meta@ == raw_meta(t[i as int]));
        let words = split_pieces(Splitter::Whitespace, meta.as_slice());
        let old_mode = word_at(&words, 0);
        let new_mode = word_at(&words, 1);
        let status = word_at(&words, 4);
        let is_submodule = is_gitlink_mode(&old_mode) || is_gitlink_mode(&new_mode);
        assert(is_submodule == raw_is_submodule(meta@));
        let rename = status.len() > 0 && (status[0] == 'R' || status[0] == 'C');
        assert(rename == is_rename_or_copy(word_or_empty(meta@, 4)));
        let ghost before = result.deep_view();
        let ghost step: int;
        let ghost added: Seq<Seq<char>>;
        if rename {
            if tokens.len() - i < 3 {
                return Err(
                    String::from_str(
                        "malformed --raw output: expected old/new path after rename/copy status",
                    ),
                );
            }
            if is_submodule {
                result.push(tokens[i + 2].clone());
            }
            proof {
                step = 3;
                added = if is_submodule { seq![t[i + 2]] } else { seq![] };
                assert(rest[2] == t[i + 2]);
            }
        } else {
            if tokens.len() - i < 2 {
                return Err(String::from_str("malformed --raw output: expected path after status"));
            }
            if is_submodule {
                result.push(tokens[i + 1].clone());
            }
            proof {
                step = 2;
                added = if is_submodule { seq![t[i + 1]] } else { seq![] };
                assert(rest[1] == t[i + 1]);
            }
        }
        proof {
            assert(result.deep_view() =~= before + added);
            assert(rest.skip(step) =~= t.skip(i + step));
            lemma_prepend_assoc2(before, added, raw_submodule_paths(t.skip(i + step)));
        }
        i = if rename { i + 3 } else { i + 2 };
    }
    assert(t.skip(i as int) =~= seq![]);
    assert(result.deep_view() + seq![] =~= result.deep_view());
    Ok(result)
}

/// Whether `paths` holds `p`.
fn contains_path(paths: &Vec<String>, p: &String) -> (res: bool)
    ensures
        res == paths.deep_view().contains(p@),
{
    let mut i: usize = 0;
    while i < paths.len()
        invariant
            i <= paths@.len(),
            forall|k: int| 0 <= k < i ==> paths@[k]@ != p@,
        decreases paths.len() - i,
    {
        if paths[i] == *p {
            assert(paths.deep_view()[i as int] == p@);
            return true;
        }
        i += 1;
    }
    assert(!paths.deep_view().contains(p@)) by {
        if paths.deep_view().contains(p@) {
            let k = choose|k: int| 0 <= k < paths.deep_view().len() && paths.deep_view()[k] == p@;
            assert(paths@[k]@ == p@);
        }
    }
    false
}

/// A copy of `f`.
fn copy_file(f: &DiffFile) -> (res: DiffFile)
    ensures
        res@ == f@,
{
    DiffFile {
        path: f.path.clone(),
        old_path: match &f.old_path {
            Some(p) => Some(p.clone()),
            None => None,
        },
        status: f.status,
        additions: f.additions,
        deletions: f.deletions,
        is_binary: f.is_binary,
        is_untracked: f.is_untracked,
    }
}

/// `f` reclassified as a submodule when its path is among `submodule_paths`.
pub open spec fn with_submodule_status(f: DiffFileView, submodule_paths: Seq<Seq<char>>) -> DiffFileView {
    if submodule_paths.contains(f.path) {
        DiffFileView { status: DiffFileStatus::Submodule, ..f }
    } else {
        f
    }
}

/// Reclassifies the entries whose path is a submodule path (mode
/// `160000` on either side) as [`DiffFileStatus::Submodule`].
pub fn mark_submodule_entries(files: &mut Vec<DiffFile>, submodule_paths: &Vec<String>)
    ensures
        final(files)@.len() == old(files)@.len(),
        forall|k: int|
            0 <= k < old(files)@.len() ==> #[trigger] final(files)@[k]@ == with_submodule_status(
                old(files)@[k]@,
                submodule_paths.deep_view(),
            ),
{
    if submodule_paths.len() == 0 {
        assert forall|k: int| 0 <= k < old(files)@.len() implies #[trigger] files@[k]@
            == with_submodule_status(old(files)@[k]@, submodule_paths.deep_view()) by {
            assert(!submodule_paths.deep_view().contains(files@[k]@.path));
        }
        return;
    }
    let n = files.len();
    for i in 0..n
        invariant
            n == old(files)@.len(),
            files@.len() == n,
            forall|k: int|
                0 <= k < i ==> #[trigger] files@[k]@ == with_submodule_status(
                    old(files)@[k]@,
                    submodule_paths.deep_view(),
                ),
            forall|k: int| i <= k < n ==> #[trigger] files@[k] == old(files)@[k],
    {
        if contains_path(submodule_paths, &files[i].path) {
            let mut f = copy_file(&files[i]);
            f.status = DiffFileStatus::Submodule;
            files.set(i, f);
        }
    }
}

// ---------------------------------------------------------------------------
// untracked files
/// The untracked (non-ignored) paths from `git ls-files --others
/// --exclude-standard -z`.
pub fn list_untracked_paths(output: &GitOutput) -> (res: Result<Vec<String>, String>)
    ensures
        output.success ==> (res matches Ok(v) && v.deep_view() == nul_tokens(output.stdout@)),
        !output.success ==> (res matches Err(e) && e@ == "git ls-files failed: "@ + trimmed_text(
            output.stderr@,
        )),
{
    if output.success {
        Ok(split_nul(output.stdout.as_slice()))
    } else {
        Err(concat2("git ls-files failed: ", stderr_trimmed(output).as_str()))
    }
}

/// The untracked paths kept (the first [`UNTRACKED_LIMIT`]) and the
/// number left out, `None` when nothing was left out.
pub fn cap_untracked(all: Vec<String>) -> (res: (Vec<String>, Option<u32>))
    ensures
        all@.len() <= UNTRACKED_LIMIT ==> res.0@ == all@ && res.1 is None,
        all@.len() > UNTRACKED_LIMIT ==> res.0@ == all@.take(UNTRACKED_LIMIT as int) && res.1
            == Some((all@.len() - UNTRACKED_LIMIT) as u32),
{
    let n = all.len();
    if n <= UNTRACKED_LIMIT {
        return (all, None);
    }
    let mut all = all;
    let ghost whole = all@;
    all.truncate(UNTRACKED_LIMIT);
    assert(all@ =~= whole.take(UNTRACKED_LIMIT as int));
    #[verifier::truncate]
    let omitted = (n - UNTRACKED_LIMIT) as u32;
    (all, Some(omitted))
}

/// Number of `b` bytes in `s`.
pub open spec fn count_byte(s: Seq<u8>, b: u8) -> nat
    decreases s.len(),
{
    if s.len() == 0 {
        0
    } else {
        count_byte(s.drop_last(), b) + if s.last() == b {
            1nat
        } else {
            0nat
        }
    }
}

/// Line count of a text: its `\n`-terminated lines plus one more when it
/// ends with content that has no final newline.
pub open spec fn line_count(s: Seq<u8>) -> int {
    if s.len() == 0 {
        0
    } else {
        count_byte(s, 10) + if s.last() != 10 {
            1int
        } else {
            0int
        }
    }
}

proof fn lemma_count_byte_bound(s: Seq<u8>, b: u8)
    ensures
        count_byte(s, b) <= s.len(),
    decreases s.len(),
{
    if s.len() > 0 {
        lemma_count_byte_bound(s.drop_last(), b);
    }
}

/// Line count used for an untracked file's `additions`.
pub fn count_lines(bytes: &[u8]) -> (res: i64)
    requires
        bytes@.len() <= i64::MAX,
    ensures
        res == line_count(bytes@),
{
    if bytes.len() == 0 {
        return 0;
    }
    let mut count: i64 = 0;
    let mut i: usize = 0;
    while i < bytes.len()
        invariant
            i <= bytes@.len() <= i64::MAX,
            count == count_byte(bytes@.take(i as int), 10),
        decreases bytes.len() - i,
    {
        proof {
            assert(bytes@.take(i + 1).drop_last() =~= bytes@.take(i as int));
            lemma_count_byte_bound(bytes@.take(i as int), 10);
        }
        if bytes[i] == 10 {
            count = count + 1;
        }
        i += 1;
    }
    assert(bytes@.take(i as int) =~= bytes@);
    proof {
        lemma_count_byte_bound(bytes@, 10);
    }
    if bytes[bytes.len() - 1] != 10 {
        proof {
            lemma_count_byte_bound(bytes@.drop_last(), 10);
        }
        count = count + 1;
    }
    count
}

/// A NUL byte within the first [`BINARY_SNIFF_BYTES`] bytes.
pub open spec fn looks_binary_spec(s: Seq<u8>) -> bool {
    exists|i: int| 0 <= i < s.len() && i < BINARY_SNIFF_BYTES && s[i] == 0
}

/// `isBinary` heuristic: a NUL byte among the first
/// [`BINARY_SNIFF_BYTES`] bytes.
pub fn looks_binary(bytes: &[u8]) -> (res: bool)
    ensures
        res == looks_binary_spec(bytes@),
{
    let n = if bytes.len() < BINARY_SNIFF_BYTES {
        bytes.len()
    } else {
        BINARY_SNIFF_BYTES
    };
    let mut i: usize = 0;
    while i < n
        invariant
            n <= bytes@.len(),
            n <= BINARY_SNIFF_BYTES,
            n == bytes@.len() || n == BINARY_SNIFF_BYTES,
            i <= n,
            forall|k: int| 0 <= k < i ==> bytes@[k] != 0,
        decreases n - i,
    {
        if bytes[i] == 0 {
            return true;
        }
        i += 1;
    }
    false
}

/// The file entry for one untracked path: `added`, untracked, no
/// deletions, and for a text file within the size guard its line count.
/// `bytes` is the file's content, or only a prefix of it when `size`
/// exceeds the guard.
pub open spec fn untracked_entry_spec(rel_path: Seq<char>, size: u64, bytes: Seq<u8>) -> DiffFileView {
    let (is_binary, additions) = if size > MAX_FILE_DIFF_BYTES {
        (looks_binary_spec(bytes), None)
    } else if looks_binary_spec(bytes) {
        (true, None)
    } else {
        (false, Some(line_count(bytes) as i64))
    };
    DiffFileView {
        path: rel_path,
        old_path: None,
        status: DiffFileStatus::Added,
        additions: additions,
        deletions: Some(0),
        is_binary: is_binary,
        is_untracked: Some(true),
    }
}

/// Builds the synthetic file entry for one untracked path.
pub fn untracked_entry(rel_path: &str, size: u64, bytes: &[u8]) -> (res: DiffFile)
    requires
        bytes@.len() <= i64::MAX,
    ensures
        res@ == untracked_entry_spec(rel_path@, size, bytes@),
{
    let (is_binary, additions) = if size > MAX_FILE_DIFF_BYTES {
        (looks_binary(bytes), None)
    } else if looks_binary(bytes) {
        (true, None)
    } else {
        (false, Some(count_lines(bytes)))
    };
    DiffFile {
        path: String::from_str(rel_path),
        old_path: None,
        status: DiffFileStatus::Added,
        additions,
        deletions: Some(0),
        is_binary,
        is_untracked: Some(true),
    }
}

// ---------------------------------------------------------------------------
// totals
/// Sum of the known additions of `files`.
pub open spec fn additions_total(files: Seq<DiffFileView>) -> int
    decreases files.len(),
{
    if files.len() == 0 {
        0
    } else {
        additions_total(files.drop_last()) + match files.last().additions {
            Some(a) => a as int,
            None => 0,
        }
    }
}

/// Sum of the known deletions of `files`.
pub open spec fn deletions_total(files: Seq<DiffFileView>) -> int
    decreases files.len(),
{
    if files.len() == 0 {
        0
    } else {
        deletions_total(files.drop_last()) + match files.last().deletions {
            Some(d) => d as int,
            None => 0,
        }
    }
}

/// Every running total of the additions and deletions fits in an `i64`.
pub open spec fn totals_fit(files: Seq<DiffFileView>) -> bool {
    forall|k: int|
        0 <= k <= files.len() ==> i64::MIN <= #[trigger] additions_total(files.take(k)) <= i64::MAX
            && i64::MIN <= deletions_total(files.take(k)) <= i64::MAX
}

/// The summary of a file list: the files, their count and the sums of
/// their known additions and deletions, with the left-out untracked count,
/// the warnings and the merge base.
pub fn assemble_summary(
    files: Vec<DiffFile>,
    omitted_untracked: Option<u32>,
    warnings: Vec<String>,
    merge_base: Option<String>,
) -> (res: DiffSummary)
    requires
        totals_fit(files.deep_view()),
    ensures
        res.files == files,
        res.summary.files_changed == files@.len(),
        res.summary.additions == additions_total(files.deep_view()),
        res.summary.deletions == deletions_total(files.deep_view()),
        res.omitted_untracked == omitted_untracked,
        res.warnings == warnings,
        res.merge_base == merge_base,
{
    let ghost fv = files.deep_view();
    let mut additions: i64 = 0;
    let mut deletions: i64 = 0;
    let mut i: usize = 0;
    assert(fv.take(0) =~= Seq::<DiffFileView>::empty());
    while i < files.len()
        invariant
            fv == files.deep_view(),
            i <= files@.len(),
            totals_fit(fv),
            additions == additions_total(fv.take(i as int)),
            deletions == deletions_total(fv.take(i as int)),
        decreases files.len() - i,
    {
        let ghost next = fv.take(i + 1);
        assert(next.drop_last() =~= fv.take(i as int));
        assert(next.last() == files@[i as int]@);
        assert(i64::MIN <= additions_total(next) <= i64::MAX);
        let a = match files[i].additions {
            Some(a) => a,
            None => 0,
        };
        let d = match files[i].deletions {
            Some(d) => d,
            None => 0,
        };
        additions = additions + a;
        deletions = deletions + d;
        i += 1;
    }
    assert(fv.take(i as int) =~= fv);
    let n = files.len();
    DiffSummary {
        files,
        summary: DiffTotals { files_changed: n, additions, deletions },
        omitted_untracked,
        warnings,
        merge_base,
    }
}

/// The summary returned when the branches share no merge base: no files,
/// zero totals, the warnings gathered so far.
pub fn empty_summary(warnings: Vec<String>) -> (res: DiffSummary)
    ensures
        res.files@.len() == 0,
        res.summary.files_changed == 0,
        res.summary.additions == 0,
        res.summary.deletions == 0,
        res.omitted_untracked is None,
        res.warnings == warnings,
        res.merge_base is None,
{
    DiffSummary {
        files: Vec::new(),
        summary: DiffTotals { files_changed: 0, additions: 0, deletions: 0 },
        omitted_untracked: None,
        warnings,
        merge_base: None,
    }
}

} // verus!
