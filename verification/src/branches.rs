//! Branch listing: local and remote-tracking branches from
//! `git for-each-ref`, excluding symbolic refs such as `origin/HEAD`, the
//! checked-out branch, and the time of the last fetch (the modification
//! time of `FETCH_HEAD`; this library never fetches). [`BranchesJob`] runs
//! the listing as a state machine.

use vstd::prelude::*;

use crate::parse::{find_char, first_index};
use crate::process::{stderr_trimmed, stdout_trimmed, GitOutput};
use crate::session::{
    lemma_plain_safe, lemma_subcommand_literals, safe_git_args, safe_request, safe_step, Reply,
    ReplyKind, Request, RequestView, Step, StepView,
};
use crate::text::{
    chars_of, concat2, decode_lossy, has_prefix, pieces, split_pieces, starts_with,
    string_from_chars, trimmed_text, utf8_lossy, Splitter,
};
use crate::types::{BranchList, BranchListView, BranchRef, BranchRefView};

verus! {

/// Fails with git's message when `git for-each-ref` did not succeed.
pub fn check_for_each_ref(output: &GitOutput) -> (res: Result<(), String>)
    ensures
        output.success ==> res is Ok,
        !output.success ==> (res matches Err(e) && e@ == "git for-each-ref failed: "@
            + trimmed_text(output.stderr@)),
{
    if output.success {
        Ok(())
    } else {
        Err(concat2("git for-each-ref failed: ", stderr_trimmed(output).as_str()))
    }
}

/// The fields of one `%(refname:short)\0%(refname)\0%(symref)` line: the
/// short name, the full name and the symref target, each empty when
/// absent.
pub open spec fn ref_fields(line: Seq<char>) -> (Seq<char>, Seq<char>, Seq<char>) {
    match first_index(line, '\0') {
        None => (line, seq![], seq![]),
        Some(i) => {
            let rest = line.skip(i + 1);
            match first_index(rest, '\0') {
                None => (line.take(i), rest, seq![]),
                Some(j) => (line.take(i), rest.take(j), rest.skip(j + 1)),
            }
        },
    }
}

/// The branch a line describes: none for a line without a full name or
/// for a symbolic ref; remote when the full name is under `refs/remotes/`.
pub open spec fn branch_of_line(line: Seq<char>) -> Option<BranchRefView> {
    let (short, full, symref) = ref_fields(line);
    if full.len() == 0 || symref.len() != 0 {
        None
    } else {
        Some(
            BranchRefView {
                short: short,
                full: full,
                is_remote: has_prefix(full, "refs/remotes/"@),
            },
        )
    }
}

/// The local and the remote-tracking branches of the lines, each in line
/// order.
pub open spec fn branches_of_lines(lines: Seq<Seq<char>>) -> (Seq<BranchRefView>, Seq<BranchRefView>)
    decreases lines.len(),
{
    if lines.len() == 0 {
        (seq![], seq![])
    } else {
        let (local, remote) = branches_of_lines(lines.drop_last());
        match branch_of_line(lines.last()) {
            None => (local, remote),
            Some(b) => if b.is_remote {
                (local, remote.push(b))
            } else {
                (local.push(b), remote)
            },
        }
    }
}

/// The branches listed by `git for-each-ref` output: its lossily decoded
/// text, cut at newlines with empty lines skipped.
pub open spec fn branches_of_output(stdout: Seq<u8>) -> (Seq<BranchRefView>, Seq<BranchRefView>) {
    branches_of_lines(pieces(Splitter::Newlines, utf8_lossy(stdout)))
}

/// Every listed branch is remote exactly when its full ref name begins
/// with `refs/remotes/`: the remote-tracking list holds only such
/// branches, marked remote, and the local list only others, marked local
/// (so every branch under `refs/heads/` is local).
pub proof fn lemma_branches_sorted_by_full_name(lines: Seq<Seq<char>>)
    ensures
        ({
            let (local, remote) = branches_of_lines(lines);
            &&& forall|k: int|
                0 <= k < local.len() ==> !(#[trigger] local[k]).is_remote && !has_prefix(
                    local[k].full,
                    "refs/remotes/"@,
                )
            &&& forall|k: int|
                0 <= k < remote.len() ==> (#[trigger] remote[k]).is_remote && has_prefix(
                    remote[k].full,
                    "refs/remotes/"@,
                )
        }),
    decreases lines.len(),
{
    if lines.len() > 0 {
        lemma_branches_sorted_by_full_name(lines.drop_last());
        let (l0, r0) = branches_of_lines(lines.drop_last());
        let (local, remote) = branches_of_lines(lines);
        if let Some(b) = branch_of_line(lines.last()) {
            if b.is_remote {
                assert forall|k: int| 0 <= k < remote.len() implies (#[trigger] remote[k]).is_remote
                    && has_prefix(remote[k].full, "refs/remotes/"@) by {
                    if k < r0.len() {
                        assert(remote[k] == r0[k]);
                    }
                }
            } else {
                assert forall|k: int| 0 <= k < local.len() implies !(#[trigger] local[k]).is_remote
                    && !has_prefix(local[k].full, "refs/remotes/"@) by {
                    if k < l0.len() {
                        assert(local[k] == l0[k]);
                    }
                }
            }
        }
    }
}

/// A line as `git for-each-ref` prints it for the format
/// `%(refname:short)%00%(refname)%00%(symref)`: the short name, the full
/// name and the symref target separated by NUL. It lists a branch exactly
/// when the full name is present and the ref is not symbolic; the branch
/// keeps both names and is remote exactly when its full name begins with
/// `refs/remotes/`.
pub proof fn lemma_branch_of_printed_line(short: Seq<char>, full: Seq<char>, symref: Seq<char>)
    requires
        !short.contains('\0'),
        !full.contains('\0'),
    ensures
        branch_of_line(short + seq!['\0'] + full + seq!['\0'] + symref) == (if full.len() == 0
            || symref.len() != 0 {
            None
        } else {
            Some(
                BranchRefView {
                    short: short,
                    full: full,
                    is_remote: has_prefix(full, "refs/remotes/"@),
                },
            )
        }),
{
    let line = short + seq!['\0'] + full + seq!['\0'] + symref;
    assert forall|i: int| 0 <= i < short.len() implies #[trigger] short[i] != '\0' by {
        if short[i] == '\0' {
            assert(short.contains('\0'));
        }
    }
    assert forall|i: int| 0 <= i < full.len() implies #[trigger] full[i] != '\0' by {
        if full[i] == '\0' {
            assert(full.contains('\0'));
        }
    }
    crate::roundtrip::lemma_first_index_after(short, full + seq!['\0'] + symref, '\0');
    assert(line =~= short + seq!['\0'] + (full + seq!['\0'] + symref));
    let rest = line.skip(short.len() + 1int);
    assert(rest =~= full + seq!['\0'] + symref);
    crate::roundtrip::lemma_first_index_after(full, symref, '\0');
    assert(line.take(short.len() as int) =~= short);
    assert(rest.take(full.len() as int) =~= full);
    assert(rest.skip(full.len() + 1int) =~= symref);
}

/// A full ref name under `refs/heads/` is not under `refs/remotes/`.
pub proof fn lemma_heads_are_not_remotes(full: Seq<char>)
    requires
        has_prefix(full, "refs/heads/"@),
    ensures
        !has_prefix(full, "refs/remotes/"@),
{
    reveal_strlit("refs/heads/");
    reveal_strlit("refs/remotes/");
    if has_prefix(full, "refs/remotes/"@) {
        assert(full[5] == full.take(11)[5]);
        assert(full[5] == full.take(13)[5]);
    }
}

fn branch_from_line(line: &[char]) -> (res: Option<BranchRef>)
    ensures
        res matches Some(b) ==> branch_of_line(line@) == Some(b@),
        res is None ==> branch_of_line(line@) is None,
{
    let n = line.len();
    let (short, full, symref): (&[char], &[char], &[char]) = match find_char(line, '\0') {
        None => (line, &line[0..0], &line[0..0]),
        Some(i) => {
            let rest = &line[i + 1..n];
            assert(rest@ =~= line@.skip(i + 1));
            match find_char(rest, '\0') {
                None => (&line[0..i], rest, &line[0..0]),
                Some(j) => (&line[0..i], &rest[0..j], &rest[j + 1..rest.len()]),
            }
        },
    };
    let ghost (s2, f2, y2) = ref_fields(line@);
    assert(short@ =~= s2 && full@ =~= f2 && symref@ =~= y2);
    if full.len() == 0 || symref.len() != 0 {
        return None;
    }
    let full_s = string_from_chars(full);
    let is_remote = starts_with(full_s.as_str(), "refs/remotes/");
    Some(BranchRef { short: string_from_chars(short), full: full_s, is_remote })
}

/// Splits `git for-each-ref --format=%(refname:short)%00%(refname)%00%(symref)`
/// output into local and remote-tracking branches, skipping symbolic refs.
pub fn parse_branch_refs(stdout: &[u8]) -> (res: (Vec<BranchRef>, Vec<BranchRef>))
    ensures
        (res.0.deep_view(), res.1.deep_view()) == branches_of_output(stdout@),
{
    let text = decode_lossy(stdout);
    let cs = chars_of(text.as_str());
    let lines = split_pieces(Splitter::Newlines, cs.as_slice());
    let ghost ls = lines.deep_view();
    let mut local: Vec<BranchRef> = Vec::new();
    let mut remote: Vec<BranchRef> = Vec::new();
    let mut i: usize = 0;
    assert(ls.take(0) =~= Seq::<Seq<char>>::empty());
    assert(local.deep_view() =~= Seq::<BranchRefView>::empty());
    assert(remote.deep_view() =~= Seq::<BranchRefView>::empty());
    while i < lines.len()
        invariant
            ls == lines.deep_view(),
            i <= ls.len(),
            (local.deep_view(), remote.deep_view()) == branches_of_lines(ls.take(i as int)),
        decreases lines.len() - i,
    {
        let ghost pre = ls.take(i + 1);
        assert(pre.drop_last() =~= ls.take(i as int));
        assert(pre.last() =~= lines@[i as int]@);
        let ghost lv = local.deep_view();
        let ghost rv = remote.deep_view();
        match branch_from_line(lines[i].as_slice()) {
            None => {},
            Some(b) => {
                let ghost bv = b@;
                if b.is_remote {
                    remote.push(b);
                    assert(remote.deep_view() =~= rv.push(bv));
                } else {
                    local.push(b);
                    assert(local.deep_view() =~= lv.push(bv));
                }
            },
        }
        i += 1;
    }
    assert(ls.take(i as int) =~= ls);
    (local, remote)
}

/// What `DateTime::<Utc>::to_rfc3339` renders for the instant `secs`
/// seconds and `nanos` nanoseconds after the Unix epoch.
pub uninterp spec fn rfc3339_utc(secs: i64, nanos: u32) -> Seq<char>;

/// An instant chrono's `DateTime::<Utc>::from_timestamp` accepts: its day
/// (`secs` divided by 86 400, rounded down, counted from 1 January of the
/// year 1) lies between `NaiveDate::MIN` (1 January of the year -262143,
/// day -95 746 129) and `NaiveDate::MAX` (31 December 262142, day
/// 95 745 399), and the sub-second part is below one second, or below two
/// on the last second of a minute (a leap second).
pub open spec fn representable_instant(secs: i64, nanos: u32) -> bool {
    let day = secs as int / 86_400 + 719_163;
    &&& -95_746_129 <= day <= 95_745_399
    &&& (nanos < 1_000_000_000 || (nanos < 2_000_000_000 && secs as int % 60 == 59))
}

/// `DateTime::<Utc>::from_timestamp(secs, nanos)` rendered with
/// `to_rfc3339`. The text is named by `rfc3339_utc`. `from_timestamp`
/// returns `Some` exactly on `representable_instant`: it counts the day
/// from the Unix epoch's day 719 163, refuses a day whose year lies outside
/// `MIN_YEAR..=MAX_YEAR`, and refuses a nanosecond part of two seconds or
/// more, or of one second or more outside the last second of a minute.
#[verifier::external_body]
fn utc_rfc3339(secs: i64, nanos: u32) -> (res: Option<String>)
    ensures
        res matches Some(s) ==> s@ == rfc3339_utc(secs, nanos),
        res is Some <==> representable_instant(secs, nanos),
{
    match chrono::DateTime::from_timestamp(secs, nanos) {
        Some(dt) => Some(dt.to_rfc3339()),
        None => None,
    }
}

/// The last-fetch time for a `FETCH_HEAD` modified `secs` seconds and
/// `nanos` nanoseconds after the Unix epoch, as RFC 3339 (ISO 8601).
pub fn last_fetch_text(secs: i64, nanos: u32) -> (res: Result<String, String>)
    ensures
        res matches Ok(s) ==> s@ == rfc3339_utc(secs, nanos),
        res matches Err(e) ==> e@ == fetch_time_range_error(),
        res is Ok <==> representable_instant(secs, nanos),
{
    match utc_rfc3339(secs, nanos) {
        Some(s) => Ok(s),
        None => Err(String::from_str("FETCH_HEAD mtime is out of the representable range")),
    }
}


// ---------------------------------------------------------------------------
// the listing as a state machine
/// Where a [`BranchesJob`] stands: what it waits for.
#[derive(Debug, Clone, Copy, PartialEq, Eq, Structural)]
pub enum BranchesStage {
    /// `git for-each-ref refs/heads refs/remotes --format=...`.
    ForEachRef,
    /// `git symbolic-ref --quiet --short HEAD`.
    Symbolic,
    /// `git rev-parse --git-dir`.
    GitDir,
    /// The modification time of `FETCH_HEAD`.
    FetchTime,
}

/// The state of one branch listing.
pub struct BranchesJob {
    stage: BranchesStage,
    local: Vec<BranchRef>,
    remote: Vec<BranchRef>,
    current: Option<String>,
}

/// Mathematical model of a [`BranchesJob`].
pub struct BranchesJobView {
    pub stage: BranchesStage,
    pub local: Seq<BranchRefView>,
    pub remote: Seq<BranchRefView>,
    pub current: Option<Seq<char>>,
}

impl View for BranchesJob {
    type V = BranchesJobView;

    closed spec fn view(&self) -> BranchesJobView {
        BranchesJobView {
            stage: self.stage,
            local: self.local.deep_view(),
            remote: self.remote.deep_view(),
            current: self.current.deep_view(),
        }
    }
}

/// A transition of a listing.
pub type BranchesMove = StepView<BranchesJobView, BranchListView>;

/// `git for-each-ref refs/heads refs/remotes --format=...`.
pub open spec fn for_each_ref_args() -> Seq<Seq<char>> {
    seq![
        "for-each-ref"@,
        "refs/heads"@,
        "refs/remotes"@,
        "--format=%(refname:short)%00%(refname)%00%(symref)"@,
    ]
}

/// `git rev-parse --git-dir`.
pub open spec fn git_dir_args() -> Seq<Seq<char>> {
    seq!["rev-parse"@, "--git-dir"@]
}

/// The listing gathered, with the last-fetch time.
pub open spec fn list_of(j: BranchesJobView, last_fetch: Option<Seq<char>>) -> BranchListView {
    BranchListView { local: j.local, remote: j.remote, current: j.current, last_fetch: last_fetch }
}

/// The first transition of a listing.
pub open spec fn branches_start() -> BranchesMove {
    StepView::Ask(
        BranchesJobView {
            stage: BranchesStage::ForEachRef,
            local: seq![],
            remote: seq![],
            current: None,
        },
        RequestView::Git(for_each_ref_args()),
    )
}

/// The transition of a listing on one reply.
pub open spec fn branches_next(j: BranchesJobView, reply: Reply) -> BranchesMove {
    match reply {
        Reply::Git(Err(e)) => StepView::Done(Err(e@)),
        Reply::Git(Ok(out)) => match j.stage {
            BranchesStage::ForEachRef => if !out.success {
                StepView::Done(Err("git for-each-ref failed: "@ + trimmed_text(out.stderr@)))
            } else {
                let (l, r) = branches_of_output(out.stdout@);
                StepView::Ask(
                    BranchesJobView { stage: BranchesStage::Symbolic, local: l, remote: r, ..j },
                    RequestView::Git(crate::summary_job::symbolic_ref_args()),
                )
            },
            BranchesStage::Symbolic => StepView::Ask(
                BranchesJobView {
                    stage: BranchesStage::GitDir,
                    current: if out.success {
                        Some(trimmed_text(out.stdout@))
                    } else {
                        None
                    },
                    ..j
                },
                RequestView::Git(git_dir_args()),
            ),
            BranchesStage::GitDir => if !out.success {
                StepView::Done(Ok(list_of(j, None)))
            } else {
                StepView::Ask(
                    BranchesJobView { stage: BranchesStage::FetchTime, ..j },
                    RequestView::FetchHeadTime(trimmed_text(out.stdout@)),
                )
            },
            BranchesStage::FetchTime => StepView::Done(Err(seq![])),
        },
        Reply::Time(Err(e)) => StepView::Done(Err(e@)),
        Reply::Time(Ok(None)) => StepView::Done(Ok(list_of(j, None))),
        Reply::Time(Ok(Some((secs, nanos)))) => if representable_instant(secs, nanos) {
            StepView::Done(Ok(list_of(j, Some(rfc3339_utc(secs, nanos)))))
        } else {
            StepView::Done(Err(fetch_time_range_error()))
        },
        _ => StepView::Done(Err(seq![])),
    }
}

/// The error for a `FETCH_HEAD` time outside `representable_instant`.
pub open spec fn fetch_time_range_error() -> Seq<char> {
    "FETCH_HEAD mtime is out of the representable range"@
}

/// The reply a listing in this state waits for.
pub open spec fn branches_awaits(j: BranchesJobView) -> ReplyKind {
    match j.stage {
        BranchesStage::FetchTime => ReplyKind::Time,
        _ => ReplyKind::Git,
    }
}

/// A transition that asks for work leaves the job waiting for the reply
/// to a read-only request.
pub open spec fn branches_good(m: BranchesMove) -> bool {
    match m {
        StepView::Ask(j, r) => branches_awaits(j) == r.reply_kind() && safe_request(r),
        StepView::Done(_) => true,
    }
}

proof fn lemma_branches_args_safe()
    ensures
        safe_git_args(for_each_ref_args()),
        safe_git_args(git_dir_args()),
        safe_git_args(crate::summary_job::symbolic_ref_args()),
{
    lemma_subcommand_literals();
    lemma_plain_safe(for_each_ref_args());
    lemma_plain_safe(git_dir_args());
    lemma_plain_safe(crate::summary_job::symbolic_ref_args());
}

impl BranchesJob {
    /// Starts listing the branches of a repository (already known to be
    /// a directory).
    pub fn start() -> (res: Step<BranchesJob, BranchList>)
        ensures
            res@ == branches_start(),
            branches_good(res@),
            safe_step(res@),
    {
        let j = BranchesJob {
            stage: BranchesStage::ForEachRef,
            local: Vec::new(),
            remote: Vec::new(),
            current: None,
        };
        let args = vec![
            String::from_str("for-each-ref"),
            String::from_str("refs/heads"),
            String::from_str("refs/remotes"),
            String::from_str("--format=%(refname:short)%00%(refname)%00%(symref)"),
        ];
        proof {
            assert(args.deep_view() =~= for_each_ref_args());
            assert(j@.local =~= Seq::<BranchRefView>::empty());
            assert(j@.remote =~= Seq::<BranchRefView>::empty());
            lemma_branches_args_safe();
        }
        Step::Ask(j, Request::Git(args))
    }

    /// Steps the listing with the reply to its last request.
    pub fn step(self, reply: Reply) -> (res: Step<BranchesJob, BranchList>)
        requires
            branches_awaits(self@) == reply.kind(),
        ensures
            res@ == branches_next(self@, reply),
            branches_good(res@),
            safe_step(res@),
    {
        proof {
            lemma_branches_args_safe();
        }
        let ghost j0 = self@;
        match reply {
            Reply::Git(Err(e)) => Step::Done(Err(e)),
            Reply::Git(Ok(out)) => match self.stage {
                BranchesStage::ForEachRef => match check_for_each_ref(&out) {
                    Err(e) => Step::Done(Err(e)),
                    Ok(()) => {
                        let (local, remote) = parse_branch_refs(out.stdout.as_slice());
                        let args = vec![
                            String::from_str("symbolic-ref"),
                            String::from_str("--quiet"),
                            String::from_str("--short"),
                            String::from_str("HEAD"),
                        ];
                        assert(args.deep_view() =~= crate::summary_job::symbolic_ref_args());
                        let mut j = self;
                        j.stage = BranchesStage::Symbolic;
                        j.local = local;
                        j.remote = remote;
                        Step::Ask(j, Request::Git(args))
                    },
                },
                BranchesStage::Symbolic => {
                    let current = crate::summary::symbolic_ref_short(&out);
                    let args = vec![String::from_str("rev-parse"), String::from_str("--git-dir")];
                    assert(args.deep_view() =~= git_dir_args());
                    let mut j = self;
                    j.stage = BranchesStage::GitDir;
                    j.current = current;
                    Step::Ask(j, Request::Git(args))
                },
                BranchesStage::GitDir => {
                    if !out.success {
                        let BranchesJob { local, remote, current, .. } = self;
                        Step::Done(Ok(BranchList { local, remote, current, last_fetch: None }))
                    } else {
                        let dir = stdout_trimmed(&out);
                        let mut j = self;
                        j.stage = BranchesStage::FetchTime;
                        Step::Ask(j, Request::FetchHeadTime(dir))
                    }
                },
                BranchesStage::FetchTime => Step::Done(Err(String::new())),
            },
            Reply::Time(Err(e)) => Step::Done(Err(e)),
            Reply::Time(Ok(None)) => {
                let BranchesJob { local, remote, current, .. } = self;
                Step::Done(Ok(BranchList { local, remote, current, last_fetch: None }))
            },
            Reply::Time(Ok(Some((secs, nanos)))) => match last_fetch_text(secs, nanos) {
                Ok(t) => {
                    let BranchesJob { local, remote, current, .. } = self;
                    Step::Done(Ok(BranchList { local, remote, current, last_fetch: Some(t) }))
                },
                Err(e) => Step::Done(Err(e)),
            },
            _ => Step::Done(Err(String::new())),
        }
    }
}

} // verus!
