//! Ref normalization and validation.
//!
//! A `target`/`source` ref arrives as a short branch name (`main`,
//! `origin/main`) or as a fully-qualified ref (`refs/heads/main`). Before it
//! reaches any other git command it is turned into a fully-qualified ref:
//! - a value that is empty or starts with `-` is rejected outright;
//! - its syntax is validated (`git check-ref-format --allow-onelevel`);
//! - a fully-qualified `refs/heads/...` / `refs/remotes/...` ref is then
//!   returned as-is;
//! - a short name resolves to `refs/heads/<name>` if that exists, else to
//!   `refs/remotes/<name>` if that exists, else is an error.
//!
//! The two git checks are asked of the caller: [`normalize_ref`] takes the
//! answers received so far and returns the next check to run, or the
//! outcome.

use vstd::prelude::*;

use crate::text::{concat2, concat3, has_prefix, starts_with};

verus! {

/// A git check that the normalization needs answered.
#[derive(Debug, Clone, PartialEq, Eq)]
pub enum RefCheck {
    /// Does `git check-ref-format --allow-onelevel <name>` succeed?
    Format(String),
    /// Does `git show-ref --verify --quiet <full ref>` succeed?
    Exists(String),
}

/// The next step of a normalization: a check to run, or the outcome.
#[derive(Debug, PartialEq, Eq)]
pub enum RefStep {
    Check(RefCheck),
    Done(Result<String, String>),
}

/// Mathematical model of a [`RefStep`].
pub enum RefStepView {
    CheckFormat(Seq<char>),
    CheckExists(Seq<char>),
    Done(Result<Seq<char>, Seq<char>>),
}

impl View for RefStep {
    type V = RefStepView;

    open spec fn view(&self) -> RefStepView {
        match self {
            RefStep::Check(RefCheck::Format(s)) => RefStepView::CheckFormat(s@),
            RefStep::Check(RefCheck::Exists(s)) => RefStepView::CheckExists(s@),
            RefStep::Done(Ok(s)) => RefStepView::Done(Ok(s@)),
            RefStep::Done(Err(e)) => RefStepView::Done(Err(e@)),
        }
    }
}

pub open spec fn heads_ref(raw: Seq<char>) -> Seq<char> {
    "refs/heads/"@ + raw
}

pub open spec fn remotes_ref(raw: Seq<char>) -> Seq<char> {
    "refs/remotes/"@ + raw
}

/// A fully-qualified local or remote-tracking branch ref.
pub open spec fn is_full_ref(r: Seq<char>) -> bool {
    has_prefix(r, "refs/heads/"@) || has_prefix(r, "refs/remotes/"@)
}

pub open spec fn not_found_message(raw: Seq<char>) -> Seq<char> {
    "branch not found: '"@ + raw + "' (checked refs/heads/"@ + raw + " and refs/remotes/"@ + raw
        + ")"@
}

/// The next step of normalizing `raw`, given the answers to the checks
/// asked so far, in order: the format check, then (short names only) the
/// existence of `refs/heads/<raw>`, then of `refs/remotes/<raw>`.
pub open spec fn normalize_step(raw: Seq<char>, answers: Seq<bool>) -> RefStepView {
    if raw.len() == 0 {
        RefStepView::Done(Err("ref must not be empty"@))
    } else if raw[0] == '-' {
        RefStepView::Done(Err("ref must not start with '-': '"@ + raw + "'"@))
    } else if answers.len() == 0 {
        RefStepView::CheckFormat(raw)
    } else if !answers[0] {
        RefStepView::Done(Err("invalid ref name: '"@ + raw + "'"@))
    } else if is_full_ref(raw) {
        RefStepView::Done(Ok(raw))
    } else if answers.len() == 1 {
        RefStepView::CheckExists(heads_ref(raw))
    } else if answers[1] {
        RefStepView::Done(Ok(heads_ref(raw)))
    } else if answers.len() == 2 {
        RefStepView::CheckExists(remotes_ref(raw))
    } else if answers[2] {
        RefStepView::Done(Ok(remotes_ref(raw)))
    } else {
        RefStepView::Done(Err(not_found_message(raw)))
    }
}

/// Normalizes `raw` (short or fully-qualified) into a fully-qualified
/// `refs/heads/<name>` or `refs/remotes/<name>` ref. `answers` holds the
/// results of the checks requested by earlier calls, in order; the result
/// is the next check to run or the final outcome.
pub fn normalize_ref(raw: &str, answers: &[bool]) -> (res: RefStep)
    ensures
        res@ == normalize_step(raw@, answers@),
{
    if raw.is_empty() {
        return RefStep::Done(Err(String::from_str("ref must not be empty")));
    }
    proof {
        reveal_strlit("-");
        assert(raw@.take(1) =~= seq![raw@[0]]);
    }
    if starts_with(raw, "-") {
        assert(raw@[0] == '-') by {
            assert(raw@.take(1)[0] == "-"@[0]);
        }
        return RefStep::Done(Err(concat3("ref must not start with '-': '", raw, "'")));
    }
    assert(raw@[0] != '-') by {
        if raw@[0] == '-' {
            assert(raw@.take(1) =~= "-"@);
        }
    }
    if answers.len() == 0 {
        return RefStep::Check(RefCheck::Format(String::from_str(raw)));
    }
    if !answers[0] {
        return RefStep::Done(Err(concat3("invalid ref name: '", raw, "'")));
    }
    if starts_with(raw, "refs/heads/") || starts_with(raw, "refs/remotes/") {
        return RefStep::Done(Ok(String::from_str(raw)));
    }
    if answers.len() == 1 {
        return RefStep::Check(RefCheck::Exists(concat2("refs/heads/", raw)));
    }
    if answers[1] {
        return RefStep::Done(Ok(concat2("refs/heads/", raw)));
    }
    if answers.len() == 2 {
        return RefStep::Check(RefCheck::Exists(concat2("refs/remotes/", raw)));
    }
    if answers[2] {
        return RefStep::Done(Ok(concat2("refs/remotes/", raw)));
    }
    let mut msg = String::from_str("branch not found: '");
    msg.append(raw);
    msg.append("' (checked refs/heads/");
    msg.append(raw);
    msg.append(" and refs/remotes/");
    msg.append(raw);
    msg.append(")");
    RefStep::Done(Err(msg))
}


/// The git arguments that answer a check: `check-ref-format
/// --allow-onelevel <name>` or `show-ref --verify --quiet <ref>`.
pub open spec fn ref_check_args_spec(step: RefStepView) -> Seq<Seq<char>> {
    match step {
        RefStepView::CheckFormat(n) => seq!["check-ref-format"@, "--allow-onelevel"@, n],
        RefStepView::CheckExists(r) => seq!["show-ref"@, "--verify"@, "--quiet"@, r],
        RefStepView::Done(_) => seq![],
    }
}

/// The git arguments of the command that answers `check`.
pub fn ref_check_args(check: &RefCheck) -> (res: Vec<String>)
    ensures
        res.deep_view() == ref_check_args_spec(RefStep::Check(*check)@),
{
    match check {
        RefCheck::Format(n) => {
            let v = vec![
                String::from_str("check-ref-format"),
                String::from_str("--allow-onelevel"),
                n.clone(),
            ];
            assert(v.deep_view() =~= ref_check_args_spec(RefStep::Check(*check)@));
            v
        },
        RefCheck::Exists(r) => {
            let v = vec![
                String::from_str("show-ref"),
                String::from_str("--verify"),
                String::from_str("--quiet"),
                r.clone(),
            ];
            assert(v.deep_view() =~= ref_check_args_spec(RefStep::Check(*check)@));
            v
        },
    }
}

/// Normalization needs at most three checks: once the format check and
/// both existence checks have been answered, the outcome is known.
pub proof fn lemma_normalize_needs_at_most_three_checks(raw: Seq<char>, answers: Seq<bool>)
    requires
        answers.len() >= 3,
    ensures
        normalize_step(raw, answers) is Done,
{
}

/// Once a normalization is done, further answers do not change its
/// outcome: each step depends only on the answers to the checks it asked.
pub proof fn lemma_normalize_outcome_is_stable(raw: Seq<char>, answers: Seq<bool>, more: Seq<bool>)
    requires
        normalize_step(raw, answers) is Done,
    ensures
        normalize_step(raw, answers + more) == normalize_step(raw, answers),
{
    let all = answers + more;
    assert forall|k: int| 0 <= k < answers.len() implies all[k] == answers[k] by {}
}

/// A successful normalization always yields a fully-qualified
/// `refs/heads/...` or `refs/remotes/...` ref, so it never starts with `-`.
pub proof fn lemma_normalized_ref_is_fully_qualified(raw: Seq<char>, answers: Seq<bool>)
    requires
        normalize_step(raw, answers) matches RefStepView::Done(Ok(_)),
    ensures
        normalize_step(raw, answers) matches RefStepView::Done(Ok(r)) && is_full_ref(r) && r[0] == 'r',
{
    reveal_strlit("refs/heads/");
    reveal_strlit("refs/remotes/");
    if let RefStepView::Done(Ok(r)) = normalize_step(raw, answers) {
        if is_full_ref(raw) && r == raw {
            if has_prefix(raw, "refs/heads/"@) {
                assert(raw[0] == raw.take(11)[0]);
            } else {
                assert(raw[0] == raw.take(13)[0]);
            }
        } else if r == heads_ref(raw) {
            assert(r.take(11) =~= "refs/heads/"@);
        } else {
            assert(r.take(13) =~= "refs/remotes/"@);
        }
    }
}

/// Normalizing the result of a normalization gives it back unchanged, as
/// long as git still accepts its format: a fully-qualified ref is returned
/// as-is, with no existence check.
pub proof fn lemma_normalize_is_idempotent(raw: Seq<char>, answers: Seq<bool>, again: Seq<bool>)
    requires
        normalize_step(raw, answers) matches RefStepView::Done(Ok(_)),
        again.len() >= 1,
        again[0],
    ensures
        normalize_step(raw, answers) matches RefStepView::Done(Ok(r)) && normalize_step(r, again)
            == RefStepView::Done(Ok(r)),
{
    lemma_normalized_ref_is_fully_qualified(raw, answers);
    reveal_strlit("refs/heads/");
    reveal_strlit("refs/remotes/");
    let r = normalize_step(raw, answers)->Done_0->Ok_0;
    assert(r.len() > 0);
}

/// A short name that exists as a local branch resolves to it, whether or
/// not a remote-tracking branch of the same name exists.
pub proof fn lemma_local_branch_wins(raw: Seq<char>, answers: Seq<bool>)
    requires
        raw.len() > 0,
        raw[0] != '-',
        !is_full_ref(raw),
        answers.len() >= 2,
        answers[0],
        answers[1],
    ensures
        normalize_step(raw, answers) == RefStepView::Done(Ok(heads_ref(raw))),
{
}

} // verus!
