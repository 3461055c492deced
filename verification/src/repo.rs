//! Decisions behind validating a repository path, resolving revisions and
//! the change-detection fingerprint.

use vstd::prelude::*;

use crate::process::{stderr_trimmed, stdout_trimmed, GitOutput};
use crate::text::{concat2, push_char, trimmed_text};
use crate::types::RepoInfo;

verus! {

pub open spec fn not_work_tree_text() -> Seq<char> {
    "not a git working tree (bare repositories and non-git directories are not supported)"@
}

/// Checks `git rev-parse --is-inside-work-tree`: its trimmed stdout must
/// be `true` (a bare repository prints `false`; a non-repository fails).
pub fn check_work_tree(output: &GitOutput) -> (res: Result<(), String>)
    ensures
        trimmed_text(output.stdout@) == "true"@ ==> res is Ok,
        trimmed_text(output.stdout@) != "true"@ ==> (res matches Err(e) && e@
            == not_work_tree_text()),
{
    let out = stdout_trimmed(output);
    if out == String::from_str("true") {
        Ok(())
    } else {
        Err(
            String::from_str(
                "not a git working tree (bare repositories and non-git directories are not supported)",
            ),
        )
    }
}

/// The repository root from `git rev-parse --show-toplevel`.
pub fn repo_toplevel(output: &GitOutput) -> (res: Result<String, String>)
    ensures
        output.success ==> (res matches Ok(t) && t@ == trimmed_text(output.stdout@)),
        !output.success ==> (res matches Err(e) && e@ == "failed to resolve repository root: "@
            + trimmed_text(output.stderr@)),
{
    if output.success {
        Ok(stdout_trimmed(output))
    } else {
        Err(concat2("failed to resolve repository root: ", stderr_trimmed(output).as_str()))
    }
}

/// Repository info from the root, `git symbolic-ref --quiet --short HEAD`
/// (fails only on a detached HEAD; an unborn branch still has a name),
/// `git rev-parse --verify --quiet HEAD` (fails without commits) and
/// `git --version`.
pub fn repo_info(toplevel: String, symbolic: &GitOutput, head_verify: &GitOutput, version: &GitOutput) -> (res: RepoInfo)
    ensures
        res.toplevel == toplevel,
        symbolic.success ==> (res.current_branch matches Some(b) && b@ == trimmed_text(
            symbolic.stdout@,
        )),
        !symbolic.success ==> res.current_branch is None,
        res.is_detached == !symbolic.success,
        res.has_commits == head_verify.success,
        res.git_version@ == trimmed_text(version.stdout@),
{
    let (current_branch, is_detached) = if symbolic.success {
        (Some(stdout_trimmed(symbolic)), false)
    } else {
        (None, true)
    };
    RepoInfo {
        toplevel,
        current_branch,
        is_detached,
        has_commits: head_verify.success,
        git_version: stdout_trimmed(version),
    }
}

/// The full object id from `git rev-parse --verify --quiet <rev>`, or an
/// error when `rev` does not resolve.
pub fn resolve_sha(output: &GitOutput, rev: &str) -> (res: Result<String, String>)
    ensures
        output.success ==> (res matches Ok(s) && s@ == trimmed_text(output.stdout@)),
        !output.success ==> (res matches Err(e) && e@ == "failed to resolve '"@ + rev@ + "': "@
            + trimmed_text(output.stderr@)),
{
    if output.success {
        Ok(stdout_trimmed(output))
    } else {
        let mut e = String::from_str("failed to resolve '");
        e.append(rev);
        e.append("': ");
        e.append(stderr_trimmed(output).as_str());
        Err(e)
    }
}

/// HEAD's object id for the fingerprint: an unresolvable HEAD (unborn
/// branch) contributes the empty string rather than an error.
pub fn fingerprint_head(resolved: Result<String, String>) -> (res: String)
    ensures
        match resolved {
            Ok(s) => res == s,
            Err(_) => res@.len() == 0,
        },
{
    match resolved {
        Ok(s) => s,
        Err(_) => String::new(),
    }
}

/// Checks the `git status --porcelain -z` run of the fingerprint.
pub fn check_status_output(output: &GitOutput) -> (res: Result<(), String>)
    ensures
        output.success ==> res is Ok,
        !output.success ==> (res matches Err(e) && e@ == "git status failed: "@ + trimmed_text(
            output.stderr@,
        )),
{
    if output.success {
        Ok(())
    } else {
        Err(concat2("git status failed: ", stderr_trimmed(output).as_str()))
    }
}

/// The lowercase hexadecimal digits, by value.
pub open spec fn hex_alphabet() -> Seq<char> {
    seq!['0', '1', '2', '3', '4', '5', '6', '7', '8', '9', 'a', 'b', 'c', 'd', 'e', 'f']
}

/// The lowercase hexadecimal digit for `d < 16`.
pub open spec fn hex_char(d: int) -> char {
    hex_alphabet()[d]
}

/// The `n` lowest hexadecimal digits of `x`, most significant first.
pub open spec fn hex_digits(x: nat, n: nat) -> Seq<char>
    decreases n,
{
    if n == 0 {
        seq![]
    } else {
        hex_digits(x / 16, (n - 1) as nat).push(hex_char((x % 16) as int))
    }
}

fn hex_digit(d: u64) -> (res: char)
    requires
        d < 16,
    ensures
        res == hex_char(d as int),
{
    match d {
        0 => '0',
        1 => '1',
        2 => '2',
        3 => '3',
        4 => '4',
        5 => '5',
        6 => '6',
        7 => '7',
        8 => '8',
        9 => '9',
        10 => 'a',
        11 => 'b',
        12 => 'c',
        13 => 'd',
        14 => 'e',
        _ => 'f',
    }
}

/// `format!("{:016x}", h)`: the 16 lowercase hexadecimal digits of `h`,
/// zero-padded.
pub fn fingerprint_hex(h: u64) -> (res: String)
    ensures
        res@ == hex_digits(h as nat, 16),
{
    let mut v: u64 = h;
    let mut rev: Vec<char> = Vec::new();
    let mut i: u64 = 0;
    assert(hex_digits(h as nat, 16) =~= hex_digits(v as nat, 16) + rev@.reverse());
    while i < 16
        invariant
            i <= 16,
            rev@.len() == i,
            hex_digits(h as nat, 16) == hex_digits(v as nat, (16 - i) as nat) + rev@.reverse(),
        decreases 16 - i,
    {
        let d = v % 16;
        let c = hex_digit(d);
        let ghost before = rev@;
        let ghost m = (16 - i) as nat;
        assert(hex_digits(v as nat, m) == hex_digits((v / 16) as nat, (m - 1) as nat).push(c));
        rev.push(c);
        assert(rev@.reverse() =~= seq![c] + before.reverse());
        assert(hex_digits((v / 16) as nat, (m - 1) as nat).push(c) + before.reverse()
            =~= hex_digits((v / 16) as nat, (m - 1) as nat) + (seq![c] + before.reverse()));
        v = v / 16;
        i += 1;
    }
    assert(hex_digits(v as nat, 0) =~= Seq::<char>::empty());
    assert(hex_digits(h as nat, 16) =~= rev@.reverse());
    let mut out = String::new();
    let mut k: usize = 16;
    while k > 0
        invariant
            k <= 16,
            rev@.len() == 16,
            out@ == rev@.reverse().take(16 - k),
        decreases k,
    {
        let ghost before = out@;
        push_char(&mut out, rev[k - 1]);
        assert(rev@.reverse()[16 - k] == rev@[k - 1]);
        assert(rev@.reverse().take(16 - k + 1) =~= before.push(rev@[k - 1]));
        k -= 1;
    }
    assert(rev@.reverse().take(16) =~= rev@.reverse());
    out
}


/// `hex_digits(x, n)` is `n` characters long, each a lowercase
/// hexadecimal digit.
pub proof fn lemma_hex_digits_shape(x: nat, n: nat)
    ensures
        hex_digits(x, n).len() == n,
        forall|i: int| 0 <= i < n ==> hex_alphabet().contains(#[trigger] hex_digits(x, n)[i]),
    decreases n,
{
    if n > 0 {
        lemma_hex_digits_shape(x / 16, (n - 1) as nat);
        let d = (x % 16) as int;
        assert(hex_alphabet()[d] == hex_char(d));
        assert(hex_alphabet().contains(hex_char(d)));
        let prev = hex_digits(x / 16, (n - 1) as nat);
        assert forall|i: int| 0 <= i < n implies hex_alphabet().contains(
            #[trigger] hex_digits(x, n)[i],
        ) by {
            if i < n - 1 {
                assert(hex_digits(x, n)[i] == prev[i]);
            }
        }
    }
}

/// `16^n`.
pub open spec fn pow16(n: nat) -> nat
    decreases n,
{
    if n == 0 {
        1
    } else {
        16 * pow16((n - 1) as nat)
    }
}

proof fn lemma_hex_digits_injective(x: nat, y: nat, n: nat)
    requires
        x < pow16(n),
        y < pow16(n),
        hex_digits(x, n) == hex_digits(y, n),
    ensures
        x == y,
    decreases n,
{
    if n > 0 {
        let p = pow16((n - 1) as nat);
        let dx = hex_digits(x, n);
        let dy = hex_digits(y, n);
        assert(dx.drop_last() =~= hex_digits(x / 16, (n - 1) as nat));
        assert(dy.drop_last() =~= hex_digits(y / 16, (n - 1) as nat));
        assert(x / 16 < p) by (nonlinear_arith)
            requires
                x < 16 * p,
        ;
        assert(y / 16 < p) by (nonlinear_arith)
            requires
                y < 16 * p,
        ;
        lemma_hex_digits_injective(x / 16, y / 16, (n - 1) as nat);
        assert(hex_char((x % 16) as int) == hex_char((y % 16) as int)) by {
            assert(dx.last() == dy.last());
        }
        assert(x % 16 == y % 16) by {
            let a = (x % 16) as int;
            let b = (y % 16) as int;
            assert(0 <= a < 16 && 0 <= b < 16);
            if a != b {
                assert(hex_alphabet()[a] != hex_alphabet()[b]);
            }
        }
    } else {
        assert(x == 0 && y == 0);
    }
}

/// Distinct hash values give distinct fingerprints: the 16-digit
/// rendering of a `u64` is injective.
pub proof fn lemma_fingerprint_hex_injective(x: u64, y: u64)
    requires
        hex_digits(x as nat, 16) == hex_digits(y as nat, 16),
    ensures
        x == y,
{
    assert(pow16(16) == 0x1_0000_0000_0000_0000) by {
        reveal_with_fuel(pow16, 17);
    }
    lemma_hex_digits_injective(x as nat, y as nat, 16);
}

} // verus!
