//! Recently opened project paths: a small JSON array of paths, newest
//! first, deduplicated and capped at [`RECENT_LIMIT`] entries.

use vstd::prelude::*;

verus! {

/// Maximum number of remembered projects.
pub const RECENT_LIMIT: usize = 10;

/// What `serde_json::from_slice::<Vec<String>>` yields for `bytes`: the
/// list, or `None` when the bytes are not a JSON array of strings.
pub uninterp spec fn json_string_list(bytes: Seq<u8>) -> Option<Seq<Seq<char>>>;

/// What `serde_json::to_vec_pretty` writes for a list of strings.
pub uninterp spec fn json_pretty_string_list(list: Seq<Seq<char>>) -> Seq<u8>;

/// `serde_json::from_slice::<Vec<String>>(bytes).ok()`, its result named
/// by `json_string_list`.
#[verifier::external_body]
fn parse_json_string_list(bytes: &[u8]) -> (res: Option<Vec<String>>)
    ensures
        res.deep_view() == json_string_list(bytes@),
{
    match serde_json::from_slice::<Vec<String>>(bytes) {
        Ok(v) => Some(v),
        Err(_) => None,
    }
}

/// `serde_json::to_vec_pretty(list)`, with a failure rendered as its
/// message. The bytes are named by `json_pretty_string_list`. Two further
/// claims: it succeeds (serde_json fails only where a `Serialize` impl
/// fails or a map has non-string keys, and a list of strings has neither;
/// writing into a `Vec` cannot fail), and `serde_json::from_slice` reads
/// the bytes back as the same list (serde_json escapes every string it
/// writes and unescapes it when reading).
#[verifier::external_body]
fn write_json_string_list(list: &Vec<String>) -> (res: Result<Vec<u8>, String>)
    ensures
        res is Ok,
        res matches Ok(b) ==> b@ == json_pretty_string_list(list.deep_view()) && json_string_list(
            b@,
        ) == Some(list.deep_view()),
{
    match serde_json::to_vec_pretty(list) {
        Ok(b) => Ok(b),
        Err(e) => Err(format!("{e}")),
    }
}

/// The stored list as read from a file's bytes; unreadable content counts
/// as an empty list.
pub open spec fn stored_list(bytes: Seq<u8>) -> Seq<Seq<char>> {
    match json_string_list(bytes) {
        Some(list) => list,
        None => seq![],
    }
}

/// The recent-projects list held in `bytes`, or an empty list when they do
/// not hold one.
pub fn recent_from_bytes(bytes: &[u8]) -> (res: Vec<String>)
    ensures
        res.deep_view() == stored_list(bytes@),
{
    match parse_json_string_list(bytes) {
        Some(v) => v,
        None => {
            let v: Vec<String> = Vec::new();
            assert(v.deep_view() =~= Seq::<Seq<char>>::empty());
            v
        },
    }
}

/// The bytes to store for `list` (pretty-printed JSON); reading them back
/// with [`recent_from_bytes`] gives `list` again. A list of strings always
/// serializes.
pub fn recent_to_bytes(list: &Vec<String>) -> (res: Result<Vec<u8>, String>)
    ensures
        res is Ok,
        res matches Ok(b) ==> b@ == json_pretty_string_list(list.deep_view()) && stored_list(b@)
            == list.deep_view(),
        res matches Err(e) ==> exists|m: Seq<char>| e@ == "failed to serialize recent projects: "@ + m,
{
    match write_json_string_list(list) {
        Ok(b) => Ok(b),
        Err(m) => {
            let e = crate::text::concat2("failed to serialize recent projects: ", m.as_str());
            assert(e@ == "failed to serialize recent projects: "@ + m@);
            Err(e)
        },
    }
}

/// Rejects an empty project path.
pub fn validate_recent_path(project_path: &str) -> (res: Result<(), String>)
    ensures
        project_path@.len() == 0 ==> (res matches Err(e) && e@ == "project path must not be empty"@),
        project_path@.len() > 0 ==> res is Ok,
{
    if project_path.is_empty() {
        Err(String::from_str("project path must not be empty"))
    } else {
        Ok(())
    }
}

/// `list` without any occurrence of `p`, order kept.
pub open spec fn without(list: Seq<Seq<char>>, p: Seq<char>) -> Seq<Seq<char>>
    decreases list.len(),
{
    if list.len() == 0 {
        seq![]
    } else {
        let rest = without(list.drop_last(), p);
        if list.last() == p {
            rest
        } else {
            rest.push(list.last())
        }
    }
}

/// The list after opening `p`: `p` first, then the other entries in their
/// previous order, at most [`RECENT_LIMIT`] in all.
pub open spec fn recent_after_open(list: Seq<Seq<char>>, p: Seq<char>) -> Seq<Seq<char>> {
    let full = seq![p] + without(list, p);
    if full.len() <= RECENT_LIMIT {
        full
    } else {
        full.take(RECENT_LIMIT as int)
    }
}

/// Puts `project_path` at the front of the list, removing its earlier
/// occurrences and dropping the oldest entries beyond [`RECENT_LIMIT`].
pub fn update_recent(list: Vec<String>, project_path: &str) -> (res: Vec<String>)
    ensures
        res.deep_view() == recent_after_open(list.deep_view(), project_path@),
{
    let ghost lv = list.deep_view();
    let p = String::from_str(project_path);
    let mut out: Vec<String> = vec![p.clone()];
    let mut i: usize = 0;
    assert(lv.take(0) =~= Seq::<Seq<char>>::empty());
    assert(out.deep_view() =~= seq![project_path@] + without(lv.take(0), project_path@));
    while i < list.len()
        invariant
            lv == list.deep_view(),
            p@ == project_path@,
            i <= lv.len(),
            out.deep_view() == seq![project_path@] + without(lv.take(i as int), project_path@),
        decreases list.len() - i,
    {
        let ghost pre = lv.take(i + 1);
        assert(pre.drop_last() =~= lv.take(i as int));
        assert(pre.last() == list@[i as int]@);
        let ghost before = out.deep_view();
        if list[i] != p {
            out.push(list[i].clone());
            assert(out.deep_view() =~= before.push(list@[i as int]@));
        }
        i += 1;
    }
    assert(lv.take(i as int) =~= lv);
    if out.len() > RECENT_LIMIT {
        let ghost full = out.deep_view();
        out.truncate(RECENT_LIMIT);
        assert(out.deep_view() =~= full.take(RECENT_LIMIT as int));
    }
    out
}


/// No entry of `s` occurs twice.
pub open spec fn no_duplicates(s: Seq<Seq<char>>) -> bool {
    forall|i: int, j: int| 0 <= i < j < s.len() ==> s[i] != s[j]
}

proof fn lemma_without_members(list: Seq<Seq<char>>, p: Seq<char>, x: Seq<char>)
    ensures
        without(list, p).contains(x) ==> list.contains(x) && x != p,
    decreases list.len(),
{
    if list.len() > 0 {
        lemma_without_members(list.drop_last(), p, x);
        let rest = without(list.drop_last(), p);
        if without(list, p).contains(x) {
            let k = choose|k: int| 0 <= k < without(list, p).len() && without(list, p)[k] == x;
            if k < rest.len() {
                assert(rest[k] == x);
                assert(rest.contains(x));
                let m = choose|m: int| 0 <= m < list.drop_last().len() && list.drop_last()[m] == x;
                assert(list[m] == x);
            } else {
                assert(list[list.len() - 1] == x);
            }
        }
    }
}

proof fn lemma_without_no_duplicates(list: Seq<Seq<char>>, p: Seq<char>)
    requires
        no_duplicates(list),
    ensures
        no_duplicates(without(list, p)),
    decreases list.len(),
{
    if list.len() > 0 {
        let init = list.drop_last();
        assert(no_duplicates(init)) by {
            assert forall|i: int, j: int| 0 <= i < j < init.len() implies init[i] != init[j] by {
                assert(init[i] == list[i] && init[j] == list[j]);
            }
        }
        lemma_without_no_duplicates(init, p);
        let rest = without(init, p);
        let last = list.last();
        if last != p {
            lemma_without_members(init, p, last);
            assert(!init.contains(last)) by {
                if init.contains(last) {
                    let m = choose|m: int| 0 <= m < init.len() && init[m] == last;
                    assert(list[m] == list[list.len() - 1]);
                }
            }
            let r = rest.push(last);
            assert forall|i: int, j: int| 0 <= i < j < r.len() implies r[i] != r[j] by {
                if j == r.len() - 1 {
                    assert(rest.contains(rest[i]));
                }
            }
        }
    }
}

proof fn lemma_without_absent(list: Seq<Seq<char>>, p: Seq<char>)
    ensures
        !without(list, p).contains(p),
{
    if without(list, p).contains(p) {
        lemma_without_members(list, p, p);
    }
}

/// After opening `p`, it heads the list, occurs only there, and the list
/// holds at most [`RECENT_LIMIT`] entries.
pub proof fn lemma_opened_project_first(list: Seq<Seq<char>>, p: Seq<char>)
    ensures
        recent_after_open(list, p).len() >= 1,
        recent_after_open(list, p).len() <= RECENT_LIMIT,
        recent_after_open(list, p)[0] == p,
        forall|k: int| 1 <= k < recent_after_open(list, p).len() ==> #[trigger] recent_after_open(list, p)[k] != p,
{
    let w = without(list, p);
    lemma_without_absent(list, p);
    let r = recent_after_open(list, p);
    assert forall|k: int| 1 <= k < r.len() implies #[trigger] r[k] != p by {
        assert(r[k] == w[k - 1]);
        if r[k] == p {
            assert(w.contains(p));
        }
    }
}

/// Opening a project never introduces duplicates: a duplicate-free list
/// stays duplicate-free.
pub proof fn lemma_recent_stays_duplicate_free(list: Seq<Seq<char>>, p: Seq<char>)
    requires
        no_duplicates(list),
    ensures
        no_duplicates(recent_after_open(list, p)),
{
    let w = without(list, p);
    lemma_without_no_duplicates(list, p);
    lemma_without_absent(list, p);
    let full = seq![p] + w;
    assert(no_duplicates(full)) by {
        assert forall|i: int, j: int| 0 <= i < j < full.len() implies full[i] != full[j] by {
            if i == 0 {
                assert(w.contains(full[j]));
            }
        }
    }
    let r = recent_after_open(list, p);
    assert forall|i: int, j: int| 0 <= i < j < r.len() implies r[i] != r[j] by {
        assert(r[i] == full[i] && r[j] == full[j]);
    }
}

proof fn lemma_without_after_head(w: Seq<Seq<char>>, p: Seq<char>)
    requires
        !w.contains(p),
    ensures
        without(seq![p] + w, p) == w,
        without(w, p) == w,
    decreases w.len(),
{
    if w.len() > 0 {
        let init = w.drop_last();
        assert(!init.contains(p)) by {
            if init.contains(p) {
                let m = choose|m: int| 0 <= m < init.len() && init[m] == p;
                assert(w[m] == p);
            }
        }
        lemma_without_after_head(init, p);
        assert((seq![p] + w).drop_last() =~= seq![p] + init);
        assert(w.last() != p) by {
            assert(w[w.len() - 1] == w.last());
        }
        assert(init.push(w.last()) =~= w);
        assert((seq![p] + w).last() == w.last());
        assert(without(seq![p] + w, p) == without(seq![p] + init, p).push(w.last()));
    } else {
        assert(seq![p] + w =~= seq![p]);
        assert(seq![p].drop_last() =~= Seq::<Seq<char>>::empty());
        assert(without(Seq::<Seq<char>>::empty(), p) =~= Seq::<Seq<char>>::empty());
        assert(without(seq![p], p) == without(seq![p].drop_last(), p));
    }
}

/// Opening the same project twice in a row is the same as opening it once.
pub proof fn lemma_reopen_is_idempotent(list: Seq<Seq<char>>, p: Seq<char>)
    ensures
        recent_after_open(recent_after_open(list, p), p) == recent_after_open(list, p),
{
    let w = without(list, p);
    lemma_without_absent(list, p);
    let r = recent_after_open(list, p);
    let tail = r.drop_first();
    assert(!tail.contains(p)) by {
        lemma_opened_project_first(list, p);
        if tail.contains(p) {
            let m = choose|m: int| 0 <= m < tail.len() && tail[m] == p;
            assert(r[m + 1] == p);
        }
    }
    assert(r =~= seq![p] + tail) by {
        lemma_opened_project_first(list, p);
    }
    lemma_without_after_head(tail, p);
    lemma_opened_project_first(list, p);
}

proof fn lemma_without_is_filter(list: Seq<Seq<char>>, p: Seq<char>)
    ensures
        without(list, p) == list.filter(|q: Seq<char>| q != p),
    decreases list.len(),
{
    reveal_with_fuel(Seq::filter, 1);
    if list.len() > 0 {
        lemma_without_is_filter(list.drop_last(), p);
    }
}

/// Opening `p` gives `p` followed by the previous entries other than `p`,
/// in their previous order, cut to [`RECENT_LIMIT`] entries in all.
pub proof fn lemma_open_keeps_previous_order(list: Seq<Seq<char>>, p: Seq<char>)
    ensures
        ({
            let others = list.filter(|q: Seq<char>| q != p);
            let r = recent_after_open(list, p);
            &&& r.len() == (if others.len() + 1 <= RECENT_LIMIT {
                others.len() + 1int
            } else {
                RECENT_LIMIT as int
            })
            &&& r[0] == p
            &&& forall|k: int| 1 <= k < r.len() ==> #[trigger] r[k] == others[k - 1]
        }),
{
    lemma_without_is_filter(list, p);
}

} // verus!
