//! Parsing of NUL-separated (`-z`) `git diff --name-status` and
//! `git diff --numstat` output, and reconciliation of the two.
//!
//! With `-z`, every path is terminated by a NUL byte. A `--name-status`
//! rename/copy record is its status code (e.g. `R100`) followed by two
//! paths (old, new); any other record carries one path. A `--numstat`
//! record is `"<add>\t<del>\t<path>"`; for a rename/copy the third field is
//! empty and the old and new paths follow as tokens of their own.
//!
//! The two streams are reconciled by the final ("new") path rather than by
//! position: with whitespace hiding (`-w`), `--numstat` drops
//! whitespace-only changes that `--name-status` still lists.

use vstd::prelude::*;

use crate::types::{DiffFile, DiffFileStatus, DiffFileView};
use crate::text::{
    chars_of, concat2, concat3, decode_lossy, parse_i64, parse_i64_spec, starts_with_char, string_from_chars,
    utf8_lossy,
};

verus! {

/// One entry parsed from `--name-status -z`.
#[derive(Debug, Clone, PartialEq, Eq)]
pub struct NameStatusEntry {
    pub status_code: String,
    /// One path normally; two (`[old, new]`) for renames/copies.
    pub paths: Vec<String>,
}

/// Mathematical model of a [`NameStatusEntry`].
pub struct NameStatusView {
    pub status_code: Seq<char>,
    pub paths: Seq<Seq<char>>,
}

impl View for NameStatusEntry {
    type V = NameStatusView;

    open spec fn view(&self) -> NameStatusView {
        NameStatusView { status_code: self.status_code@, paths: self.paths.deep_view() }
    }
}

impl DeepView for NameStatusEntry {
    type V = NameStatusView;

    open spec fn deep_view(&self) -> NameStatusView {
        self@
    }
}

/// One entry parsed from `--numstat -z`.
#[derive(Debug, Clone, PartialEq, Eq)]
pub struct NumstatEntry {
    pub additions: Option<i64>,
    pub deletions: Option<i64>,
    /// One path normally; two (`[old, new]`) for renames/copies.
    pub paths: Vec<String>,
}

/// Mathematical model of a [`NumstatEntry`].
pub struct NumstatView {
    pub additions: Option<i64>,
    pub deletions: Option<i64>,
    pub paths: Seq<Seq<char>>,
}

impl View for NumstatEntry {
    type V = NumstatView;

    open spec fn view(&self) -> NumstatView {
        NumstatView {
            additions: self.additions,
            deletions: self.deletions,
            paths: self.paths.deep_view(),
        }
    }
}

impl DeepView for NumstatEntry {
    type V = NumstatView;

    open spec fn deep_view(&self) -> NumstatView {
        self@
    }
}

// ---------------------------------------------------------------------------
// NUL-terminated tokens
/// The NUL-free runs of `b` that follow the partial run `cur`, each one
/// ended by a NUL byte or by the end of input; empty runs are dropped.
pub open spec fn nul_chunks_from(b: Seq<u8>, cur: Seq<u8>) -> Seq<Seq<u8>>
    decreases b.len(),
{
    if b.len() == 0 {
        if cur.len() > 0 {
            seq![cur]
        } else {
            seq![]
        }
    } else if b[0] == 0 {
        (if cur.len() > 0 {
            seq![cur]
        } else {
            seq![]
        }) + nul_chunks_from(b.drop_first(), seq![])
    } else {
        nul_chunks_from(b.drop_first(), cur.push(b[0]))
    }
}

/// The non-empty chunks of `b` between NUL bytes, in order.
pub open spec fn nul_chunks(b: Seq<u8>) -> Seq<Seq<u8>> {
    nul_chunks_from(b, seq![])
}

/// The tokens of a NUL-separated stream: its non-empty chunks, each
/// decoded as lossy UTF-8.
pub open spec fn nul_tokens(b: Seq<u8>) -> Seq<Seq<char>> {
    nul_chunks(b).map_values(|c: Seq<u8>| utf8_lossy(c))
}

/// Splits a NUL-terminated byte stream into UTF-8 (lossy) tokens, dropping
/// the empty tokens (the one after the final terminator among them).
pub fn split_nul(bytes: &[u8]) -> (res: Vec<String>)
    ensures
        res.deep_view() == nul_tokens(bytes@),
{
    let ghost b = bytes@;
    let mut out: Vec<String> = Vec::new();
    let ghost mut chunks: Seq<Seq<u8>> = seq![];
    let mut start: usize = 0;
    let mut i: usize = 0;
    assert(b.skip(0) =~= b);
    assert(b.subrange(0, 0) =~= seq![]);
    assert(chunks + nul_chunks(b) =~= nul_chunks(b));
    while i < bytes.len()
        invariant
            b == bytes@,
            start <= i <= b.len(),
            out.deep_view() == chunks.map_values(|c: Seq<u8>| utf8_lossy(c)),
            chunks + nul_chunks_from(b.skip(i as int), b.subrange(start as int, i as int))
                == nul_chunks(b),
        decreases b.len() - i,
    {
        let ghost cur = b.subrange(start as int, i as int);
        let ghost rest = b.skip(i as int);
        assert(rest.drop_first() =~= b.skip(i + 1));
        assert(rest[0] == b[i as int]);
        if bytes[i] == 0 {
            if i > start {
                let piece = &bytes[start..i];
                assert(piece@ == cur);
                let tok = decode_lossy(piece);
                let ghost before = out.deep_view();
                out.push(tok);
                proof {
                    assert(out.deep_view() =~= before.push(utf8_lossy(cur)));
                    assert(out.deep_view() =~= chunks.push(cur).map_values(
                        |c: Seq<u8>| utf8_lossy(c),
                    ));
                    assert(chunks.push(cur) + nul_chunks_from(b.skip(i + 1), seq![]) =~= chunks
                        + nul_chunks_from(rest, cur));
                    chunks = chunks.push(cur);
                }
            } else {
                proof {
                    assert(chunks + nul_chunks_from(b.skip(i + 1), seq![]) =~= chunks
                        + nul_chunks_from(rest, cur));
                }
            }
            start = i + 1;
            assert(b.subrange(start as int, start as int) =~= seq![]);
        } else {
            assert(cur.push(b[i as int]) =~= b.subrange(start as int, i + 1));
        }
        i += 1;
    }
    let ghost cur = b.subrange(start as int, i as int);
    assert(b.skip(i as int) =~= seq![]);
    if i > start {
        let piece = &bytes[start..i];
        assert(piece@ == cur);
        let tok = decode_lossy(piece);
        let ghost before = out.deep_view();
        out.push(tok);
        proof {
            assert(out.deep_view() =~= before.push(utf8_lossy(cur)));
            assert(out.deep_view() =~= chunks.push(cur).map_values(|c: Seq<u8>| utf8_lossy(c)));
            assert(chunks.push(cur) =~= chunks + seq![cur]);
            chunks = chunks.push(cur);
        }
    } else {
        assert(chunks + seq![] =~= chunks);
    }
    out
}

// ---------------------------------------------------------------------------
// --name-status
/// Prepends `p` to a successful parse result; errors pass through.
pub open spec fn prepend<T>(p: Seq<T>, r: Result<Seq<T>, Seq<char>>) -> Result<Seq<T>, Seq<char>> {
    match r {
        Ok(rest) => Ok(p + rest),
        Err(e) => Err(e),
    }
}

/// A status code naming a rename or a copy (`R...` / `C...`).
pub open spec fn is_rename_or_copy(code: Seq<char>) -> bool {
    starts_with_char(code, 'R') || starts_with_char(code, 'C')
}

pub open spec fn missing_pair_message(status: Seq<char>) -> Seq<char> {
    "malformed --name-status output: expected old/new path after status '"@ + status + "'"@
}

pub open spec fn missing_path_message(status: Seq<char>) -> Seq<char> {
    "malformed --name-status output: expected path after status '"@ + status + "'"@
}

/// The records of a `--name-status -z` token stream: a status token, then
/// two paths for a rename/copy or one path otherwise.
pub open spec fn name_status_records(t: Seq<Seq<char>>) -> Result<Seq<NameStatusView>, Seq<char>>
    decreases t.len(),
{
    if t.len() == 0 {
        Ok(seq![])
    } else if is_rename_or_copy(t[0]) {
        if t.len() < 3 {
            Err(missing_pair_message(t[0]))
        } else {
            prepend(
                seq![NameStatusView { status_code: t[0], paths: seq![t[1], t[2]] }],
                name_status_records(t.skip(3)),
            )
        }
    } else {
        if t.len() < 2 {
            Err(missing_path_message(t[0]))
        } else {
            prepend(
                seq![NameStatusView { status_code: t[0], paths: seq![t[1]] }],
                name_status_records(t.skip(2)),
            )
        }
    }
}

pub open spec fn seq_result_view<T: DeepView>(r: Result<Vec<T>, String>) -> Result<
    Seq<T::V>,
    Seq<char>,
> {
    match r {
        Ok(v) => Ok(v.deep_view()),
        Err(e) => Err(e@),
    }
}

/// Whether the first character of `s` is `'R'` or `'C'`.
fn rename_or_copy_code(s: &String) -> (res: bool)
    ensures
        res == is_rename_or_copy(s@),
{
    let cs = chars_of(s.as_str());
    cs.len() > 0 && (cs[0] == 'R' || cs[0] == 'C')
}

proof fn lemma_prepend_assoc<T>(a: Seq<T>, b: Seq<T>, r: Result<Seq<T>, Seq<char>>)
    ensures
        prepend(a, prepend(b, r)) == prepend(a + b, r),
{
    if let Ok(x) = r {
        assert(a + (b + x) =~= (a + b) + x);
    }
}

proof fn lemma_prepend_empty<T>(r: Result<Seq<T>, Seq<char>>)
    ensures
        prepend(Seq::<T>::empty(), r) == r,
{
    if let Ok(x) = r {
        assert(Seq::<T>::empty() + x =~= x);
    }
}

/// Parses `--name-status -z` output.
pub fn parse_name_status(bytes: &[u8]) -> (res: Result<Vec<NameStatusEntry>, String>)
    ensures
        seq_result_view(res) == name_status_records(nul_tokens(bytes@)),
{
    let tokens = split_nul(bytes);
    let ghost t = tokens.deep_view();
    let mut entries: Vec<NameStatusEntry> = Vec::new();
    let mut i: usize = 0;
    proof {
        assert(t.skip(0) =~= t);
        assert(entries.deep_view() =~= Seq::<NameStatusView>::empty());
        lemma_prepend_empty(name_status_records(t));
    }
    while i < tokens.len()
        invariant
            t == tokens.deep_view(),
            t == nul_tokens(bytes@),
            i <= tokens.len(),
            name_status_records(t) == prepend(
                entries.deep_view(),
                name_status_records(t.skip(i as int)),
            ),
        decreases tokens.len() - i,
    {
        let ghost rest = t.skip(i as int);
        assert(rest[0] == t[i as int]);
        let status = tokens[i].clone();
        if rename_or_copy_code(&status) {
            if tokens.len() - i < 3 {
                return Err(
                    concat3(
                        "malformed --name-status output: expected old/new path after status '",
                        status.as_str(),
                        "'",
                    ),
                );
            }
            let e = NameStatusEntry {
                status_code: status,
                paths: vec![tokens[i + 1].clone(), tokens[i + 2].clone()],
            };
            proof {
                assert(rest.skip(3) =~= t.skip(i + 3));
                assert(rest[1] == t[i + 1]);
                assert(rest[2] == t[i + 2]);
                assert(e.paths.deep_view() =~= seq![rest[1], rest[2]]);
                lemma_prepend_assoc(entries.deep_view(), seq![e.deep_view()], name_status_records(t.skip(i + 3)));
            }
            let ghost before = entries.deep_view();
            let ghost ev = e.deep_view();
            entries.push(e);
            assert(entries.deep_view() =~= before + seq![ev]);
            i += 3;
        } else {
            if tokens.len() - i < 2 {
                return Err(
                    concat3(
                        "malformed --name-status output: expected path after status '",
                        status.as_str(),
                        "'",
                    ),
                );
            }
            let e = NameStatusEntry { status_code: status, paths: vec![tokens[i + 1].clone()] };
            proof {
                assert(rest.skip(2) =~= t.skip(i + 2));
                assert(rest[1] == t[i + 1]);
                assert(e.paths.deep_view() =~= seq![rest[1]]);
                lemma_prepend_assoc(entries.deep_view(), seq![e.deep_view()], name_status_records(t.skip(i + 2)));
            }
            let ghost before = entries.deep_view();
            let ghost ev = e.deep_view();
            entries.push(e);
            assert(entries.deep_view() =~= before + seq![ev]);
            i += 2;
        }
    }
    assert(t.skip(i as int) =~= seq![]);
    assert(entries.deep_view() + seq![] =~= entries.deep_view());
    Ok(entries)
}


// ---------------------------------------------------------------------------
// --numstat
/// Index of the first occurrence of `c` in `s`.
pub open spec fn first_index(s: Seq<char>, c: char) -> Option<int>
    decreases s.len(),
{
    if s.len() == 0 {
        None
    } else if s[0] == c {
        Some(0)
    } else {
        match first_index(s.drop_first(), c) {
            Some(k) => Some(k + 1),
            None => None,
        }
    }
}

proof fn lemma_first_index(s: Seq<char>, c: char, i: int)
    requires
        0 <= i <= s.len(),
        forall|k: int| 0 <= k < i ==> s[k] != c,
    ensures
        i < s.len() && s[i] == c ==> first_index(s, c) == Some(i),
        i == s.len() ==> first_index(s, c) is None,
    decreases i,
{
    if i > 0 {
        lemma_first_index(s.drop_first(), c, i - 1);
    }
}

/// Position of the first `c` in `cs`.
pub fn find_char(cs: &[char], c: char) -> (res: Option<usize>)
    ensures
        res matches Some(k) ==> k < cs@.len() && first_index(cs@, c) == Some(k as int),
        res is None ==> first_index(cs@, c) is None,
{
    let mut i: usize = 0;
    while i < cs.len()
        invariant
            i <= cs@.len(),
            forall|k: int| 0 <= k < i ==> cs@[k] != c,
        decreases cs.len() - i,
    {
        if cs[i] == c {
            proof {
                lemma_first_index(cs@, c, i as int);
            }
            return Some(i);
        }
        i += 1;
    }
    proof {
        lemma_first_index(cs@, c, i as int);
    }
    None
}

/// `splitn(3, '\t')` of a numstat record's first token into the additions
/// field, the deletions field and the rest (the path, or empty for a
/// rename/copy); an error when fewer than two tabs are present.
pub open spec fn numstat_fields(tok: Seq<char>) -> Result<(Seq<char>, Seq<char>, Seq<char>), Seq<char>> {
    match first_index(tok, '\t') {
        None => Err("numstat record missing deletions field"@),
        Some(i) => {
            let rest = tok.skip(i + 1);
            match first_index(rest, '\t') {
                None => Err("numstat record missing path field"@),
                Some(j) => Ok((tok.take(i), rest.take(j), rest.skip(j + 1))),
            }
        },
    }
}

/// A numstat count: `-` (binary file) or a decimal `i64`.
pub open spec fn numstat_count(field: Seq<char>) -> Result<Option<i64>, Seq<char>> {
    if field == seq!['-'] {
        Ok(None)
    } else {
        match parse_i64_spec(field) {
            Some(v) => Ok(Some(v)),
            None => Err("invalid numstat count: '"@ + field + "'"@),
        }
    }
}

/// One numstat record with its counts parsed, followed by the records
/// `rest` of the stream.
pub open spec fn numstat_record_then(
    add: Seq<char>,
    del: Seq<char>,
    paths: Seq<Seq<char>>,
    rest: Result<Seq<NumstatView>, Seq<char>>,
) -> Result<Seq<NumstatView>, Seq<char>> {
    match numstat_count(add) {
        Err(e) => Err(e),
        Ok(a) => match numstat_count(del) {
            Err(e) => Err(e),
            Ok(d) => prepend(seq![NumstatView { additions: a, deletions: d, paths: paths }], rest),
        },
    }
}

/// The records of a `--numstat -z` token stream. A record whose path field
/// is empty is a rename/copy, and the next two tokens are its old and new
/// paths.
pub open spec fn numstat_records(t: Seq<Seq<char>>) -> Result<Seq<NumstatView>, Seq<char>>
    decreases t.len(),
{
    if t.len() == 0 {
        Ok(seq![])
    } else {
        match numstat_fields(t[0]) {
            Err(e) => Err(e),
            Ok((add, del, third)) => {
                if third.len() == 0 {
                    if t.len() < 2 {
                        Err("numstat record is a rename/copy but is missing the old path"@)
                    } else if t.len() < 3 {
                        Err("numstat record is a rename/copy but is missing the new path"@)
                    } else {
                        numstat_record_then(add, del, seq![t[1], t[2]], numstat_records(t.skip(3)))
                    }
                } else {
                    numstat_record_then(add, del, seq![third], numstat_records(t.skip(1)))
                }
            },
        }
    }
}

/// Parses one numstat count field: `-` means "binary, no count".
fn parse_numstat_count(field: &[char]) -> (res: Result<Option<i64>, String>)
    ensures
        match (res, numstat_count(field@)) {
            (Ok(a), Ok(b)) => a == b,
            (Err(a), Err(b)) => a@ == b,
            _ => false,
        },
{
    if field.len() == 1 && field[0] == '-' {
        assert(field@ =~= seq!['-']);
        Ok(None)
    } else {
        assert(field@ != seq!['-']) by {
            if field@ == seq!['-'] {
                assert(field@.len() == 1 && field@[0] == '-');
            }
        }
        match parse_i64(field) {
            Some(v) => Ok(Some(v)),
            None => {
                let f = string_from_chars(field);
                Err(concat3("invalid numstat count: '", f.as_str(), "'"))
            },
        }
    }
}

/// Parses `--numstat -z` output. Self-describing: a record is a rename/copy
/// iff the path field of its first token is empty.
pub fn parse_numstat(bytes: &[u8]) -> (res: Result<Vec<NumstatEntry>, String>)
    ensures
        seq_result_view(res) == numstat_records(nul_tokens(bytes@)),
{
    let tokens = split_nul(bytes);
    let ghost t = tokens.deep_view();
    let mut entries: Vec<NumstatEntry> = Vec::new();
    let mut ti: usize = 0;
    proof {
        assert(t.skip(0) =~= t);
        assert(entries.deep_view() =~= Seq::<NumstatView>::empty());
        lemma_prepend_empty(numstat_records(t));
    }
    while ti < tokens.len()
        invariant
            t == tokens.deep_view(),
            t == nul_tokens(bytes@),
            ti <= tokens.len(),
            numstat_records(t) == prepend(entries.deep_view(), numstat_records(t.skip(ti as int))),
        decreases tokens.len() - ti,
    {
        let ghost rest = t.skip(ti as int);
        assert(rest[0] == t[ti as int]);
        let first = chars_of(tokens[ti].as_str());
        let n = first.len();
        let i = match find_char(first.as_slice(), '\t') {
            Some(i) => i,
            None => {
                return Err(String::from_str("numstat record missing deletions field"));
            },
        };
        let tail = &first[i + 1..n];
        assert(tail@ =~= first@.skip(i + 1));
        let j = match find_char(tail, '\t') {
            Some(j) => j,
            None => {
                assert(numstat_fields(rest[0]) == Err::<(Seq<char>, Seq<char>, Seq<char>), Seq<char>>("numstat record missing path field"@));
                return Err(String::from_str("numstat record missing path field"));
            },
        };
        let add_s = &first[0..i];
        let del_s = &tail[0..j];
        let third = &tail[j + 1..tail.len()];
        assert(add_s@ =~= first@.take(i as int));
        assert(del_s@ =~= tail@.take(j as int));
        assert(third@ =~= tail@.skip(j + 1));
        ti += 1;
        let ghost used: int;
        assert(numstat_fields(rest[0]) == Ok::<(Seq<char>, Seq<char>, Seq<char>), Seq<char>>((add_s@, del_s@, third@)));
        let paths: Vec<String> = if third.len() == 0 {
            if ti >= tokens.len() {
                return Err(
                    String::from_str("numstat record is a rename/copy but is missing the old path"),
                );
            }
            if ti + 1 >= tokens.len() {
                return Err(
                    String::from_str("numstat record is a rename/copy but is missing the new path"),
                );
            }
            let p = vec![tokens[ti].clone(), tokens[ti + 1].clone()];
            proof {
                used = 3;
                assert(rest[1] == t[ti as int]);
                assert(rest[2] == t[ti + 1]);
                assert(p.deep_view() =~= seq![rest[1], rest[2]]);
            }
            ti += 2;
            p
        } else {
            let p = vec![string_from_chars(third)];
            proof {
                used = 1;
                assert(p.deep_view() =~= seq![third@]);
            }
            p
        };
        assert(rest.skip(used) =~= t.skip(ti as int));
        let additions = parse_numstat_count(add_s)?;
        let deletions = parse_numstat_count(del_s)?;
        let e = NumstatEntry { additions, deletions, paths };
        let ghost ev = e.deep_view();
        let ghost before = entries.deep_view();
        proof {
            lemma_prepend_assoc(before, seq![ev], numstat_records(t.skip(ti as int)));
        }
        entries.push(e);
        assert(entries.deep_view() =~= before + seq![ev]);
    }
    assert(t.skip(ti as int) =~= seq![]);
    assert(entries.deep_view() + seq![] =~= entries.deep_view());
    Ok(entries)
}


// ---------------------------------------------------------------------------
// reconciliation
/// Index of the numstat record that the final path `p` selects: the last
/// record whose own final path is `p` (later records replace earlier ones).
pub open spec fn numstat_lookup(nu: Seq<NumstatView>, p: Seq<char>) -> Option<int>
    decreases nu.len(),
{
    if nu.len() == 0 {
        None
    } else if nu.last().paths.last() == p {
        Some(nu.len() - 1)
    } else {
        numstat_lookup(nu.drop_last(), p)
    }
}

/// The status of a name-status code, by its first character, with the old
/// path (renames/copies only) and the current path.
pub open spec fn mapped_status(code: Seq<char>, paths: Seq<Seq<char>>) -> Result<
    (DiffFileStatus, Option<Seq<char>>, Seq<char>),
    Seq<char>,
> {
    if code.len() == 0 {
        Err("empty status code in name-status output"@)
    } else {
        let c = code[0];
        if c == 'A' {
            Ok((DiffFileStatus::Added, None, paths[0]))
        } else if c == 'M' {
            Ok((DiffFileStatus::Modified, None, paths[0]))
        } else if c == 'D' {
            Ok((DiffFileStatus::Deleted, None, paths[0]))
        } else if c == 'R' || c == 'C' {
            Ok((DiffFileStatus::Renamed, Some(paths[0]), paths[1]))
        } else if c == 'T' {
            Ok((DiffFileStatus::Typechange, None, paths[0]))
        } else if c == 'U' {
            Ok((DiffFileStatus::Unmerged, None, paths[0]))
        } else {
            Ok((DiffFileStatus::Other, None, paths[0]))
        }
    }
}

/// What `format!("{:?}", list)` renders for a list of strings.
pub uninterp spec fn string_list_debug(list: Seq<Seq<char>>) -> Seq<char>;

/// `format!("{:?}", list)`: the `Debug` rendering of a list of strings,
/// named by `string_list_debug`.
#[verifier::external_body]
fn debug_string_list(list: &Vec<String>) -> (res: String)
    ensures
        res@ == string_list_debug(list.deep_view()),
{
    format!("{:?}", list)
}

/// The message for a name-status entry whose numstat partner lists
/// different paths; it renders both path lists with `Debug`.
pub open spec fn path_mismatch_message(
    new_path: Seq<char>,
    name_status_paths: Seq<Seq<char>>,
    numstat_paths: Seq<Seq<char>>,
) -> Seq<char> {
    "name-status/numstat path mismatch for '"@ + new_path + "': "@ + string_list_debug(
        name_status_paths,
    ) + " vs "@ + string_list_debug(numstat_paths)
}

fn mismatch_message(new_path: &str, ns_paths: &Vec<String>, nu_paths: &Vec<String>) -> (res: String)
    ensures
        res@ == path_mismatch_message(new_path@, ns_paths.deep_view(), nu_paths.deep_view()),
{
    let ns_text = debug_string_list(ns_paths);
    let nu_text = debug_string_list(nu_paths);
    let head = concat3("name-status/numstat path mismatch for '", new_path, "': ");
    let middle = concat3(head.as_str(), ns_text.as_str(), " vs ");
    concat2(middle.as_str(), nu_text.as_str())
}

/// The file entry of a matched name-status/numstat pair.
pub open spec fn merged_file(
    status: DiffFileStatus,
    old_path: Option<Seq<char>>,
    path: Seq<char>,
    nu: NumstatView,
) -> DiffFileView {
    DiffFileView {
        path: path,
        old_path: old_path,
        status: status,
        additions: nu.additions,
        deletions: nu.deletions,
        is_binary: nu.additions is None || nu.deletions is None,
        is_untracked: None,
    }
}

/// Reconciliation of name-status records with numstat records, matched by
/// final path; an unmatched name-status record is dropped when gaps are
/// allowed and is an error otherwise.
pub open spec fn merged_files(ns: Seq<NameStatusView>, nu: Seq<NumstatView>, allow_gaps: bool) -> Result<
    Seq<DiffFileView>,
    Seq<char>,
>
    decreases ns.len(),
{
    if ns.len() == 0 {
        Ok(seq![])
    } else {
        let e = ns[0];
        let p = e.paths.last();
        match numstat_lookup(nu, p) {
            None => if allow_gaps {
                merged_files(ns.drop_first(), nu, allow_gaps)
            } else {
                Err("numstat has no matching record for name-status path '"@ + p + "'"@)
            },
            Some(k) => if e.paths != nu[k].paths {
                Err(path_mismatch_message(p, e.paths, nu[k].paths))
            } else {
                match mapped_status(e.status_code, e.paths) {
                    Err(m) => Err(m),
                    Ok((status, old_path, path)) => prepend(
                        seq![merged_file(status, old_path, path, nu[k])],
                        merged_files(ns.drop_first(), nu, allow_gaps),
                    ),
                }
            },
        }
    }
}

/// A name-status record as git produces it: at least one path, and at
/// least two for a rename/copy.
pub open spec fn name_status_well_formed(e: NameStatusView) -> bool {
    &&& e.paths.len() >= 1
    &&& is_rename_or_copy(e.status_code) ==> e.paths.len() >= 2
}

/// A numstat record as git produces it: at least one path.
pub open spec fn numstat_well_formed(e: NumstatView) -> bool {
    e.paths.len() >= 1
}

/// Whether reconciling reaches a name-status record that git never
/// produces and the reconciliation cannot take: processing records in
/// order up to the first error, one without a path, or a rename/copy with
/// a single path that matches its numstat record.
pub open spec fn merge_reaches_malformed(ns: Seq<NameStatusView>, nu: Seq<NumstatView>, allow_gaps: bool) -> bool
    decreases ns.len(),
{
    if ns.len() == 0 {
        false
    } else {
        let e = ns[0];
        if e.paths.len() == 0 {
            true
        } else {
            match numstat_lookup(nu, e.paths.last()) {
                None => allow_gaps && merge_reaches_malformed(ns.drop_first(), nu, allow_gaps),
                Some(k) => {
                    &&& e.paths == nu[k].paths
                    &&& e.status_code.len() > 0
                    &&& (is_rename_or_copy(e.status_code) && e.paths.len() < 2)
                        || merge_reaches_malformed(ns.drop_first(), nu, allow_gaps)
                },
            }
        }
    }
}

/// Well-formed name-status records never reach a malformed one.
pub proof fn lemma_well_formed_records_merge(ns: Seq<NameStatusView>, nu: Seq<NumstatView>, allow_gaps: bool)
    requires
        forall|k: int| 0 <= k < ns.len() ==> name_status_well_formed(#[trigger] ns[k]),
    ensures
        !merge_reaches_malformed(ns, nu, allow_gaps),
    decreases ns.len(),
{
    if ns.len() > 0 {
        let rest = ns.drop_first();
        assert forall|k: int| 0 <= k < rest.len() implies name_status_well_formed(#[trigger] rest[k]) by {
            assert(rest[k] == ns[k + 1]);
        }
        assert(name_status_well_formed(ns[0]));
        lemma_well_formed_records_merge(rest, nu, allow_gaps);
    }
}

fn map_status(code: &String, paths: &Vec<String>) -> (res: Result<
    (DiffFileStatus, Option<String>, String),
    String,
>)
    requires
        name_status_well_formed(NameStatusView { status_code: code@, paths: paths.deep_view() }),
    ensures
        match (res, mapped_status(code@, paths.deep_view())) {
            (Ok((s, o, p)), Ok((s2, o2, p2))) => s == s2 && o.deep_view() == o2 && p@ == p2,
            (Err(e), Err(e2)) => e@ == e2,
            _ => false,
        },
{
    let cs = chars_of(code.as_str());
    if cs.len() == 0 {
        return Err(String::from_str("empty status code in name-status output"));
    }
    let c = cs[0];
    assert(paths.deep_view()[0] == paths@[0]@);
    if c == 'A' {
        Ok((DiffFileStatus::Added, None, paths[0].clone()))
    } else if c == 'M' {
        Ok((DiffFileStatus::Modified, None, paths[0].clone()))
    } else if c == 'D' {
        Ok((DiffFileStatus::Deleted, None, paths[0].clone()))
    } else if c == 'R' || c == 'C' {
        assert(paths.deep_view()[1] == paths@[1]@);
        Ok((DiffFileStatus::Renamed, Some(paths[0].clone()), paths[1].clone()))
    } else if c == 'T' {
        Ok((DiffFileStatus::Typechange, None, paths[0].clone()))
    } else if c == 'U' {
        Ok((DiffFileStatus::Unmerged, None, paths[0].clone()))
    } else {
        Ok((DiffFileStatus::Other, None, paths[0].clone()))
    }
}

/// Whether two path lists are equal, element by element.
fn same_paths(a: &Vec<String>, b: &Vec<String>) -> (res: bool)
    ensures
        res == (a.deep_view() == b.deep_view()),
{
    if a.len() != b.len() {
        assert(a.deep_view().len() != b.deep_view().len());
        return false;
    }
    let mut i: usize = 0;
    while i < a.len()
        invariant
            a.len() == b.len(),
            i <= a.len(),
            forall|k: int| 0 <= k < i ==> a@[k]@ == b@[k]@,
        decreases a.len() - i,
    {
        if a[i] != b[i] {
            assert(a.deep_view()[i as int] != b.deep_view()[i as int]);
            return false;
        }
        i += 1;
    }
    assert(a.deep_view() =~= b.deep_view());
    true
}

/// The final path of a path list.
fn last_path(paths: &Vec<String>) -> (res: &String)
    requires
        paths@.len() >= 1,
    ensures
        res@ == paths.deep_view().last(),
{
    &paths[paths.len() - 1]
}

/// Finds the numstat record selected by the final path `p`.
fn lookup_numstat(nu: &Vec<NumstatEntry>, p: &String) -> (res: Option<usize>)
    requires
        forall|k: int| 0 <= k < nu@.len() ==> numstat_well_formed(#[trigger] nu@[k]@),
    ensures
        match numstat_lookup(nu.deep_view(), p@) {
            Some(k) => res == Some(k as usize) && 0 <= k < nu@.len(),
            None => res is None,
        },
{
    let mut i = nu.len();
    assert(nu.deep_view().take(i as int) =~= nu.deep_view());
    while i > 0
        invariant
            i <= nu@.len(),
            forall|k: int| 0 <= k < nu@.len() ==> numstat_well_formed(#[trigger] nu@[k]@),
            numstat_lookup(nu.deep_view(), p@) == numstat_lookup(nu.deep_view().take(i as int), p@),
        decreases i,
    {
        let ghost pre = nu.deep_view().take(i as int);
        assert(pre.drop_last() =~= nu.deep_view().take(i - 1));
        assert(pre.last() == nu@[i - 1]@);
        assert(nu@[i - 1]@.paths.len() >= 1);
        if *last_path(&nu[i - 1].paths) == *p {
            return Some(i - 1);
        }
        i -= 1;
    }
    None
}

/// Reconciles `--name-status` and `--numstat` records (from the same diff
/// invocation) into the final file list, matched by the current ("new")
/// path rather than by position.
///
/// With `allow_numstat_gaps` false, every name-status entry must have a
/// matching numstat entry; with it true, name-status entries with no
/// numstat match are dropped (whitespace-only changes hidden by `-w`).
#[verifier::spinoff_prover]
pub fn merge_entries(
    name_status: Vec<NameStatusEntry>,
    numstat: Vec<NumstatEntry>,
    allow_numstat_gaps: bool,
) -> (res: Result<Vec<DiffFile>, String>)
    requires
        forall|k: int| 0 <= k < numstat@.len() ==> numstat_well_formed(#[trigger] numstat@[k]@),
        !merge_reaches_malformed(name_status.deep_view(), numstat.deep_view(), allow_numstat_gaps),
    ensures
        seq_result_view(res) == merged_files(
            name_status.deep_view(),
            numstat.deep_view(),
            allow_numstat_gaps,
        ),
{
    let ghost ns = name_status.deep_view();
    let ghost nu = numstat.deep_view();
    let mut files: Vec<DiffFile> = Vec::new();
    let mut i: usize = 0;
    proof {
        assert(ns.skip(0) =~= ns);
        assert(files.deep_view() =~= Seq::<DiffFileView>::empty());
        lemma_prepend_empty(merged_files(ns, nu, allow_numstat_gaps));
    }
    while i < name_status.len()
        invariant
            ns == name_status.deep_view(),
            nu == numstat.deep_view(),
            i <= name_status@.len(),
            !merge_reaches_malformed(ns.skip(i as int), nu, allow_numstat_gaps),
            forall|k: int| 0 <= k < numstat@.len() ==> numstat_well_formed(#[trigger] numstat@[k]@),
            merged_files(ns, nu, allow_numstat_gaps) == prepend(
                files.deep_view(),
                merged_files(ns.skip(i as int), nu, allow_numstat_gaps),
            ),
        decreases name_status@.len() - i,
    {
        let ghost rest = ns.skip(i as int);
        assert(rest[0] == name_status@[i as int]@);
        assert(rest.drop_first() =~= ns.skip(i + 1));
        let ns_entry = &name_status[i];
        assert(ns_entry@ == rest[0]);
        let new_path = last_path(&ns_entry.paths);
        let ghost e = rest[0];
        assert(e.paths.last() == new_path@);
        let found = lookup_numstat(&numstat, new_path);
        assert(numstat_lookup(nu, e.paths.last()) matches Some(k) ==> found == Some(k as usize) && 0
            <= k < nu.len());
        assert(numstat_lookup(nu, e.paths.last()) is None ==> found is None);
        match found {
            None => {
                if allow_numstat_gaps {
                    i += 1;
                    continue;
                }
                return Err(
                    concat3(
                        "numstat has no matching record for name-status path '",
                        new_path.as_str(),
                        "'",
                    ),
                );
            },
            Some(k) => {
                let nu_entry = &numstat[k];
                assert(nu_entry@ == nu[k as int]);
                proof {
                    let lk = numstat_lookup(nu, e.paths.last());
                    assert(lk is Some);
                    let k2 = lk->0;
                    assert(0 <= k2 < nu.len() && found == Some(k2 as usize));
                    assert(nu.len() == numstat@.len());
                    assert(k2 == k as int);
                }
                if !same_paths(&ns_entry.paths, &nu_entry.paths) {
                    let msg = mismatch_message(new_path.as_str(), &ns_entry.paths, &nu_entry.paths);
                    assert(merged_files(rest, nu, allow_numstat_gaps) == Err::<Seq<DiffFileView>, Seq<char>>(msg@));
                    return Err(msg);
                }
                assert(name_status_well_formed(ns_entry@));
                let (status, old_path, path) = map_status(&ns_entry.status_code, &ns_entry.paths)?;
                let is_binary = nu_entry.additions.is_none() || nu_entry.deletions.is_none();
                let f = DiffFile {
                    path,
                    old_path,
                    status,
                    additions: nu_entry.additions,
                    deletions: nu_entry.deletions,
                    is_binary,
                    is_untracked: None,
                };
                let ghost fv = f.deep_view();
                let ghost before = files.deep_view();
                proof {
                    lemma_prepend_assoc(before, seq![fv], merged_files(ns.skip(i + 1), nu, allow_numstat_gaps));
                }
                files.push(f);
                assert(files.deep_view() =~= before + seq![fv]);
                i += 1;
            },
        }
    }
    assert(ns.skip(i as int) =~= seq![]);
    assert(files.deep_view() + seq![] =~= files.deep_view());
    Ok(files)
}


// ---------------------------------------------------------------------------
// laws
/// Every record `parse_name_status` produces has two paths exactly when
/// its status is a rename/copy and one path otherwise, so it is well
/// formed for [`merge_entries`].
pub proof fn lemma_name_status_records_shape(t: Seq<Seq<char>>)
    ensures
        name_status_records(t) matches Ok(v) ==> forall|k: int|
            0 <= k < v.len() ==> {
                &&& name_status_well_formed(#[trigger] v[k])
                &&& v[k].paths.len() == if is_rename_or_copy(v[k].status_code) {
                    2int
                } else {
                    1int
                }
            },
    decreases t.len(),
{
    if t.len() > 0 {
        let n: int = if is_rename_or_copy(t[0]) {
            3
        } else {
            2
        };
        if t.len() >= n {
            lemma_name_status_records_shape(t.skip(n));
            if let Ok(v) = name_status_records(t) {
                let rest = name_status_records(t.skip(n))->Ok_0;
                assert forall|k: int| 0 <= k < v.len() implies {
                    &&& name_status_well_formed(#[trigger] v[k])
                    &&& v[k].paths.len() == if is_rename_or_copy(v[k].status_code) {
                        2int
                    } else {
                        1int
                    }
                } by {
                    if k > 0 {
                        assert(v[k] == rest[k - 1]);
                    }
                }
            }
        }
    }
}

/// Every record `parse_numstat` produces has one path, or two for a
/// rename/copy, so it is well formed for [`merge_entries`].
pub proof fn lemma_numstat_records_shape(t: Seq<Seq<char>>)
    ensures
        numstat_records(t) matches Ok(v) ==> forall|k: int|
            0 <= k < v.len() ==> numstat_well_formed(#[trigger] v[k]) && v[k].paths.len() <= 2,
    decreases t.len(),
{
    if t.len() > 0 {
        if let Ok((add, del, third)) = numstat_fields(t[0]) {
            let n: int = if third.len() == 0 {
                3
            } else {
                1
            };
            if t.len() >= n {
                lemma_numstat_records_shape(t.skip(n));
                if let Ok(v) = numstat_records(t) {
                    let rest = numstat_records(t.skip(n))->Ok_0;
                    assert forall|k: int| 0 <= k < v.len() implies numstat_well_formed(
                        #[trigger] v[k],
                    ) && v[k].paths.len() <= 2 by {
                        if k > 0 {
                            assert(v[k] == rest[k - 1]);
                        }
                    }
                }
            }
        }
    }
}

/// Without gaps allowed, a successful reconciliation has exactly one file
/// per name-status record; with gaps allowed, at most one.
pub proof fn lemma_merged_files_count(ns: Seq<NameStatusView>, nu: Seq<NumstatView>, allow_gaps: bool)
    ensures
        merged_files(ns, nu, allow_gaps) matches Ok(files) ==> files.len() <= ns.len() && (
        !allow_gaps ==> files.len() == ns.len()),
    decreases ns.len(),
{
    if ns.len() > 0 {
        lemma_merged_files_count(ns.drop_first(), nu, allow_gaps);
    }
}

/// Allowing numstat gaps only drops unmatched records: where the strict
/// reconciliation succeeds, the lenient one gives the same files.
pub proof fn lemma_gaps_only_drop_unmatched(ns: Seq<NameStatusView>, nu: Seq<NumstatView>)
    requires
        merged_files(ns, nu, false) is Ok,
    ensures
        merged_files(ns, nu, true) == merged_files(ns, nu, false),
    decreases ns.len(),
{
    if ns.len() > 0 {
        lemma_gaps_only_drop_unmatched(ns.drop_first(), nu);
    }
}

/// Each reconciled file is tracked (`is_untracked` unset) and is binary
/// exactly when numstat gave no line counts for it.
pub proof fn lemma_merged_files_binary_flag(ns: Seq<NameStatusView>, nu: Seq<NumstatView>, allow_gaps: bool)
    ensures
        merged_files(ns, nu, allow_gaps) matches Ok(files) ==> forall|k: int|
            0 <= k < files.len() ==> (#[trigger] files[k]).is_untracked is None && (files[k].is_binary
                <==> (files[k].additions is None || files[k].deletions is None)),
    decreases ns.len(),
{
    if ns.len() > 0 {
        lemma_merged_files_binary_flag(ns.drop_first(), nu, allow_gaps);
        let e = ns[0];
        if let Ok(files) = merged_files(ns, nu, allow_gaps) {
            if let Some(k) = numstat_lookup(nu, e.paths.last()) {
                if e.paths == nu[k].paths {
                    if let Ok(_) = mapped_status(e.status_code, e.paths) {
                        let rest = merged_files(ns.drop_first(), nu, allow_gaps)->Ok_0;
                        assert forall|j: int| 0 <= j < files.len() implies (
                        #[trigger] files[j]).is_untracked is None && (files[j].is_binary <==> (
                        files[j].additions is None || files[j].deletions is None)) by {
                            if j > 0 {
                                assert(files[j] == rest[j - 1]);
                            }
                        }
                    }
                }
            }
        }
    }
}

} // verus!
