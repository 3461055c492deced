//! The `-z` output formats written out: what `git diff --name-status -z`
//! and `git diff --numstat -z` print for given records, and the laws that
//! the parsers read such output back as exactly those records.

use vstd::prelude::*;
use vstd::utf8::*;

use crate::parse::{
    first_index, is_rename_or_copy, name_status_records, nul_chunks, nul_chunks_from, nul_tokens,
    numstat_count, numstat_fields, numstat_records, numstat_record_then, prepend, NameStatusView,
    NumstatView,
};
use crate::summary::{raw_meta, raw_submodule_paths, word_or_empty};
use crate::text::{
    all_digits, digit_value, digits_value, is_digit, is_white_space, parse_i64_spec, pieces,
    pieces_from, utf8_lossy, Splitter,
};

verus! {

// ---------------------------------------------------------------------------
// tokens
/// A token git can write with `-z`: non-empty and free of NUL.
pub open spec fn printable_token(s: Seq<char>) -> bool {
    s.len() > 0 && !s.contains('\0')
}

/// Tokens written one after another, each as its UTF-8 bytes and a NUL.
pub open spec fn tokens_bytes(ts: Seq<Seq<char>>) -> Seq<u8>
    decreases ts.len(),
{
    if ts.len() == 0 {
        seq![]
    } else {
        encode_utf8(ts[0]) + seq![0u8] + tokens_bytes(ts.drop_first())
    }
}

proof fn lemma_scalar_bytes_nonzero(c: u32)
    by (bit_vector)
    requires
        1 <= c,
    ensures
        c <= 0x7F ==> (c & 0x7F) as u8 != 0,
        0xC0 | ((c >> 6) & 0x1F) as u8 != 0,
        0xE0 | ((c >> 12) & 0x0F) as u8 != 0,
        0xF0 | ((c >> 18) & 0x7) as u8 != 0,
        0x80 | (c & 0x3F) as u8 != 0,
        0x80 | ((c >> 6) & 0x3F) as u8 != 0,
        0x80 | ((c >> 12) & 0x3F) as u8 != 0,
{
}

/// The UTF-8 bytes of a NUL-free text hold no zero byte, and there is at
/// least one of them for each character.
proof fn lemma_encode_nul_free(s: Seq<char>)
    requires
        !s.contains('\0'),
    ensures
        forall|i: int| 0 <= i < encode_utf8(s).len() ==> #[trigger] encode_utf8(s)[i] != 0,
        encode_utf8(s).len() >= s.len(),
    decreases s.len(),
{
    if s.len() > 0 {
        let rest = s.drop_first();
        assert(!rest.contains('\0')) by {
            if rest.contains('\0') {
                let k = choose|k: int| 0 <= k < rest.len() && rest[k] == '\0';
                assert(s[k + 1] == '\0');
            }
        }
        lemma_encode_nul_free(rest);
        let c = s[0] as u32;
        assert(s[0] != '\0') by {
            if s[0] == '\0' {
                assert(s.contains('\0'));
            }
        }
        assert(c != 0) by {
            char_u32_cast(s[0], c);
            if c == 0 {
                char_u32_cast('\0', 0u32);
            }
        }
        lemma_scalar_bytes_nonzero(c);
        let head = encode_scalar(c);
        assert(forall|i: int| 0 <= i < head.len() ==> #[trigger] head[i] != 0);
        let all = encode_utf8(s);
        assert(all == head + encode_utf8(rest));
        assert forall|i: int| 0 <= i < all.len() implies #[trigger] all[i] != 0 by {
            if i < head.len() {
                assert(all[i] == head[i]);
            } else {
                assert(all[i] == encode_utf8(rest)[i - head.len()]);
            }
        }
    }
}

/// Splitting runs over a NUL-free stretch: it only extends the current run.
proof fn lemma_chunks_over_run(x: Seq<u8>, y: Seq<u8>, cur: Seq<u8>)
    requires
        forall|i: int| 0 <= i < x.len() ==> #[trigger] x[i] != 0,
    ensures
        nul_chunks_from(x + y, cur) == nul_chunks_from(y, cur + x),
    decreases x.len(),
{
    if x.len() == 0 {
        assert(x + y =~= y);
        assert(cur + x =~= cur);
    } else {
        let xs = x.drop_first();
        assert((x + y)[0] == x[0]);
        assert((x + y).drop_first() =~= xs + y);
        assert(forall|i: int| 0 <= i < xs.len() ==> #[trigger] xs[i] == x[i + 1]);
        lemma_chunks_over_run(xs, y, cur.push(x[0]));
        assert(cur.push(x[0]) + xs =~= cur + x);
    }
}

/// The NUL-separated chunks of printed tokens are the tokens' bytes.
proof fn lemma_chunks_of_tokens(ts: Seq<Seq<char>>)
    requires
        forall|i: int| 0 <= i < ts.len() ==> printable_token(#[trigger] ts[i]),
    ensures
        nul_chunks(tokens_bytes(ts)) == ts.map_values(|t: Seq<char>| encode_utf8(t)),
    decreases ts.len(),
{
    if ts.len() == 0 {
        assert(ts.map_values(|t: Seq<char>| encode_utf8(t)) =~= Seq::<Seq<u8>>::empty());
    } else {
        let rest = ts.drop_first();
        assert(forall|i: int| 0 <= i < rest.len() ==> #[trigger] rest[i] == ts[i + 1]);
        lemma_chunks_of_tokens(rest);
        assert(printable_token(ts[0]));
        lemma_encode_nul_free(ts[0]);
        let e = encode_utf8(ts[0]);
        let tail = tokens_bytes(rest);
        assert(tokens_bytes(ts) =~= e + (seq![0u8] + tail));
        lemma_chunks_over_run(e, seq![0u8] + tail, seq![]);
        assert(Seq::<u8>::empty() + e =~= e);
        assert((seq![0u8] + tail)[0] == 0);
        assert((seq![0u8] + tail).drop_first() =~= tail);
        assert(nul_chunks_from(seq![0u8] + tail, e) == seq![e] + nul_chunks_from(tail, seq![]));
        assert(ts.map_values(|t: Seq<char>| encode_utf8(t)) =~= seq![e] + rest.map_values(
            |t: Seq<char>| encode_utf8(t),
        ));
    }
}

/// Printed tokens are read back as the same tokens.
pub proof fn lemma_tokens_read_back(ts: Seq<Seq<char>>)
    requires
        forall|i: int| 0 <= i < ts.len() ==> printable_token(#[trigger] ts[i]),
    ensures
        nul_tokens(tokens_bytes(ts)) == ts,
{
    broadcast use encode_utf8_valid_utf8, encode_utf8_decode_utf8;

    lemma_chunks_of_tokens(ts);
    let chunks = nul_chunks(tokens_bytes(ts));
    assert forall|i: int| 0 <= i < ts.len() implies #[trigger] utf8_lossy(chunks[i]) == ts[i] by {
        assert(chunks[i] == encode_utf8(ts[i]));
    }
    assert(nul_tokens(tokens_bytes(ts)) =~= ts);
}

// ---------------------------------------------------------------------------
// --name-status
/// A name-status record git can print: a printable status code, then two
/// printable paths for a rename/copy and one otherwise.
pub open spec fn printable_name_status(e: NameStatusView) -> bool {
    &&& printable_token(e.status_code)
    &&& e.paths.len() == (if is_rename_or_copy(e.status_code) {
        2int
    } else {
        1int
    })
    &&& forall|i: int| 0 <= i < e.paths.len() ==> printable_token(#[trigger] e.paths[i])
}

/// The tokens of name-status records: each status code, then its paths.
pub open spec fn name_status_tokens(es: Seq<NameStatusView>) -> Seq<Seq<char>>
    decreases es.len(),
{
    if es.len() == 0 {
        seq![]
    } else {
        seq![es[0].status_code] + es[0].paths + name_status_tokens(es.drop_first())
    }
}

/// What `git diff --name-status -z` prints for the records `es`.
pub open spec fn name_status_output(es: Seq<NameStatusView>) -> Seq<u8> {
    tokens_bytes(name_status_tokens(es))
}

proof fn lemma_name_status_tokens(es: Seq<NameStatusView>)
    requires
        forall|i: int| 0 <= i < es.len() ==> printable_name_status(#[trigger] es[i]),
    ensures
        forall|i: int|
            0 <= i < name_status_tokens(es).len() ==> printable_token(
                #[trigger] name_status_tokens(es)[i],
            ),
        name_status_records(name_status_tokens(es)) == Ok::<Seq<NameStatusView>, Seq<char>>(es),
    decreases es.len(),
{
    if es.len() > 0 {
        let e = es[0];
        let rest = es.drop_first();
        assert(forall|i: int| 0 <= i < rest.len() ==> #[trigger] rest[i] == es[i + 1]);
        lemma_name_status_tokens(rest);
        assert(printable_name_status(e));
        let rt = name_status_tokens(rest);
        let t = name_status_tokens(es);
        assert(t =~= seq![e.status_code] + e.paths + rt);
        assert forall|i: int| 0 <= i < t.len() implies printable_token(#[trigger] t[i]) by {
            if i == 0 {
            } else if i < 1 + e.paths.len() {
                assert(t[i] == e.paths[i - 1]);
            } else {
                assert(t[i] == rt[i - 1 - e.paths.len()]);
            }
        }
        assert(t[0] == e.status_code);
        assert(seq![e] + rest =~= es);
        if is_rename_or_copy(e.status_code) {
            assert(t.skip(3) =~= rt);
            assert(seq![t[1], t[2]] =~= e.paths);
            assert(NameStatusView { status_code: t[0], paths: seq![t[1], t[2]] } == e);
        } else {
            assert(t.skip(2) =~= rt);
            assert(seq![t[1]] =~= e.paths);
            assert(NameStatusView { status_code: t[0], paths: seq![t[1]] } == e);
        }
    } else {
        assert(es =~= Seq::<NameStatusView>::empty());
    }
}

/// Parsing what `git diff --name-status -z` prints for records gives those
/// records back.
pub proof fn lemma_name_status_round_trip(es: Seq<NameStatusView>)
    requires
        forall|i: int| 0 <= i < es.len() ==> printable_name_status(#[trigger] es[i]),
    ensures
        name_status_records(nul_tokens(name_status_output(es))) == Ok::<
            Seq<NameStatusView>,
            Seq<char>,
        >(es),
{
    lemma_name_status_tokens(es);
    lemma_tokens_read_back(name_status_tokens(es));
}

// ---------------------------------------------------------------------------
// --numstat
/// The decimal digit for `d < 10`.
pub open spec fn digit_char(d: int) -> char {
    seq!['0', '1', '2', '3', '4', '5', '6', '7', '8', '9'][d]
}

/// The decimal digits of `n`, most significant first, with no leading
/// zero (`to_string` of a non-negative integer).
pub open spec fn decimal(n: nat) -> Seq<char>
    decreases n,
{
    if n < 10 {
        seq![digit_char(n as int)]
    } else {
        decimal(n / 10).push(digit_char((n % 10) as int))
    }
}

/// A numstat count as git prints it: `-` for a binary file, otherwise the
/// count in decimal.
pub open spec fn count_text(c: Option<i64>) -> Seq<char> {
    match c {
        None => seq!['-'],
        Some(n) => if n < 0 {
            seq!['-'] + decimal((-n) as nat)
        } else {
            decimal(n as nat)
        },
    }
}

proof fn lemma_digit_char(d: int)
    requires
        0 <= d < 10,
    ensures
        is_digit(digit_char(d)),
        digit_value(digit_char(d)) == d,
{
    assert(digit_value('0') == 0 && digit_value('1') == 1 && digit_value('2') == 2);
    assert(digit_value('3') == 3 && digit_value('4') == 4 && digit_value('5') == 5);
    assert(digit_value('6') == 6 && digit_value('7') == 7 && digit_value('8') == 8);
    assert(digit_value('9') == 9);
}

proof fn lemma_decimal(n: nat)
    ensures
        decimal(n).len() >= 1,
        all_digits(decimal(n)),
        digits_value(decimal(n)) == n,
    decreases n,
{
    if n < 10 {
        lemma_digit_char(n as int);
        let s = decimal(n);
        assert(s.drop_last() =~= Seq::<char>::empty());
        assert(digits_value(s.drop_last()) == 0);
        assert(s.last() == digit_char(n as int));
    } else {
        lemma_decimal(n / 10);
        lemma_digit_char((n % 10) as int);
        let s = decimal(n);
        assert(s.drop_last() =~= decimal(n / 10));
        assert(s.last() == digit_char((n % 10) as int));
        assert(10 * (n / 10) + n % 10 == n) by (nonlinear_arith);
        assert(digits_value(s) == 10 * digits_value(decimal(n / 10)) + digit_value(s.last()));
        assert forall|i: int| 0 <= i < s.len() implies is_digit(#[trigger] s[i]) by {
            if i < s.len() - 1 {
                assert(s[i] == decimal(n / 10)[i]);
            }
        }
    }
}

/// A printed count is read back as the same count.
proof fn lemma_count_read_back(c: Option<i64>)
    ensures
        numstat_count(count_text(c)) == Ok::<Option<i64>, Seq<char>>(c),
        count_text(c).len() >= 1,
        forall|i: int| 0 <= i < count_text(c).len() ==> #[trigger] count_text(c)[i] != '\t'
            && count_text(c)[i] != '\0',
{
    if let Some(n) = c {
        let s = count_text(c);
        if n < 0 {
            let m = (-n) as nat;
            lemma_decimal(m);
            assert(s.drop_first() =~= decimal(m));
            assert(s.len() >= 2);
            assert(s != seq!['-']);
            assert forall|i: int| 0 <= i < s.len() implies #[trigger] s[i] != '\t' && s[i] != '\0' by {
                if i > 0 {
                    assert(s[i] == decimal(m)[i - 1]);
                    assert(is_digit(decimal(m)[i - 1]));
                }
            }
            assert(parse_i64_spec(s) == Some(n));
        } else {
            lemma_decimal(n as nat);
            assert(is_digit(s[0]));
            assert(s != seq!['-']) by {
                if s == seq!['-'] {
                    assert(s[0] == '-');
                }
            }
            assert forall|i: int| 0 <= i < s.len() implies #[trigger] s[i] != '\t' && s[i] != '\0' by {
                assert(is_digit(s[i]));
            }
            assert(parse_i64_spec(s) == Some(n));
        }
    } else {
        assert(count_text(c) =~= seq!['-']);
    }
}

pub(crate) proof fn lemma_first_index_after(x: Seq<char>, y: Seq<char>, c: char)
    requires
        forall|i: int| 0 <= i < x.len() ==> #[trigger] x[i] != c,
    ensures
        first_index(x + seq![c] + y, c) == Some(x.len() as int),
    decreases x.len(),
{
    let s = x + seq![c] + y;
    if x.len() == 0 {
        assert(s[0] == c);
    } else {
        let xs = x.drop_first();
        assert(forall|i: int| 0 <= i < xs.len() ==> #[trigger] xs[i] == x[i + 1]);
        lemma_first_index_after(xs, y, c);
        assert(s.drop_first() =~= xs + seq![c] + y);
        assert(s[0] == x[0]);
    }
}

/// The tab-separated counts that open a numstat record.
pub open spec fn numstat_head(e: NumstatView) -> Seq<char> {
    count_text(e.additions) + seq!['\t'] + count_text(e.deletions) + seq!['\t']
}

/// The tokens of one numstat record: the counts and the path in one token,
/// or, for a rename/copy, the counts with an empty path field followed by
/// the old and new paths.
pub open spec fn numstat_record_tokens(e: NumstatView) -> Seq<Seq<char>> {
    if e.paths.len() == 1 {
        seq![numstat_head(e) + e.paths[0]]
    } else {
        seq![numstat_head(e), e.paths[0], e.paths[1]]
    }
}

/// The tokens of numstat records, in order.
pub open spec fn numstat_tokens(es: Seq<NumstatView>) -> Seq<Seq<char>>
    decreases es.len(),
{
    if es.len() == 0 {
        seq![]
    } else {
        numstat_record_tokens(es[0]) + numstat_tokens(es.drop_first())
    }
}

/// What `git diff --numstat -z` prints for the records `es`.
pub open spec fn numstat_output(es: Seq<NumstatView>) -> Seq<u8> {
    tokens_bytes(numstat_tokens(es))
}

/// A numstat record git can print: one path, or two (old and new) for a
/// rename/copy, each printable.
pub open spec fn printable_numstat(e: NumstatView) -> bool {
    &&& (e.paths.len() == 1 || e.paths.len() == 2)
    &&& forall|i: int| 0 <= i < e.paths.len() ==> printable_token(#[trigger] e.paths[i])
}

proof fn lemma_numstat_record(e: NumstatView, rest: Seq<Seq<char>>, parsed: Result<Seq<NumstatView>, Seq<char>>)
    requires
        printable_numstat(e),
        numstat_records(rest) == parsed,
    ensures
        numstat_records(numstat_record_tokens(e) + rest) == prepend(seq![e], parsed),
        forall|i: int|
            0 <= i < numstat_record_tokens(e).len() ==> printable_token(
                #[trigger] numstat_record_tokens(e)[i],
            ),
{
    lemma_count_read_back(e.additions);
    lemma_count_read_back(e.deletions);
    let a = count_text(e.additions);
    let d = count_text(e.deletions);
    let third = if e.paths.len() == 1 {
        e.paths[0]
    } else {
        seq![]
    };
    let tok = numstat_head(e) + third;
    let t = numstat_record_tokens(e) + rest;
    assert(t[0] == tok);
    lemma_first_index_after(a, d + seq!['\t'] + third, '\t');
    assert(tok =~= a + seq!['\t'] + (d + seq!['\t'] + third));
    let after = tok.skip(a.len() + 1int);
    assert(after =~= d + seq!['\t'] + third);
    lemma_first_index_after(d, third, '\t');
    assert(tok.take(a.len() as int) =~= a);
    assert(after.take(d.len() as int) =~= d);
    assert(after.skip(d.len() + 1int) =~= third);
    assert(numstat_fields(tok) == Ok::<(Seq<char>, Seq<char>, Seq<char>), Seq<char>>((a, d, third)));
    assert(printable_token(tok)) by {
        assert forall|i: int| 0 <= i < tok.len() implies tok[i] != '\0' by {
            if i < a.len() {
                assert(tok[i] == a[i]);
            } else if i == a.len() {
            } else if i < a.len() + 1 + d.len() {
                assert(tok[i] == d[i - a.len() - 1]);
            } else if i == a.len() + 1 + d.len() {
            } else {
                assert(tok[i] == third[i - a.len() - 2 - d.len()]);
                assert(printable_token(e.paths[0]));
                assert(third.contains(third[i - a.len() - 2 - d.len()]));
            }
        }
    }
    if e.paths.len() == 1 {
        assert(printable_token(e.paths[0]));
        assert(t.skip(1) =~= rest);
        assert(seq![third] =~= e.paths);
    } else {
        assert(third.len() == 0);
        assert(t[1] == e.paths[0] && t[2] == e.paths[1]);
        assert(t.skip(3) =~= rest);
        assert(seq![t[1], t[2]] =~= e.paths);
        assert(tok =~= numstat_head(e));
    }
    assert(NumstatView { additions: e.additions, deletions: e.deletions, paths: e.paths } == e);
}

proof fn lemma_numstat_tokens(es: Seq<NumstatView>)
    requires
        forall|i: int| 0 <= i < es.len() ==> printable_numstat(#[trigger] es[i]),
    ensures
        forall|i: int|
            0 <= i < numstat_tokens(es).len() ==> printable_token(#[trigger] numstat_tokens(es)[i]),
        numstat_records(numstat_tokens(es)) == Ok::<Seq<NumstatView>, Seq<char>>(es),
    decreases es.len(),
{
    if es.len() > 0 {
        let e = es[0];
        let rest = es.drop_first();
        assert(forall|i: int| 0 <= i < rest.len() ==> #[trigger] rest[i] == es[i + 1]);
        lemma_numstat_tokens(rest);
        let rt = numstat_tokens(rest);
        lemma_numstat_record(e, rt, Ok(rest));
        let head = numstat_record_tokens(e);
        let t = numstat_tokens(es);
        assert(t =~= head + rt);
        assert forall|i: int| 0 <= i < t.len() implies printable_token(#[trigger] t[i]) by {
            if i < head.len() {
                assert(t[i] == head[i]);
            } else {
                assert(t[i] == rt[i - head.len()]);
            }
        }
        assert(seq![e] + rest =~= es);
    } else {
        assert(es =~= Seq::<NumstatView>::empty());
    }
}

/// Parsing what `git diff --numstat -z` prints for records gives those
/// records back.
pub proof fn lemma_numstat_round_trip(es: Seq<NumstatView>)
    requires
        forall|i: int| 0 <= i < es.len() ==> printable_numstat(#[trigger] es[i]),
    ensures
        numstat_records(nul_tokens(numstat_output(es))) == Ok::<Seq<NumstatView>, Seq<char>>(es),
{
    lemma_numstat_tokens(es);
    lemma_tokens_read_back(numstat_tokens(es));
}

// ---------------------------------------------------------------------------
// --raw
/// One record of `git diff --raw -z`: the old and new modes, the old and
/// new object ids, the status, and the path (old and new for a
/// rename/copy).
pub struct RawRecordView {
    pub old_mode: Seq<char>,
    pub new_mode: Seq<char>,
    pub old_sha: Seq<char>,
    pub new_sha: Seq<char>,
    pub status: Seq<char>,
    pub paths: Seq<Seq<char>>,
}

/// A word of a `--raw` metadata token: non-empty, with no whitespace and
/// no NUL.
pub open spec fn raw_word(w: Seq<char>) -> bool {
    &&& w.len() > 0
    &&& forall|i: int| 0 <= i < w.len() ==> !is_white_space(#[trigger] w[i]) && w[i] != '\0'
}

/// A `--raw` record git can print.
pub open spec fn printable_raw(r: RawRecordView) -> bool {
    &&& raw_word(r.old_mode)
    &&& raw_word(r.new_mode)
    &&& raw_word(r.old_sha)
    &&& raw_word(r.new_sha)
    &&& raw_word(r.status)
    &&& r.paths.len() == (if is_rename_or_copy(r.status) {
        2int
    } else {
        1int
    })
    &&& forall|i: int| 0 <= i < r.paths.len() ==> printable_token(#[trigger] r.paths[i])
}

/// `w`, a space, then `rest`.
pub open spec fn spaced(w: Seq<char>, rest: Seq<char>) -> Seq<char> {
    w + (seq![' '] + rest)
}

/// The metadata of a record without its leading `:`: the five words
/// separated by spaces.
pub open spec fn raw_meta_text(r: RawRecordView) -> Seq<char> {
    spaced(r.old_mode, spaced(r.new_mode, spaced(r.old_sha, spaced(r.new_sha, r.status))))
}

/// The tokens of `--raw` records: each `:`-prefixed metadata token, then
/// its paths.
pub open spec fn raw_tokens(rs: Seq<RawRecordView>) -> Seq<Seq<char>>
    decreases rs.len(),
{
    if rs.len() == 0 {
        seq![]
    } else {
        seq![seq![':'] + raw_meta_text(rs[0])] + rs[0].paths + raw_tokens(rs.drop_first())
    }
}

/// What `git diff --raw -z` prints for the records `rs`.
pub open spec fn raw_output(rs: Seq<RawRecordView>) -> Seq<u8> {
    tokens_bytes(raw_tokens(rs))
}

/// The final path (the new one of a rename/copy) of every record whose old
/// mode or new mode is `160000`, a gitlink, in order.
pub open spec fn gitlink_final_paths(rs: Seq<RawRecordView>) -> Seq<Seq<char>>
    decreases rs.len(),
{
    if rs.len() == 0 {
        seq![]
    } else {
        let r = rs[0];
        let rest = gitlink_final_paths(rs.drop_first());
        if r.old_mode == "160000"@ || r.new_mode == "160000"@ {
            seq![r.paths.last()] + rest
        } else {
            rest
        }
    }
}

proof fn lemma_pieces_over_word(x: Seq<char>, y: Seq<char>, cur: Seq<char>)
    requires
        forall|i: int| 0 <= i < x.len() ==> !is_white_space(#[trigger] x[i]),
    ensures
        pieces_from(Splitter::Whitespace, x + y, cur) == pieces_from(Splitter::Whitespace, y, cur + x),
    decreases x.len(),
{
    if x.len() == 0 {
        assert(x + y =~= y);
        assert(cur + x =~= cur);
    } else {
        let xs = x.drop_first();
        assert((x + y)[0] == x[0]);
        assert((x + y).drop_first() =~= xs + y);
        assert(forall|i: int| 0 <= i < xs.len() ==> #[trigger] xs[i] == x[i + 1]);
        lemma_pieces_over_word(xs, y, cur.push(x[0]));
        assert(cur.push(x[0]) + xs =~= cur + x);
    }
}

proof fn lemma_spaced_pieces(w: Seq<char>, rest: Seq<char>)
    requires
        raw_word(w),
    ensures
        pieces(Splitter::Whitespace, spaced(w, rest)) == seq![w] + pieces(Splitter::Whitespace, rest),
{
    lemma_pieces_over_word(w, seq![' '] + rest, seq![]);
    assert(Seq::<char>::empty() + w =~= w);
    let t = seq![' '] + rest;
    assert(t[0] == ' ');
    assert(is_white_space(' '));
    assert(t.drop_first() =~= rest);
}

proof fn lemma_last_word_pieces(w: Seq<char>)
    requires
        raw_word(w),
    ensures
        pieces(Splitter::Whitespace, w) == seq![w],
{
    lemma_pieces_over_word(w, seq![], seq![]);
    assert(w + Seq::<char>::empty() =~= w);
    assert(Seq::<char>::empty() + w =~= w);
}

proof fn lemma_raw_words(r: RawRecordView)
    requires
        printable_raw(r),
    ensures
        pieces(Splitter::Whitespace, raw_meta_text(r)) == seq![
            r.old_mode,
            r.new_mode,
            r.old_sha,
            r.new_sha,
            r.status,
        ],
        word_or_empty(raw_meta_text(r), 0) == r.old_mode,
        word_or_empty(raw_meta_text(r), 1) == r.new_mode,
        word_or_empty(raw_meta_text(r), 4) == r.status,
{
    lemma_last_word_pieces(r.status);
    lemma_spaced_pieces(r.new_sha, r.status);
    lemma_spaced_pieces(r.old_sha, spaced(r.new_sha, r.status));
    lemma_spaced_pieces(r.new_mode, spaced(r.old_sha, spaced(r.new_sha, r.status)));
    lemma_spaced_pieces(
        r.old_mode,
        spaced(r.new_mode, spaced(r.old_sha, spaced(r.new_sha, r.status))),
    );
    assert(pieces(Splitter::Whitespace, raw_meta_text(r)) =~= seq![
        r.old_mode,
        r.new_mode,
        r.old_sha,
        r.new_sha,
        r.status,
    ]);
}

proof fn lemma_raw_meta_token(r: RawRecordView)
    requires
        printable_raw(r),
    ensures
        raw_meta(seq![':'] + raw_meta_text(r)) == raw_meta_text(r),
        printable_token(seq![':'] + raw_meta_text(r)),
{
    let m = raw_meta_text(r);
    let tok = seq![':'] + m;
    assert(tok.drop_first() =~= m);
    assert(!tok.contains('\0')) by {
        if tok.contains('\0') {
            let i = choose|i: int| 0 <= i < tok.len() && tok[i] == '\0';
            let a = r.old_mode;
            let b = r.new_mode;
            let c = r.old_sha;
            let d = r.new_sha;
            let e = r.status;
            assert(tok =~= seq![':'] + a + seq![' '] + b + seq![' '] + c + seq![' '] + d + seq![' ']
                + e);
            let i1 = i - 1;
            if i == 0 {
            } else if i1 < a.len() {
                assert(tok[i] == a[i1]);
            } else if i1 == a.len() {
            } else if i1 < a.len() + 1 + b.len() {
                assert(tok[i] == b[i1 - a.len() - 1]);
            } else if i1 == a.len() + 1 + b.len() {
            } else if i1 < a.len() + 2 + b.len() + c.len() {
                assert(tok[i] == c[i1 - a.len() - 2 - b.len()]);
            } else if i1 == a.len() + 2 + b.len() + c.len() {
            } else if i1 < a.len() + 3 + b.len() + c.len() + d.len() {
                assert(tok[i] == d[i1 - a.len() - 3 - b.len() - c.len()]);
            } else if i1 == a.len() + 3 + b.len() + c.len() + d.len() {
            } else {
                assert(tok[i] == e[i1 - a.len() - 4 - b.len() - c.len() - d.len()]);
            }
        }
    }
}

proof fn lemma_raw_tokens(rs: Seq<RawRecordView>)
    requires
        forall|i: int| 0 <= i < rs.len() ==> printable_raw(#[trigger] rs[i]),
    ensures
        forall|i: int|
            0 <= i < raw_tokens(rs).len() ==> printable_token(#[trigger] raw_tokens(rs)[i]),
        raw_submodule_paths(raw_tokens(rs)) == Ok::<Seq<Seq<char>>, Seq<char>>(gitlink_final_paths(rs)),
    decreases rs.len(),
{
    if rs.len() > 0 {
        let r = rs[0];
        let rest = rs.drop_first();
        assert(forall|i: int| 0 <= i < rest.len() ==> #[trigger] rest[i] == rs[i + 1]);
        lemma_raw_tokens(rest);
        assert(printable_raw(r));
        lemma_raw_words(r);
        lemma_raw_meta_token(r);
        reveal_strlit("160000");
        let tok = seq![':'] + raw_meta_text(r);
        let rt = raw_tokens(rest);
        let t = raw_tokens(rs);
        assert(t =~= seq![tok] + r.paths + rt);
        assert(t[0] == tok);
        assert forall|i: int| 0 <= i < t.len() implies printable_token(#[trigger] t[i]) by {
            if i == 0 {
            } else if i < 1 + r.paths.len() {
                assert(t[i] == r.paths[i - 1]);
            } else {
                assert(t[i] == rt[i - 1 - r.paths.len()]);
            }
        }
        if is_rename_or_copy(r.status) {
            assert(t.skip(3) =~= rt);
            assert(t[2] == r.paths.last());
        } else {
            assert(t.skip(2) =~= rt);
            assert(t[1] == r.paths.last());
        }
        let sub = r.old_mode == "160000"@ || r.new_mode == "160000"@;
        if sub {
            assert(seq![r.paths.last()] + gitlink_final_paths(rest) == gitlink_final_paths(rs));
        } else {
            assert(Seq::<Seq<char>>::empty() + gitlink_final_paths(rest) =~= gitlink_final_paths(rest));
        }
    }
}

/// Reading what `git diff --raw -z` prints for records gives, in order,
/// the final path of every record whose old mode or new mode is `160000`:
/// a submodule that was removed, added, or changed counts alike.
pub proof fn lemma_raw_submodule_paths_of_output(rs: Seq<RawRecordView>)
    requires
        forall|i: int| 0 <= i < rs.len() ==> printable_raw(#[trigger] rs[i]),
    ensures
        raw_submodule_paths(nul_tokens(raw_output(rs))) == Ok::<Seq<Seq<char>>, Seq<char>>(
            gitlink_final_paths(rs),
        ),
{
    lemma_raw_tokens(rs);
    lemma_tokens_read_back(raw_tokens(rs));
}

} // verus!
