//! Character-level helpers over `String`/`&str` and byte buffers: lossy
//! UTF-8 decoding, prefix and substring tests, Unicode whitespace trimming
//! and strict decimal parsing.

use vstd::prelude::*;
use vstd::utf8::*;

verus! {

/// What `String::from_utf8_lossy` yields for a byte sequence that is not
/// valid UTF-8: the valid parts decoded, every invalid sequence replaced by
/// U+FFFD.
pub uninterp spec fn utf8_lossy_invalid(bytes: Seq<u8>) -> Seq<char>;

/// What `String::from_utf8_lossy` yields for a byte sequence: the UTF-8
/// decoding of valid input, [`utf8_lossy_invalid`] otherwise.
pub open spec fn utf8_lossy(bytes: Seq<u8>) -> Seq<char> {
    if valid_utf8(bytes) {
        decode_utf8(bytes)
    } else {
        utf8_lossy_invalid(bytes)
    }
}

/// `String::from_utf8_lossy(bytes).into_owned()`. Valid UTF-8 is decoded
/// without replacement (as its documentation states); the text for invalid
/// input is named by `utf8_lossy_invalid`.
#[verifier::external_body]
pub(crate) fn decode_lossy(bytes: &[u8]) -> (res: String)
    ensures
        valid_utf8(bytes@) ==> res@ == decode_utf8(bytes@),
        !valid_utf8(bytes@) ==> res@ == utf8_lossy_invalid(bytes@),
        res@ == utf8_lossy(bytes@),
{
    String::from_utf8_lossy(bytes).into_owned()
}

/// `String::push`: appends one character.
#[verifier::external_body]
pub(crate) fn push_char(s: &mut String, c: char)
    ensures
        final(s)@ == old(s)@.push(c),
{
    s.push(c);
}

/// The characters of `s`, in order.
pub fn chars_of(s: &str) -> (res: Vec<char>)
    ensures
        res@ == s@,
{
    let mut out: Vec<char> = Vec::new();
    for c in it: s.chars()
        invariant
            out@ == it.seq().take(it.index() as int),
    {
        out.push(c);
    }
    out
}

/// A string holding exactly the characters of `cs`.
pub fn string_from_chars(cs: &[char]) -> (res: String)
    ensures
        res@ == cs@,
{
    let mut s = String::new();
    for i in 0..cs.len()
        invariant
            s@ == cs@.take(i as int),
    {
        push_char(&mut s, cs[i]);
        assert(cs@.take(i + 1) == cs@.take(i as int).push(cs@[i as int]));
    }
    assert(cs@.take(cs@.len() as int) == cs@);
    s
}

/// `a ++ b ++ c` as a new string.
pub fn concat3(a: &str, b: &str, c: &str) -> (res: String)
    ensures
        res@ == a@ + b@ + c@,
{
    let mut s = String::from_str(a);
    s.append(b);
    s.append(c);
    s
}

/// `a ++ b` as a new string.
pub fn concat2(a: &str, b: &str) -> (res: String)
    ensures
        res@ == a@ + b@,
{
    let mut s = String::from_str(a);
    s.append(b);
    s
}

pub open spec fn has_prefix(s: Seq<char>, prefix: Seq<char>) -> bool {
    prefix.len() <= s.len() && s.take(prefix.len() as int) == prefix
}

/// `s` starts with `prefix`.
pub fn starts_with(s: &str, prefix: &str) -> (res: bool)
    ensures
        res == has_prefix(s@, prefix@),
{
    let cs = chars_of(s);
    let ps = chars_of(prefix);
    if ps.len() > cs.len() {
        return false;
    }
    let mut i: usize = 0;
    while i < ps.len()
        invariant
            cs@ == s@,
            ps@ == prefix@,
            ps.len() <= cs.len(),
            i <= ps.len(),
            forall|k: int| 0 <= k < i ==> cs@[k] == ps@[k],
        decreases ps.len() - i,
    {
        if cs[i] != ps[i] {
            assert(s@.take(prefix@.len() as int)[i as int] != prefix@[i as int]);
            return false;
        }
        i += 1;
    }
    assert(s@.take(prefix@.len() as int) =~= prefix@);
    true
}

/// `s` starts with the character `c`.
pub open spec fn starts_with_char(s: Seq<char>, c: char) -> bool {
    s.len() > 0 && s[0] == c
}

pub open spec fn occurs_at(s: Seq<char>, needle: Seq<char>, i: int) -> bool {
    0 <= i && i + needle.len() <= s.len() && s.subrange(i, i + needle.len()) == needle
}

pub open spec fn contains_seq(s: Seq<char>, needle: Seq<char>) -> bool {
    exists|i: int| occurs_at(s, needle, i)
}

/// `s` contains `needle` as a contiguous substring.
pub fn contains_str(s: &str, needle: &str) -> (res: bool)
    ensures
        res == contains_seq(s@, needle@),
{
    let cs = chars_of(s);
    let ns = chars_of(needle);
    if ns.len() > cs.len() {
        assert forall|i: int| !occurs_at(s@, needle@, i) by {}
        return false;
    }
    if ns.len() == 0 {
        assert(s@.subrange(0, 0) =~= needle@);
        assert(occurs_at(s@, needle@, 0));
        return true;
    }
    let last = cs.len() - ns.len();
    let mut i: usize = 0;
    while i <= last
        invariant
            cs@ == s@,
            ns@ == needle@,
            0 < ns.len() <= cs.len(),
            last == cs.len() - ns.len(),
            i <= last + 1,
            forall|k: int| 0 <= k < i ==> !occurs_at(s@, needle@, k),
        decreases last + 1 - i,
    {
        let mut j: usize = 0;
        let mut matched = true;
        while j < ns.len()
            invariant
                cs@ == s@,
                ns@ == needle@,
                i + ns.len() <= cs.len(),
                j <= ns.len(),
                matched ==> forall|k: int| 0 <= k < j ==> cs@[i + k] == ns@[k],
                !matched ==> !occurs_at(s@, needle@, i as int),
            decreases ns.len() - j,
        {
            if cs[i + j] != ns[j] {
                assert(s@.subrange(i as int, i + needle@.len())[j as int] != needle@[j as int]);
                matched = false;
            }
            j += 1;
        }
        if matched {
            assert(s@.subrange(i as int, i + needle@.len()) =~= needle@);
            assert(occurs_at(s@, needle@, i as int));
            return true;
        }
        i += 1;
    }
    assert forall|k: int| !occurs_at(s@, needle@, k) by {
        if 0 <= k && k + needle@.len() <= s@.len() {
            assert(k < i);
        }
    }
    false
}

/// The Unicode `White_Space` property, the set that `char::is_whitespace`
/// and `str::trim` use.
pub open spec fn is_white_space(c: char) -> bool {
    let u = c as u32;
    ||| (0x9 <= u && u <= 0xd)
    ||| u == 0x20
    ||| u == 0x85
    ||| u == 0xa0
    ||| u == 0x1680
    ||| (0x2000 <= u && u <= 0x200a)
    ||| u == 0x2028
    ||| u == 0x2029
    ||| u == 0x202f
    ||| u == 0x205f
    ||| u == 0x3000
}

fn white_space(c: char) -> (res: bool)
    ensures
        res == is_white_space(c),
{
    let u = c as u32;
    (0x9 <= u && u <= 0xd) || u == 0x20 || u == 0x85 || u == 0xa0 || u == 0x1680 || (0x2000 <= u
        && u <= 0x200a) || u == 0x2028 || u == 0x2029 || u == 0x202f || u == 0x205f || u == 0x3000
}

/// Number of leading whitespace characters of `s`.
pub open spec fn leading_ws(s: Seq<char>) -> nat
    decreases s.len(),
{
    if s.len() > 0 && is_white_space(s[0]) {
        1 + leading_ws(s.drop_first())
    } else {
        0
    }
}

/// Number of trailing whitespace characters of `s`.
pub open spec fn trailing_ws(s: Seq<char>) -> nat
    decreases s.len(),
{
    if s.len() > 0 && is_white_space(s.last()) {
        1 + trailing_ws(s.drop_last())
    } else {
        0
    }
}

/// `s` with leading and trailing whitespace removed (`str::trim`).
pub open spec fn trimmed(s: Seq<char>) -> Seq<char> {
    let rest = s.skip(leading_ws(s) as int);
    rest.take(rest.len() - trailing_ws(rest))
}

proof fn lemma_leading_ws(s: Seq<char>, i: int)
    requires
        0 <= i <= s.len(),
        forall|k: int| 0 <= k < i ==> is_white_space(#[trigger] s[k]),
        i == s.len() || !is_white_space(s[i]),
    ensures
        leading_ws(s) == i,
    decreases i,
{
    if i > 0 {
        lemma_leading_ws(s.drop_first(), i - 1);
    }
}

proof fn lemma_trailing_ws(s: Seq<char>, i: int)
    requires
        0 <= i <= s.len(),
        forall|k: int| s.len() - i <= k < s.len() ==> is_white_space(#[trigger] s[k]),
        i == s.len() || !is_white_space(s[s.len() - 1 - i]),
    ensures
        trailing_ws(s) == i,
    decreases i,
{
    if i > 0 {
        lemma_trailing_ws(s.drop_last(), i - 1);
    }
}

proof fn lemma_ws_bounds(s: Seq<char>)
    ensures
        leading_ws(s) <= s.len(),
        trailing_ws(s) <= s.len(),
    decreases s.len(),
{
    if s.len() > 0 {
        lemma_ws_bounds(s.drop_first());
        lemma_ws_bounds(s.drop_last());
    }
}

/// `str::trim`: `cs` without its leading and trailing whitespace.
pub fn trim_chars(cs: &[char]) -> (res: Vec<char>)
    ensures
        res@ == trimmed(cs@),
{
    let n = cs.len();
    let mut a: usize = 0;
    while a < n && white_space(cs[a])
        invariant
            n == cs@.len(),
            a <= n,
            forall|k: int| 0 <= k < a ==> is_white_space(#[trigger] cs@[k]),
        decreases n - a,
    {
        a += 1;
    }
    proof {
        lemma_leading_ws(cs@, a as int);
    }
    let mut b: usize = n;
    while b > a && white_space(cs[b - 1])
        invariant
            n == cs@.len(),
            a <= b <= n,
            forall|k: int| b <= k < n ==> is_white_space(#[trigger] cs@[k]),
        decreases b,
    {
        b -= 1;
    }
    let ghost rest = cs@.skip(a as int);
    proof {
        assert forall|k: int| rest.len() - (n - b) <= k < rest.len() implies is_white_space(
            #[trigger] rest[k],
        ) by {
            assert(rest[k] == cs@[a + k]);
        }
        if b > a {
            assert(rest[rest.len() - 1 - (n - b)] == cs@[b - 1]);
        }
        lemma_trailing_ws(rest, (n - b) as int);
    }
    let mut out: Vec<char> = Vec::new();
    let mut i = a;
    while i < b
        invariant
            a <= i <= b <= n,
            n == cs@.len(),
            out@ == cs@.subrange(a as int, i as int),
        decreases b - i,
    {
        out.push(cs[i]);
        i += 1;
    }
    assert(out@ =~= trimmed(cs@));
    out
}

/// Lossy UTF-8 decoding followed by `trim`, as the text of a git output
/// stream is read.
pub open spec fn trimmed_text(bytes: Seq<u8>) -> Seq<char> {
    trimmed(utf8_lossy(bytes))
}

/// `String::from_utf8_lossy(bytes).trim().to_string()`.
pub fn decode_trimmed(bytes: &[u8]) -> (res: String)
    ensures
        res@ == trimmed_text(bytes@),
{
    let text = decode_lossy(bytes);
    let cs = chars_of(text.as_str());
    let t = trim_chars(cs.as_slice());
    string_from_chars(t.as_slice())
}

pub open spec fn is_digit(c: char) -> bool {
    '0' <= c && c <= '9'
}

pub open spec fn digit_value(c: char) -> int {
    (c as u32) - ('0' as u32)
}

pub open spec fn all_digits(s: Seq<char>) -> bool {
    forall|i: int| 0 <= i < s.len() ==> is_digit(#[trigger] s[i])
}

/// The value of a string of decimal digits.
pub open spec fn digits_value(s: Seq<char>) -> int
    decreases s.len(),
{
    if s.len() == 0 {
        0
    } else {
        10 * digits_value(s.drop_last()) + digit_value(s.last())
    }
}

/// `str::parse::<i64>`: an optional `+` or `-` sign followed by one or
/// more ASCII digits, whose value lies in the range of `i64`.
pub open spec fn parse_i64_spec(s: Seq<char>) -> Option<i64> {
    let signed = s.len() > 0 && (s[0] == '+' || s[0] == '-');
    let body = if signed {
        s.drop_first()
    } else {
        s
    };
    let v = if signed && s[0] == '-' {
        -digits_value(body)
    } else {
        digits_value(body)
    };
    if body.len() > 0 && all_digits(body) && i64::MIN <= v && v <= i64::MAX {
        Some(v as i64)
    } else {
        None
    }
}

/// `str::parse::<u64>`: an optional `+` sign followed by one or more ASCII
/// digits, whose value lies in the range of `u64`.
pub open spec fn parse_u64_spec(s: Seq<char>) -> Option<u64> {
    let body = if s.len() > 0 && s[0] == '+' {
        s.drop_first()
    } else {
        s
    };
    let v = digits_value(body);
    if body.len() > 0 && all_digits(body) && v <= u64::MAX {
        Some(v as u64)
    } else {
        None
    }
}

proof fn lemma_digits_value_nonneg(s: Seq<char>)
    requires
        all_digits(s),
    ensures
        digits_value(s) >= 0,
    decreases s.len(),
{
    if s.len() > 0 {
        assert(all_digits(s.drop_last())) by {
            assert forall|i: int| 0 <= i < s.drop_last().len() implies is_digit(
                #[trigger] s.drop_last()[i],
            ) by {
                assert(s.drop_last()[i] == s[i]);
            }
        }
        lemma_digits_value_nonneg(s.drop_last());
        assert(is_digit(s[s.len() - 1]));
    }
}

/// A digit string's value is at least that of any of its prefixes.
proof fn lemma_digits_value_prefix(s: Seq<char>, k: int)
    requires
        all_digits(s),
        0 <= k <= s.len(),
    ensures
        digits_value(s.take(k)) <= digits_value(s),
    decreases s.len() - k,
{
    if k < s.len() {
        lemma_digits_value_prefix(s, k + 1);
        let t = s.take(k + 1);
        assert(t.drop_last() =~= s.take(k));
        assert(is_digit(s[k]));
        assert(all_digits(s.take(k))) by {
            assert forall|i: int| 0 <= i < s.take(k).len() implies is_digit(
                #[trigger] s.take(k)[i],
            ) by {
                assert(s.take(k)[i] == s[i]);
            }
        }
        lemma_digits_value_nonneg(s.take(k));
    } else {
        assert(s.take(k) =~= s);
    }
}

/// Value of the decimal digit string `cs[start..]`, or `None` when it is
/// empty, holds a non-digit, or exceeds `u64::MAX`.
fn parse_magnitude(cs: &[char], start: usize) -> (res: Option<u64>)
    requires
        start <= cs@.len(),
    ensures
        ({
            let body = cs@.skip(start as int);
            match res {
                Some(v) => body.len() > 0 && all_digits(body) && v == digits_value(body),
                None => !(body.len() > 0 && all_digits(body) && digits_value(body) <= u64::MAX),
            }
        }),
{
    let ghost body = cs@.skip(start as int);
    if start == cs.len() {
        return None;
    }
    let mut acc: u64 = 0;
    let mut i = start;
    while i < cs.len()
        invariant
            start <= i <= cs@.len(),
            body == cs@.skip(start as int),
            all_digits(body.take(i - start)),
            acc == digits_value(body.take(i - start)),
        decreases cs.len() - i,
    {
        let c = cs[i];
        assert(body[i - start] == c);
        if !('0' <= c && c <= '9') {
            assert(!all_digits(body));
            return None;
        }
        let d = (c as u32 - '0' as u32) as u64;
        let ghost prefix = body.take(i + 1 - start);
        assert(prefix.drop_last() =~= body.take(i - start));
        assert(all_digits(prefix)) by {
            assert forall|k: int| 0 <= k < prefix.len() implies is_digit(#[trigger] prefix[k]) by {
                if k < prefix.len() - 1 {
                    assert(prefix[k] == body.take(i - start)[k]);
                }
            }
        }
        if acc > (u64::MAX - d) / 10 {
            proof {
                assert(10 * acc + d > u64::MAX) by (nonlinear_arith)
                    requires
                        acc > (u64::MAX - d) / 10,
                        d <= 9,
                ;
                if all_digits(body) {
                    lemma_digits_value_prefix(body, i + 1 - start);
                }
            }
            return None;
        }
        assert(10 * acc + d <= u64::MAX) by (nonlinear_arith)
            requires
                acc <= (u64::MAX - d) / 10,
                d <= 9,
        ;
        acc = acc * 10 + d;
        i += 1;
    }
    assert(body.take(i - start) =~= body);
    Some(acc)
}

/// `str::parse::<i64>`.
pub fn parse_i64(cs: &[char]) -> (res: Option<i64>)
    ensures
        res == parse_i64_spec(cs@),
{
    let signed = cs.len() > 0 && (cs[0] == '+' || cs[0] == '-');
    let negative = signed && cs[0] == '-';
    let start: usize = if signed {
        1
    } else {
        0
    };
    let ghost body = cs@.skip(start as int);
    assert(signed ==> body =~= cs@.drop_first());
    assert(!signed ==> body =~= cs@);
    match parse_magnitude(cs, start) {
        None => {
            proof {
                if body.len() > 0 && all_digits(body) {
                    lemma_digits_value_nonneg(body);
                }
            }
            None
        },
        Some(m) => {
            if negative {
                if m > 0x8000_0000_0000_0000u64 {
                    None
                } else if m == 0x8000_0000_0000_0000u64 {
                    Some(i64::MIN)
                } else {
                    Some(-(m as i64))
                }
            } else {
                if m > 0x7fff_ffff_ffff_ffffu64 {
                    None
                } else {
                    Some(m as i64)
                }
            }
        },
    }
}

/// `str::parse::<u64>`.
pub fn parse_u64(cs: &[char]) -> (res: Option<u64>)
    ensures
        res == parse_u64_spec(cs@),
{
    let start: usize = if cs.len() > 0 && cs[0] == '+' {
        1
    } else {
        0
    };
    assert(start == 1 ==> cs@.skip(1) =~= cs@.drop_first());
    assert(start == 0 ==> cs@.skip(0) =~= cs@);
    parse_magnitude(cs, start)
}


/// How a text is cut into pieces.
#[derive(Debug, Clone, Copy, PartialEq, Eq, Structural)]
pub enum Splitter {
    /// `str::lines`: pieces end at `\n`; a `\r` right before that `\n`
    /// is dropped too.
    Lines,
    /// `str::split('\n')`.
    Newlines,
    /// `str::split_whitespace`: pieces are separated by Unicode whitespace.
    Whitespace,
}

pub open spec fn is_separator(k: Splitter, c: char) -> bool {
    match k {
        Splitter::Lines => c == '\n',
        Splitter::Newlines => c == '\n',
        Splitter::Whitespace => is_white_space(c),
    }
}

/// A piece ended by a separator, as it is kept.
pub open spec fn closed_piece(k: Splitter, cur: Seq<char>) -> Seq<char> {
    if k == Splitter::Lines && cur.len() > 0 && cur.last() == '\r' {
        cur.drop_last()
    } else {
        cur
    }
}

/// The non-empty pieces of `s` that follow the partial piece `cur`.
pub open spec fn pieces_from(k: Splitter, s: Seq<char>, cur: Seq<char>) -> Seq<Seq<char>>
    decreases s.len(),
{
    if s.len() == 0 {
        if cur.len() > 0 {
            seq![cur]
        } else {
            seq![]
        }
    } else if is_separator(k, s[0]) {
        let p = closed_piece(k, cur);
        (if p.len() > 0 {
            seq![p]
        } else {
            seq![]
        }) + pieces_from(k, s.drop_first(), seq![])
    } else {
        pieces_from(k, s.drop_first(), cur.push(s[0]))
    }
}

/// The non-empty pieces of `s`, in order.
pub open spec fn pieces(k: Splitter, s: Seq<char>) -> Seq<Seq<char>> {
    pieces_from(k, s, seq![])
}

fn separator(k: Splitter, c: char) -> (res: bool)
    ensures
        res == is_separator(k, c),
{
    match k {
        Splitter::Lines => c == '\n',
        Splitter::Newlines => c == '\n',
        Splitter::Whitespace => white_space(c),
    }
}

/// Cuts `cs` into its non-empty pieces (`lines`, `split('\n')` or
/// `split_whitespace`, with empty pieces dropped).
pub fn split_pieces(k: Splitter, cs: &[char]) -> (res: Vec<Vec<char>>)
    ensures
        res.deep_view() == pieces(k, cs@),
{
    let ghost s = cs@;
    let mut out: Vec<Vec<char>> = Vec::new();
    let mut cur: Vec<char> = Vec::new();
    let mut i: usize = 0;
    assert(s.skip(0) =~= s);
    assert(out.deep_view() + pieces(k, s) =~= pieces(k, s));
    while i < cs.len()
        invariant
            s == cs@,
            i <= s.len(),
            out.deep_view() + pieces_from(k, s.skip(i as int), cur@) == pieces(k, s),
        decreases s.len() - i,
    {
        let ghost rest = s.skip(i as int);
        assert(rest.drop_first() =~= s.skip(i + 1));
        assert(rest[0] == s[i as int]);
        let c = cs[i];
        if separator(k, c) {
            let ghost c0 = cur@;
            let mut piece = cur;
            if k == Splitter::Lines && piece.len() > 0 && piece[piece.len() - 1] == '\r' {
                let ghost before = piece@;
                piece.pop();
                assert(piece@ =~= before.drop_last());
            }
            let ghost p = piece@;
            assert(p == closed_piece(k, c0));
            let ghost before = out.deep_view();
            let ghost tail = pieces_from(k, s.skip(i + 1), seq![]);
            if piece.len() > 0 {
                assert(piece.deep_view() =~= p);
                out.push(piece);
                assert(out.deep_view() =~= before + seq![p]);
                assert(out.deep_view() + tail =~= before + (seq![p] + tail));
            } else {
                assert(before + (Seq::<Seq<char>>::empty() + tail) =~= before + tail);
            }
            cur = Vec::new();
            assert(cur@ =~= Seq::<char>::empty());
        } else {
            cur.push(c);
        }
        i += 1;
    }
    assert(s.skip(i as int) =~= seq![]);
    if cur.len() > 0 {
        let ghost before = out.deep_view();
        let ghost p = cur@;
        assert(cur.deep_view() =~= p);
        out.push(cur);
        assert(out.deep_view() =~= before + seq![p]);
    } else {
        assert(out.deep_view() + seq![] =~= out.deep_view());
    }
    out
}

} // verus!
