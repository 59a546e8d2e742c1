//! Character-level text handling: whitespace trimming, line splitting,
//! prefixes and substrings, over `Seq<char>` models of strings.
use vstd::prelude::*;
use vstd::utf8::encode_utf8;

verus! {

/// Unicode `White_Space`: the characters that `char::is_whitespace` accepts.
pub open spec fn is_whitespace(c: char) -> bool {
    let u = c as u32;
    ||| 0x09 <= u <= 0x0d
    ||| u == 0x20
    ||| u == 0x85
    ||| u == 0xa0
    ||| u == 0x1680
    ||| 0x2000 <= u <= 0x200a
    ||| u == 0x2028
    ||| u == 0x2029
    ||| u == 0x202f
    ||| u == 0x205f
    ||| u == 0x3000
}

/// Whether `c` is Unicode whitespace.
pub fn char_is_whitespace(c: char) -> (b: bool)
    ensures
        b == is_whitespace(c),
{
    let u = c as u32;
    (0x09 <= u && u <= 0x0d) || u == 0x20 || u == 0x85 || u == 0xa0 || u == 0x1680 || (0x2000
        <= u && u <= 0x200a) || u == 0x2028 || u == 0x2029 || u == 0x202f || u == 0x205f || u
        == 0x3000
}

/// `s` without its leading whitespace.
pub open spec fn trim_start(s: Seq<char>) -> Seq<char>
    decreases s.len(),
{
    if s.len() > 0 && is_whitespace(s[0]) {
        trim_start(s.drop_first())
    } else {
        s
    }
}

/// `s` without its trailing whitespace.
pub open spec fn trim_end(s: Seq<char>) -> Seq<char>
    decreases s.len(),
{
    if s.len() > 0 && is_whitespace(s.last()) {
        trim_end(s.drop_last())
    } else {
        s
    }
}

/// `s` without leading and trailing whitespace (as `str::trim`).
pub open spec fn trim(s: Seq<char>) -> Seq<char> {
    trim_end(trim_start(s))
}

/// The characters of `s` from `lo` up to `hi`.
pub fn slice_chars(s: &Vec<char>, lo: usize, hi: usize) -> (r: Vec<char>)
    requires
        lo <= hi <= s.len(),
    ensures
        r@ == s@.subrange(lo as int, hi as int),
{
    let mut r: Vec<char> = Vec::new();
    let mut i = lo;
    while i < hi
        invariant
            lo <= i <= hi <= s.len(),
            r@ == s@.subrange(lo as int, i as int),
        decreases hi - i,
    {
        r.push(s[i]);
        i = i + 1;
        assert(r@ =~= s@.subrange(lo as int, i as int));
    }
    r
}

/// Trims leading and trailing whitespace.
pub fn trim_chars(s: &Vec<char>) -> (r: Vec<char>)
    ensures
        r@ == trim(s@),
{
    let n = s.len();
    let mut lo: usize = 0;
    assert(s@.subrange(0, n as int) =~= s@);
    while lo < n && char_is_whitespace(s[lo])
        invariant
            lo <= n == s.len(),
            trim_start(s@) == trim_start(s@.subrange(lo as int, n as int)),
        decreases n - lo,
    {
        assert(s@.subrange(lo as int, n as int).drop_first() =~= s@.subrange(lo + 1, n as int));
        lo = lo + 1;
    }
    assert(trim_start(s@) == s@.subrange(lo as int, n as int));
    let mut hi: usize = n;
    while hi > lo && char_is_whitespace(s[hi - 1])
        invariant
            lo <= hi <= n == s.len(),
            trim(s@) == trim_end(s@.subrange(lo as int, hi as int)),
        decreases hi,
    {
        assert(s@.subrange(lo as int, hi as int).drop_last() =~= s@.subrange(
            lo as int,
            hi - 1,
        ));
        hi = hi - 1;
    }
    slice_chars(s, lo, hi)
}

/// Index of the first `'\n'` in `s`, or `s.len()` when there is none.
pub open spec fn line_end(s: Seq<char>) -> nat
    decreases s.len(),
{
    if s.len() == 0 {
        0
    } else if s[0] == '\n' {
        0
    } else {
        1 + line_end(s.drop_first())
    }
}

/// `line` without one trailing carriage return.
pub open spec fn strip_cr(line: Seq<char>) -> Seq<char> {
    if line.len() > 0 && line.last() == '\r' {
        line.drop_last()
    } else {
        line
    }
}

/// The lines of `s` as `str::lines` yields them: split at `'\n'`, a
/// `'\r'` just before a `'\n'` dropped, and no final empty line.
pub open spec fn lines(s: Seq<char>) -> Seq<Seq<char>>
    decreases s.len(),
{
    if s.len() == 0 {
        seq![]
    } else {
        let k = line_end(s);
        if k < s.len() {
            seq![strip_cr(s.take(k as int))] + lines(s.skip((k + 1) as int))
        } else {
            seq![s]
        }
    }
}

proof fn lemma_line_end(s: Seq<char>, m: int)
    requires
        0 <= m <= s.len(),
        forall|k: int| 0 <= k < m ==> s[k] != '\n',
        m == s.len() || s[m] == '\n',
    ensures
        line_end(s) == m,
    decreases m,
{
    if m > 0 {
        lemma_line_end(s.drop_first(), m - 1);
    }
}

/// Splits `s` into its lines (as `str::lines`).
pub fn split_lines(s: &Vec<char>) -> (r: Vec<Vec<char>>)
    ensures
        r@.len() == lines(s@).len(),
        forall|i: int| 0 <= i < r@.len() ==> #[trigger] r@[i]@ == lines(s@)[i],
{
    let n = s.len();
    let mut out: Vec<Vec<char>> = Vec::new();
    let mut cur: Vec<char> = Vec::new();
    let mut start: usize = 0;
    let mut i: usize = 0;
    let ghost mut done: Seq<Seq<char>> = seq![];
    assert(s@.subrange(0, n as int) =~= s@);
    assert(done + lines(s@) =~= lines(s@));
    while i < n
        invariant
            start <= i <= n == s.len(),
            cur@ == s@.subrange(start as int, i as int),
            forall|k: int| start <= k < i ==> s@[k] != '\n',
            out@.len() == done.len(),
            forall|j: int| 0 <= j < out@.len() ==> #[trigger] out@[j]@ == done[j],
            lines(s@) == done + lines(s@.subrange(start as int, n as int)),
        decreases n - i,
    {
        if s[i] == '\n' {
            let ghost t = s@.subrange(start as int, n as int);
            proof {
                lemma_line_end(t, i - start);
                assert(t.take(i - start) =~= cur@);
                assert(t.skip(i - start + 1) =~= s@.subrange(i + 1, n as int));
            }
            let mut line = cur;
            let len = line.len();
            if len > 0 && line[len - 1] == '\r' {
                line.pop();
            }
            proof {
                assert(line@ =~= strip_cr(cur@));
                done = done.push(line@);
                assert(lines(s@) =~= done + lines(s@.subrange(i + 1, n as int)));
            }
            out.push(line);
            cur = Vec::new();
            start = i + 1;
        } else {
            cur.push(s[i]);
        }
        i = i + 1;
        assert(cur@ =~= s@.subrange(start as int, i as int));
    }
    let ghost t = s@.subrange(start as int, n as int);
    if cur.len() > 0 {
        proof {
            lemma_line_end(t, t.len() as int);
            done = done.push(cur@);
            assert(lines(s@) =~= done);
        }
        out.push(cur);
    } else {
        assert(t.len() == 0);
        assert(lines(s@) =~= done);
    }
    out
}

/// Whether `p` is a prefix of `s`.
pub open spec fn has_prefix(s: Seq<char>, p: Seq<char>) -> bool {
    p.len() <= s.len() && s.take(p.len() as int) == p
}

/// Whether `s` starts with the characters of `p`.
pub fn starts_with_chars(s: &Vec<char>, p: &Vec<char>) -> (b: bool)
    ensures
        b == has_prefix(s@, p@),
{
    if p.len() > s.len() {
        return false;
    }
    let mut i: usize = 0;
    while i < p.len()
        invariant
            p.len() <= s.len(),
            i <= p.len(),
            forall|k: int| 0 <= k < i ==> s@[k] == p@[k],
        decreases p.len() - i,
    {
        if s[i] != p[i] {
            assert(s@.take(p.len() as int)[i as int] != p@[i as int]);
            return false;
        }
        i = i + 1;
    }
    assert(s@.take(p.len() as int) =~= p@);
    true
}

/// Whether `needle` occurs in `hay` at position `k`.
pub open spec fn occurs_at(hay: Seq<char>, needle: Seq<char>, k: int) -> bool {
    0 <= k && k + needle.len() <= hay.len() && hay.subrange(k, k + needle.len()) == needle
}

/// Whether `needle` occurs somewhere in `hay` (as `str::contains`).
pub open spec fn contains_seq(hay: Seq<char>, needle: Seq<char>) -> bool {
    exists|k: int| occurs_at(hay, needle, k)
}

/// Whether `needle` occurs in `hay` at position `k`.
fn matches_at(hay: &Vec<char>, needle: &Vec<char>, k: usize) -> (b: bool)
    requires
        k + needle.len() <= hay.len(),
    ensures
        b == occurs_at(hay@, needle@, k as int),
{
    let mut i: usize = 0;
    while i < needle.len()
        invariant
            k + needle.len() <= hay.len(),
            i <= needle.len(),
            forall|j: int| 0 <= j < i ==> hay@[k + j] == needle@[j],
        decreases needle.len() - i,
    {
        if hay[k + i] != needle[i] {
            assert(hay@.subrange(k as int, k + needle.len())[i as int] != needle@[i as int]);
            return false;
        }
        i = i + 1;
    }
    assert(hay@.subrange(k as int, k + needle.len()) =~= needle@);
    true
}

/// Whether `needle` occurs in `hay`.
pub fn contains_chars(hay: &Vec<char>, needle: &Vec<char>) -> (b: bool)
    ensures
        b == contains_seq(hay@, needle@),
{
    if needle.len() > hay.len() {
        return false;
    }
    if needle.len() == 0 {
        assert(hay@.subrange(0, 0) =~= needle@);
        assert(occurs_at(hay@, needle@, 0));
        return true;
    }
    let last = hay.len() - needle.len();
    let mut k: usize = 0;
    while k <= last
        invariant
            last + needle.len() == hay.len(),
            needle.len() > 0,
            k <= last + 1,
            forall|j: int| 0 <= j < k ==> !occurs_at(hay@, needle@, j),
        decreases last + 1 - k,
    {
        if matches_at(hay, needle, k) {
            return true;
        }
        k = k + 1;
    }
    assert forall|j: int| !occurs_at(hay@, needle@, j) by {
        if occurs_at(hay@, needle@, j) {
            assert(j <= last);
        }
    }
    false
}

/// Appends `c` to `s` (`String::push`).
#[verifier::external_body]
pub fn push_char(s: &mut String, c: char)
    ensures
        final(s)@ == old(s)@.push(c),
{
    s.push(c);
}

/// A `String` holding the characters of `v`.
pub fn string_of(v: &Vec<char>) -> (s: String)
    ensures
        s@ == v@,
{
    let mut s = String::new();
    let mut i: usize = 0;
    while i < v.len()
        invariant
            i <= v.len(),
            s@ == v@.take(i as int),
        decreases v.len() - i,
    {
        push_char(&mut s, v[i]);
        i = i + 1;
        assert(s@ =~= v@.take(i as int));
    }
    assert(v@.take(v.len() as int) =~= v@);
    s
}

} // verus!

verus! {

/// Whether two character sequences are equal.
pub fn chars_eq(a: &Vec<char>, b: &Vec<char>) -> (r: bool)
    ensures
        r == (a@ == b@),
{
    if a.len() != b.len() {
        return false;
    }
    let mut i: usize = 0;
    while i < a.len()
        invariant
            a.len() == b.len(),
            i <= a.len(),
            forall|k: int| 0 <= k < i ==> a@[k] == b@[k],
        decreases a.len() - i,
    {
        if a[i] != b[i] {
            return false;
        }
        i = i + 1;
    }
    assert(a@ =~= b@);
    true
}

} // verus!

verus! {

/// The characters of `s`, in order.
pub fn chars_of(s: &str) -> (v: Vec<char>)
    ensures
        v@ == s@,
{
    let mut v: Vec<char> = Vec::new();
    for c in it: s.chars()
        invariant
            it.seq() == s@,
            v@ == it.seq().take(it.index() as int),
    {
        v.push(c);
    }
    v
}

} // verus!

verus! {

/// Index of the first `c` in `s`, or `s.len()` when there is none.
pub open spec fn find_char(s: Seq<char>, c: char) -> nat
    decreases s.len(),
{
    if s.len() == 0 {
        0
    } else if s[0] == c {
        0
    } else {
        1 + find_char(s.drop_first(), c)
    }
}

/// The pieces of `s` between occurrences of `c` (as `str::split(c)`):
/// always at least one piece.
pub open spec fn split_on(s: Seq<char>, c: char) -> Seq<Seq<char>>
    decreases s.len(),
{
    let k = find_char(s, c);
    if k < s.len() {
        seq![s.take(k as int)] + split_on(s.skip((k + 1) as int), c)
    } else {
        seq![s]
    }
}

proof fn lemma_find_char(s: Seq<char>, c: char, m: int)
    requires
        0 <= m <= s.len(),
        forall|k: int| 0 <= k < m ==> s[k] != c,
        m == s.len() || s[m] == c,
    ensures
        find_char(s, c) == m,
    decreases m,
{
    if m > 0 {
        lemma_find_char(s.drop_first(), c, m - 1);
    }
}

/// Splits `s` at every `c`.
pub fn split_chars(s: &Vec<char>, c: char) -> (r: Vec<Vec<char>>)
    ensures
        r@.len() == split_on(s@, c).len(),
        forall|i: int| 0 <= i < r@.len() ==> #[trigger] r@[i]@ == split_on(s@, c)[i],
{
    let n = s.len();
    let mut out: Vec<Vec<char>> = Vec::new();
    let mut cur: Vec<char> = Vec::new();
    let mut start: usize = 0;
    let mut i: usize = 0;
    let ghost mut done: Seq<Seq<char>> = seq![];
    assert(s@.subrange(0, n as int) =~= s@);
    assert(done + split_on(s@, c) =~= split_on(s@, c));
    while i < n
        invariant
            start <= i <= n == s.len(),
            cur@ == s@.subrange(start as int, i as int),
            forall|k: int| start <= k < i ==> s@[k] != c,
            out@.len() == done.len(),
            forall|j: int| 0 <= j < out@.len() ==> #[trigger] out@[j]@ == done[j],
            split_on(s@, c) == done + split_on(s@.subrange(start as int, n as int), c),
        decreases n - i,
    {
        if s[i] == c {
            let ghost t = s@.subrange(start as int, n as int);
            proof {
                lemma_find_char(t, c, i - start);
                assert(t.take(i - start) =~= cur@);
                assert(t.skip(i - start + 1) =~= s@.subrange(i + 1, n as int));
                done = done.push(cur@);
                assert(split_on(s@, c) =~= done + split_on(s@.subrange(i + 1, n as int), c));
            }
            out.push(cur);
            cur = Vec::new();
            start = i + 1;
        } else {
            cur.push(s[i]);
        }
        i = i + 1;
        assert(cur@ =~= s@.subrange(start as int, i as int));
    }
    let ghost t = s@.subrange(start as int, n as int);
    proof {
        lemma_find_char(t, c, t.len() as int);
        assert(t =~= cur@);
        done = done.push(cur@);
        assert(split_on(s@, c) =~= done);
    }
    out.push(cur);
    out
}

/// Whether every character of `s` is an ASCII digit.
pub open spec fn all_digits(s: Seq<char>) -> bool {
    forall|i: int| 0 <= i < s.len() ==> '0' <= #[trigger] s[i] <= '9'
}

/// The value of the decimal digits `s`.
pub open spec fn digits_value(s: Seq<char>) -> nat
    decreases s.len(),
{
    if s.len() == 0 {
        0
    } else {
        digits_value(s.drop_last()) * 10 + ((s.last() as u32) - ('0' as u32)) as nat
    }
}

/// What `s.parse::<i64>()` gives: an optional `+` or `-`, then one or more
/// ASCII digits, and a value that fits in an `i64`.
pub open spec fn parse_i64(s: Seq<char>) -> Option<i64> {
    let neg = s.len() > 0 && s[0] == '-';
    let signed = s.len() > 0 && (s[0] == '-' || s[0] == '+');
    let body = if signed { s.skip(1) } else { s };
    let v: int = if neg { -digits_value(body) } else { digits_value(body) as int };
    if body.len() == 0 || !all_digits(body) || v < i64::MIN || v > i64::MAX {
        None
    } else {
        Some(v as i64)
    }
}

/// Parses a decimal `i64` as `str::parse` does; `0` where that fails
/// (`s.parse().unwrap_or(0)`).
pub fn parse_i64_or_zero(s: &Vec<char>) -> (v: i64)
    ensures
        v == (match parse_i64(s@) {
            Some(x) => x,
            None => 0,
        }),
{
    let n = s.len();
    let neg = n > 0 && s[0] == '-';
    let signed = n > 0 && (s[0] == '-' || s[0] == '+');
    let start: usize = if signed { 1 } else { 0 };
    let ghost body = if signed { s@.skip(1) } else { s@ };
    if start == n {
        return 0;
    }
    let limit: u128 = 0x8000_0000_0000_0000;
    let mut acc: u128 = 0;
    let mut big = false;
    let mut i = start;
    assert(body.take(0) =~= Seq::<char>::empty());
    while i < n
        invariant
            start <= i <= n == s.len(),
            start == 0 || start == 1,
            (start == 1) == (s@.len() > 0 && (s@[0] == '-' || s@[0] == '+')),
            neg == (s@.len() > 0 && s@[0] == '-'),
            body == s@.skip(start as int),
            all_digits(body.take(i - start)),
            !big ==> acc == digits_value(body.take(i - start)) && acc <= limit,
            big ==> digits_value(body.take(i - start)) > limit,
            limit == 0x8000_0000_0000_0000u128,
        decreases n - i,
    {
        let c = s[i];
        if !('0' <= c && c <= '9') {
            assert(body[i - start] == c);
            assert(!all_digits(body));
            assert(body.len() > 0);
            assert(parse_i64(s@) is None);
            return 0;
        }
        let d = (c as u32 - '0' as u32) as u128;
        assert(body.take(i - start + 1).drop_last() =~= body.take(i - start));
        assert(body.take(i - start + 1).last() == c);
        if !big {
            acc = acc * 10 + d;
            if acc > limit {
                big = true;
            }
        } else {
            assert(digits_value(body.take(i - start + 1)) >= digits_value(body.take(i - start)))
                by (nonlinear_arith)
                requires
                    digits_value(body.take(i - start + 1)) == digits_value(body.take(i - start))
                        * 10 + d,
            ;
        }
        i = i + 1;
        assert forall|k: int| 0 <= k < i - start implies '0' <= #[trigger] body.take(i - start)[k] <= '9' by {
            if k < i - start - 1 {
                assert(body.take(i - start)[k] == body.take(i - start - 1)[k]);
            }
        }
    }
    assert(body.take(n - start) =~= body);
    if big {
        return 0;
    }
    if neg {
        let r: i128 = -(acc as i128);
        r as i64
    } else {
        if acc < limit {
            acc as i64
        } else {
            0
        }
    }
}

} // verus!

verus! {

/// The character of the decimal digit `d` (`d < 10`).
pub open spec fn digit_char(d: nat) -> char {
    (48 + d) as char
}

/// The decimal digits of `n`, most significant first, without leading zeros.
pub open spec fn decimal(n: nat) -> Seq<char>
    decreases n,
{
    if n < 10 {
        seq![digit_char(n)]
    } else {
        decimal(n / 10).push(digit_char(n % 10))
    }
}

/// `v` in decimal, with a leading `-` when negative (as `Display` writes
/// integers).
pub open spec fn signed_decimal(v: int) -> Seq<char> {
    if v < 0 {
        seq!['-'] + decimal((-v) as nat)
    } else {
        decimal(v as nat)
    }
}

/// `n` spaces.
pub open spec fn spaces(n: nat) -> Seq<char> {
    Seq::new(n, |i: int| ' ')
}

/// `s` followed by spaces up to `width` characters (format `{:<width}`).
pub open spec fn pad_right(s: Seq<char>, width: nat) -> Seq<char> {
    if s.len() < width {
        s + spaces((width - s.len()) as nat)
    } else {
        s
    }
}

/// `s` preceded by spaces up to `width` characters (format `{:>width}`).
pub open spec fn pad_left(s: Seq<char>, width: nat) -> Seq<char> {
    if s.len() < width {
        spaces((width - s.len()) as nat) + s
    } else {
        s
    }
}

/// Appends the decimal digits of `n` to `s`.
pub fn push_decimal(s: &mut String, n: u64)
    ensures
        final(s)@ == old(s)@ + decimal(n as nat),
    decreases n,
{
    if n >= 10 {
        push_decimal(s, n / 10);
    }
    let d = (n % 10) as u8;
    let c = (48u8 + d) as char;
    assert(c == digit_char((n % 10) as nat));
    push_char(s, c);
    assert(final(s)@ =~= old(s)@ + decimal(n as nat));
}

/// Appends `v` in decimal (with `-` when negative) to `s`.
pub fn push_signed_decimal(s: &mut String, v: i64)
    ensures
        final(s)@ == old(s)@ + signed_decimal(v as int),
{
    if v < 0 {
        push_char(s, '-');
        let m: u64 = (-(v as i128)) as u64;
        push_decimal(s, m);
        assert(final(s)@ =~= old(s)@ + signed_decimal(v as int));
    } else {
        push_decimal(s, v as u64);
    }
}

/// The decimal text of `v` (with `-` when negative).
pub fn signed_decimal_string(v: i64) -> (s: String)
    ensures
        s@ == signed_decimal(v as int),
{
    let mut s = String::new();
    push_signed_decimal(&mut s, v);
    assert(s@ =~= signed_decimal(v as int));
    s
}

/// The decimal text of `n`.
pub fn decimal_string(n: usize) -> (s: String)
    ensures
        s@ == decimal(n as nat),
{
    let mut s = String::new();
    push_decimal(&mut s, n as u64);
    assert(s@ =~= decimal(n as nat));
    s
}

/// Appends `n` spaces to `s`.
pub fn push_spaces(s: &mut String, n: usize)
    ensures
        final(s)@ == old(s)@ + spaces(n as nat),
{
    let mut i: usize = 0;
    while i < n
        invariant
            i <= n,
            s@ == old(s)@ + spaces(i as nat),
        decreases n - i,
    {
        push_char(s, ' ');
        i = i + 1;
        assert(s@ =~= old(s)@ + spaces(i as nat));
    }
}

/// The number of characters of `s` (its `chars().count()`).
pub fn char_count(s: &str) -> (n: usize)
    ensures
        n == s@.len(),
{
    chars_of(s).len()
}

/// Appends `t` to `s`, then spaces up to `width` characters of `t` (`{:<width}`).
pub fn push_padded_right(s: &mut String, t: &str, width: usize)
    ensures
        final(s)@ == old(s)@ + pad_right(t@, width as nat),
{
    let n = char_count(t);
    s.append(t);
    if n < width {
        push_spaces(s, width - n);
    }
    assert(final(s)@ =~= old(s)@ + pad_right(t@, width as nat));
}

/// Appends spaces up to `width` characters of `t`, then `t`, to `s` (`{:>width}`).
pub fn push_padded_left(s: &mut String, t: &str, width: usize)
    ensures
        final(s)@ == old(s)@ + pad_left(t@, width as nat),
{
    let n = char_count(t);
    if n < width {
        push_spaces(s, width - n);
    }
    s.append(t);
    assert(final(s)@ =~= old(s)@ + pad_left(t@, width as nat));
}

} // verus!

verus! {

/// The number of bytes of the UTF-8 encoding of `s`.
pub open spec fn byte_len(s: Seq<char>) -> nat {
    vstd::utf8::encode_utf8(s).len()
}

/// Whether the first `n` bytes of the UTF-8 encoding of `s` end on a
/// character boundary.
pub open spec fn is_boundary(s: Seq<char>, n: nat) -> bool {
    exists|k: int| 0 <= k <= s.len() && byte_len(s.take(k)) == n
}

/// The characters whose UTF-8 encoding is the first `n` bytes of that of
/// `s` (`&s[..n]`), where `n` is a boundary.
pub open spec fn byte_prefix(s: Seq<char>, n: nat) -> Seq<char> {
    s.take(choose|k: int| 0 <= k <= s.len() && byte_len(s.take(k)) == n)
}

/// The number of UTF-8 bytes of `c`.
pub open spec fn char_width(c: char) -> nat {
    vstd::utf8::encode_scalar(c as u32).len()
}

proof fn lemma_byte_len_push(s: Seq<char>, c: char)
    ensures
        byte_len(s.push(c)) == byte_len(s) + char_width(c),
    decreases s.len(),
{
    if s.len() > 0 {
        lemma_byte_len_push(s.drop_first(), c);
        assert(s.push(c).drop_first() =~= s.drop_first().push(c));
        assert(s.push(c)[0] == s[0]);
        assert(encode_utf8(s.push(c)) == vstd::utf8::encode_scalar(s[0] as u32) + encode_utf8(s.drop_first().push(c)));
        assert(encode_utf8(s) == vstd::utf8::encode_scalar(s[0] as u32) + encode_utf8(s.drop_first()));
    } else {
        assert(s.push(c).drop_first() =~= Seq::<char>::empty());
        assert(s.push(c)[0] == c);
        assert(encode_utf8(Seq::<char>::empty()).len() == 0);
        assert(encode_utf8(s.push(c)) == vstd::utf8::encode_scalar(c as u32) + encode_utf8(Seq::<char>::empty()));
    }
}

proof fn lemma_byte_len_take_strict(s: Seq<char>, i: int, j: int)
    requires
        0 <= i < j <= s.len(),
    ensures
        byte_len(s.take(i)) < byte_len(s.take(j)),
    decreases j - i,
{
    assert(s.take(j) =~= s.take(j - 1).push(s[j - 1]));
    lemma_byte_len_push(s.take(j - 1), s[j - 1]);
    if i < j - 1 {
        lemma_byte_len_take_strict(s, i, j - 1);
    }
}

/// The number of UTF-8 bytes of `c`.
fn utf8_width(c: char) -> (w: usize)
    ensures
        w == char_width(c),
        1 <= w <= 4,
{
    broadcast use vstd::utf8::char_is_scalar;
    let u = c as u32;
    assert(vstd::utf8::is_scalar(u));
    if u < 0x80 {
        1
    } else if u < 0x800 {
        2
    } else if u < 0x10000 {
        3
    } else {
        4
    }
}

/// `&s[..n]` by bytes: the characters making up the first `n` bytes of the
/// UTF-8 encoding of `s`, when `n` falls on a character boundary.
pub fn byte_prefix_chars(s: &Vec<char>, n: usize) -> (r: Option<Vec<char>>)
    ensures
        r is Some <==> is_boundary(s@, n as nat),
        r matches Some(t) ==> t@ == byte_prefix(s@, n as nat),
{
    let mut k: usize = 0;
    let mut used: usize = 0;
    while k < s.len() && used < n
        invariant
            k <= s.len(),
            used == byte_len(s@.take(k as int)),
            used <= n,
            forall|j: int| 0 <= j < k ==> byte_len(s@.take(j)) < n,
        decreases s.len() - k,
    {
        let w = utf8_width(s[k]);
        proof {
            assert(s@.take(k + 1) =~= s@.take(k as int).push(s@[k as int]));
            lemma_byte_len_push(s@.take(k as int), s@[k as int]);
        }
        if w > n - used {
            proof {
                assert forall|j: int| 0 <= j <= s.len() implies byte_len(#[trigger] s@.take(j)) != n by {
                    if j > k {
                        if j > k + 1 {
                            lemma_byte_len_take_strict(s@, k + 1, j);
                        }
                    }
                }
            }
            return None;
        }
        used = used + w;
        k = k + 1;
    }
    if used == n {
        proof {
            let c = choose|c: int| 0 <= c <= s.len() && byte_len(s@.take(c)) == n;
            if c < k {
            } else if c > k {
                lemma_byte_len_take_strict(s@, k as int, c);
            }
            assert(c == k);
        }
        Some(slice_chars(s, 0, k))
    } else {
        proof {
            assert(k == s.len());
            assert forall|j: int| 0 <= j <= s.len() implies byte_len(#[trigger] s@.take(j)) != n by {
                if j < k {
                } else {
                    assert(s@.take(j) =~= s@.take(k as int));
                }
            }
        }
        None
    }
}

} // verus!

verus! {

/// Whether the UTF-8 encoding of `s` is longer than `limit` bytes.
pub fn byte_len_exceeds(s: &Vec<char>, limit: usize) -> (r: bool)
    ensures
        r == (byte_len(s@) > limit),
{
    let mut k: usize = 0;
    let mut used: usize = 0;
    while k < s.len()
        invariant
            k <= s.len(),
            used == byte_len(s@.take(k as int)),
            used <= limit,
        decreases s.len() - k,
    {
        let w = utf8_width(s[k]);
        proof {
            assert(s@.take(k + 1) =~= s@.take(k as int).push(s@[k as int]));
            lemma_byte_len_push(s@.take(k as int), s@[k as int]);
        }
        let over = w > limit - used;
        k = k + 1;
        if over {
            proof {
                if k < s.len() {
                    lemma_byte_len_take_strict(s@, k as int, s.len() as int);
                }
                assert(s@.take(s.len() as int) =~= s@);
            }
            return true;
        }
        used = used + w;
    }
    assert(s@.take(s.len() as int) =~= s@);
    false
}

} // verus!
