//! Character-level helpers shared by the textual parsers of this crate.
//!
//! Text is handled as sequences of `char`; every helper states its result
//! over the `Seq<char>` view of its input.
use vstd::prelude::*;

verus! {

/// The kind of failure met while reading an unsigned decimal integer.
#[derive(Debug, Clone, Copy, PartialEq, Eq, Structural)]
pub enum IntErrorKind {
    /// The text was empty.
    Empty,
    /// The text held a character that is not a decimal digit.
    InvalidDigit,
    /// The value does not fit in the target type.
    PosOverflow,
}

/// Error returned when a decimal integer cannot be read.
#[derive(Debug, Clone, Copy, PartialEq, Eq, Structural)]
pub struct ParseIntError {
    pub kind: IntErrorKind,
}

impl ParseIntError {
    pub fn kind(&self) -> (r: IntErrorKind)
        ensures
            r == self.kind,
    {
        self.kind
    }

    /// The text shown for the error.
    pub fn message(&self) -> (r: &'static str)
        ensures
            self.kind == IntErrorKind::Empty ==> r@ == "cannot parse integer from empty string"@,
            self.kind == IntErrorKind::InvalidDigit ==> r@ == "invalid digit found in string"@,
            self.kind == IntErrorKind::PosOverflow ==> r@ == "number too large to fit in target type"@,
    {
        match self.kind {
            IntErrorKind::Empty => "cannot parse integer from empty string",
            IntErrorKind::InvalidDigit => "invalid digit found in string",
            IntErrorKind::PosOverflow => "number too large to fit in target type",
        }
    }
}

/// Copies the characters of a string slice into a vector.
pub fn chars_of(s: &str) -> (r: Vec<char>)
    ensures
        r@ == s@,
{
    let mut out: Vec<char> = Vec::new();
    for c in it: s.chars()
        invariant
            out@ == it.seq().take(it.index() as int),
            it.seq() == s@,
    {
        out.push(c);
    }
    out
}

/// Appends one character to a `String` (`String::push`).
#[verifier::external_body]
pub(crate) fn push_char(s: &mut String, c: char)
    ensures
        final(s)@ == old(s)@.push(c),
{
    s.push(c);
}

/// Builds a `String` out of the characters `cs[from..to]`.
pub fn string_from_chars(cs: &[char], from: usize, to: usize) -> (r: String)
    requires
        from <= to <= cs@.len(),
    ensures
        r@ == cs@.subrange(from as int, to as int),
{
    let mut out = String::new();
    let mut i: usize = from;
    while i < to
        invariant
            from <= i <= to <= cs@.len(),
            out@ == cs@.subrange(from as int, i as int),
        decreases to - i,
    {
        push_char(&mut out, cs[i]);
        assert(cs@.subrange(from as int, i + 1) =~= cs@.subrange(from as int, i as int).push(cs@[i as int]));
        i = i + 1;
    }
    out
}

/// Unicode `White_Space` property, as `char::is_whitespace` documents it.
pub open spec fn is_ws(c: char) -> bool {
    let u = c as u32;
    ||| 0x09 <= u <= 0x0d
    ||| u == 0x20
    ||| u == 0x85
    ||| u == 0xa0
    ||| u == 0x1680
    ||| 0x2000 <= u <= 0x200a
    ||| u == 0x2028
    ||| u == 0x2029
    ||| u == 0x202f
    ||| u == 0x205f
    ||| u == 0x3000
}

/// Whether `c` is white space in the sense of [`is_ws`].
pub fn is_whitespace(c: char) -> (r: bool)
    ensures
        r == is_ws(c),
{
    let u = c as u32;
    (0x09 <= u && u <= 0x0d) || u == 0x20 || u == 0x85 || u == 0xa0 || u == 0x1680 || (0x2000
        <= u && u <= 0x200a) || u == 0x2028 || u == 0x2029 || u == 0x202f || u == 0x205f || u
        == 0x3000
}

/// `s` without its leading white space.
pub open spec fn trim_start(s: Seq<char>) -> Seq<char>
    decreases s.len(),
{
    if s.len() > 0 && is_ws(s[0]) {
        trim_start(s.drop_first())
    } else {
        s
    }
}

/// `s` without its trailing white space.
pub open spec fn trim_end(s: Seq<char>) -> Seq<char>
    decreases s.len(),
{
    if s.len() > 0 && is_ws(s.last()) {
        trim_end(s.drop_last())
    } else {
        s
    }
}

/// `s` without leading and trailing white space (`str::trim`).
#[verifier::opaque]
pub open spec fn trim(s: Seq<char>) -> Seq<char> {
    trim_end(trim_start(s))
}

/// Index of the first character of `s` at or after `from` that is not white space.
fn skip_ws_forward(s: &[char], from: usize) -> (r: usize)
    requires
        from <= s@.len(),
    ensures
        from <= r <= s@.len(),
        trim_start(s@.subrange(from as int, s@.len() as int)) == s@.subrange(r as int, s@.len() as int),
{
    let mut i = from;
    while i < s.len() && is_whitespace(s[i])
        invariant
            from <= i <= s@.len(),
            trim_start(s@.subrange(from as int, s@.len() as int)) == trim_start(s@.subrange(i as int, s@.len() as int)),
        decreases s.len() - i,
    {
        assert(s@.subrange(i as int, s@.len() as int).drop_first() =~= s@.subrange(i + 1, s@.len() as int));
        i = i + 1;
    }
    i
}

/// End of `s[from..to]` once trailing white space is removed.
fn skip_ws_backward(s: &[char], from: usize, to: usize) -> (r: usize)
    requires
        from <= to <= s@.len(),
    ensures
        from <= r <= to,
        trim_end(s@.subrange(from as int, to as int)) == s@.subrange(from as int, r as int),
{
    let mut j = to;
    while j > from && is_whitespace(s[j - 1])
        invariant
            from <= j <= to <= s@.len(),
            trim_end(s@.subrange(from as int, to as int)) == trim_end(s@.subrange(from as int, j as int)),
        decreases j,
    {
        assert(s@.subrange(from as int, j as int).drop_last() =~= s@.subrange(from as int, j - 1));
        j = j - 1;
    }
    j
}

/// Bounds `(a, b)` such that `s[a..b]` is `s[from..to]` trimmed of white space at both ends.
pub fn trim_bounds(s: &[char], from: usize, to: usize) -> (r: (usize, usize))
    requires
        from <= to <= s@.len(),
    ensures
        from <= r.0 <= r.1 <= to,
        s@.subrange(r.0 as int, r.1 as int) == trim(s@.subrange(from as int, to as int)),
{
    reveal(trim);
    let mut i = from;
    while i < to && is_whitespace(s[i])
        invariant
            from <= i <= to <= s@.len(),
            trim_start(s@.subrange(from as int, to as int)) == trim_start(s@.subrange(i as int, to as int)),
        decreases to - i,
    {
        assert(s@.subrange(i as int, to as int).drop_first() =~= s@.subrange(i + 1, to as int));
        i = i + 1;
    }
    if i == to {
        proof {
            assert(s@.subrange(i as int, to as int).len() == 0);
            assert(s@.subrange(i as int, i as int) =~= trim_end(Seq::<char>::empty()));
        }
        return (i, i);
    }
    assert(trim_start(s@.subrange(i as int, to as int)) == s@.subrange(i as int, to as int));
    let j = skip_ws_backward(s, i, to);
    (i, j)
}

/// Whether `s` begins with `prefix`.
pub open spec fn starts_with(s: Seq<char>, prefix: Seq<char>) -> bool {
    prefix.len() <= s.len() && s.subrange(0, prefix.len() as int) == prefix
}

/// Whether `s[from..to]` begins with `prefix`.
pub fn has_prefix_at(s: &[char], from: usize, to: usize, prefix: &[char]) -> (r: bool)
    requires
        from <= to <= s@.len(),
    ensures
        r == starts_with(s@.subrange(from as int, to as int), prefix@),
{
    if prefix.len() > to - from {
        return false;
    }
    let mut k: usize = 0;
    while k < prefix.len()
        invariant
            prefix@.len() <= to - from,
            from <= to <= s@.len(),
            k <= prefix@.len(),
            forall|m: int| 0 <= m < k ==> s@[from + m] == prefix@[m],
        decreases prefix.len() - k,
    {
        if s[from + k] != prefix[k] {
            assert(s@.subrange(from as int, to as int).subrange(0, prefix@.len() as int)[k as int] != prefix@[k as int]);
            return false;
        }
        k = k + 1;
    }
    assert(s@.subrange(from as int, to as int).subrange(0, prefix@.len() as int) =~= prefix@);
    true
}

/// Whether `pat` occurs somewhere in `s`.
pub open spec fn contains(s: Seq<char>, pat: Seq<char>) -> bool {
    exists|i: int| 0 <= i && i + pat.len() <= s.len() && #[trigger] s.subrange(i, i + pat.len()) == pat
}

/// Whether `pat` occurs in `s[from..to]`.
pub fn contains_at(s: &[char], from: usize, to: usize, pat: &[char]) -> (r: bool)
    requires
        from <= to <= s@.len(),
    ensures
        r == contains(s@.subrange(from as int, to as int), pat@),
{
    let ghost t = s@.subrange(from as int, to as int);
    if pat.len() == 0 {
        assert(t.subrange(0, 0 + pat@.len() as int) =~= pat@);
        return true;
    }
    let mut i: usize = from;
    while i < to
        invariant
            from <= i <= to <= s@.len(),
            pat@.len() > 0,
            t == s@.subrange(from as int, to as int),
            forall|m: int|
                0 <= m < i - from && m + pat@.len() <= t.len() ==> #[trigger] t.subrange(m, m + pat@.len()) != pat@,
        decreases to - i,
    {
        if pat.len() <= to - i {
            let found = has_prefix_at(s, i, to, pat);
            assert(t.subrange(i - from, i - from + pat@.len()) =~= s@.subrange(i as int, to as int).subrange(0, pat@.len() as int));
            if found {
                return true;
            }
        }
        i = i + 1;
    }
    false
}

/// Index of the first occurrence of `c` in `s`, if any.
#[verifier::opaque]
pub open spec fn first_index_of(s: Seq<char>, c: char) -> Option<int> {
    if exists|i: int| 0 <= i < s.len() && s[i] == c {
        Some(choose|i: int| 0 <= i < s.len() && s[i] == c && forall|j: int| 0 <= j < i ==> s[j] != c)
    } else {
        None
    }
}

/// The first occurrence of `c` is at `i` when `s[i]` is `c` and no earlier
/// character is.
pub proof fn lemma_first_index_of_some(s: Seq<char>, c: char, i: int)
    requires
        0 <= i < s.len(),
        s[i] == c,
        forall|j: int| 0 <= j < i ==> s[j] != c,
    ensures
        first_index_of(s, c) == Some(i),
{
    reveal(first_index_of);
    let w = choose|k: int| 0 <= k < s.len() && s[k] == c && forall|j: int| 0 <= j < k ==> s[j] != c;
    assert(0 <= w < s.len() && s[w] == c && forall|j: int| 0 <= j < w ==> s[j] != c);
    if w < i {
        assert(s[w] != c);
    }
    if i < w {
        assert(s[i] != c);
    }
}

proof fn lemma_first_occurrence_exists(s: Seq<char>, c: char, i: int)
    requires
        0 <= i < s.len(),
        s[i] == c,
    ensures
        exists|k: int| 0 <= k < s.len() && s[k] == c && forall|j: int| 0 <= j < k ==> s[j] != c,
    decreases i,
{
    if exists|j: int| 0 <= j < i && s[j] == c {
        let j = choose|j: int| 0 <= j < i && s[j] == c;
        lemma_first_occurrence_exists(s, c, j);
    } else {
        assert(0 <= i < s.len() && s[i] == c && forall|j: int| 0 <= j < i ==> s[j] != c);
    }
}

/// What the first occurrence of `c` in `s` is: a position of `c` before
/// which there is none, or nothing when `c` does not occur.
pub proof fn lemma_first_index_of(s: Seq<char>, c: char)
    ensures
        first_index_of(s, c) matches Some(i) ==> (0 <= i < s.len() && s[i] == c && forall|j: int|
            0 <= j < i ==> s[j] != c),
        first_index_of(s, c) is None ==> forall|j: int| 0 <= j < s.len() ==> s[j] != c,
{
    reveal(first_index_of);
    if exists|i: int| 0 <= i < s.len() && s[i] == c {
        let i = choose|i: int| 0 <= i < s.len() && s[i] == c;
        lemma_first_occurrence_exists(s, c, i);
    }
}

fn scan_char(s: &[char], from: usize, to: usize, c: char) -> (r: Option<usize>)
    requires
        from <= to <= s@.len(),
    ensures
        match r {
            Some(i) => from <= i < to && s@[i as int] == c && forall|j: int| from <= j < i ==> s@[j] != c,
            None => forall|j: int| from <= j < to ==> s@[j] != c,
        },
{
    let mut i = from;
    while i < to
        invariant
            from <= i <= to <= s@.len(),
            forall|j: int| from <= j < i ==> s@[j] != c,
        decreases to - i,
    {
        if s[i] == c {
            return Some(i);
        }
        i = i + 1;
    }
    None
}

/// Finds the first `c` in `s[from..to]`, returning its position in `s`.
pub fn find_char(s: &[char], from: usize, to: usize, c: char) -> (r: Option<usize>)
    requires
        from <= to <= s@.len(),
    ensures
        match r {
            Some(i) => from <= i < to && s@[i as int] == c && forall|j: int| from <= j < i ==> s@[j] != c,
            None => forall|j: int| from <= j < to ==> s@[j] != c,
        },
        match first_index_of(s@.subrange(from as int, to as int), c) {
            Some(k) => r matches Some(i) && i == k + from,
            None => r is None,
        },
{
    let r = scan_char(s, from, to, c);
    proof {
        let t = s@.subrange(from as int, to as int);
        match r {
            Some(i) => {
                lemma_first_index_of_some(t, c, i - from);
            },
            None => {
                reveal(first_index_of);
                assert forall|k: int| 0 <= k < t.len() implies t[k] != c by {
                    assert(t[k] == s@[from + k]);
                }
            },
        }
    }
    r
}

/// Whether two character slices are equal.
pub fn chars_eq(a: &[char], b: &[char]) -> (r: bool)
    ensures
        r == (a@ == b@),
{
    if a.len() != b.len() {
        return false;
    }
    let mut i: usize = 0;
    while i < a.len()
        invariant
            a@.len() == b@.len(),
            i <= a@.len(),
            forall|k: int| 0 <= k < i ==> a@[k] == b@[k],
        decreases a.len() - i,
    {
        if a[i] != b[i] {
            return false;
        }
        i = i + 1;
    }
    assert(a@ =~= b@);
    true
}

/// Whether a string slice is exactly the string `lit`.
pub fn str_is(s: &str, lit: &str) -> (r: bool)
    ensures
        r == (s@ == lit@),
{
    let a = chars_of(s);
    let b = chars_of(lit);
    chars_eq(a.as_slice(), b.as_slice())
}

/// Reads a whole string slice as an unsigned decimal integer no greater than `max`.
pub fn parse_uint_str(s: &str, max: u32) -> (r: Result<u32, ParseIntError>)
    ensures
        match parse_uint(s@, max as int) {
            Ok(v) => r == Ok::<u32, ParseIntError>(v as u32),
            Err(k) => r == Err::<u32, ParseIntError>(ParseIntError { kind: k }),
        },
        r matches Ok(v) ==> v <= max,
        parse_uint(s@, max as int) matches Ok(v) ==> 0 <= v <= max,
{
    let cs = chars_of(s);
    assert(cs@.subrange(0, cs@.len() as int) =~= s@);
    parse_uint_at(cs.as_slice(), 0, cs.len(), max)
}

/// Whether `c` is an ASCII decimal digit.
pub open spec fn is_digit(c: char) -> bool {
    '0' <= c <= '9'
}

/// The value of a decimal digit.
pub open spec fn digit_value(c: char) -> int {
    (c as u32) - ('0' as u32)
}

/// Reading the digits `d` after `acc`, keeping every partial value at most `max`.
pub open spec fn digits_value(d: Seq<char>, acc: int, max: int) -> Result<int, IntErrorKind>
    decreases d.len(),
{
    if d.len() == 0 {
        Ok(acc)
    } else if !is_digit(d[0]) {
        Err(IntErrorKind::InvalidDigit)
    } else if acc * 10 + digit_value(d[0]) > max {
        Err(IntErrorKind::PosOverflow)
    } else {
        digits_value(d.drop_first(), acc * 10 + digit_value(d[0]), max)
    }
}

/// What `str::parse` gives for an unsigned integer type whose largest value is `max`:
/// an optional `+`, then one or more decimal digits, read left to right.
#[verifier::opaque]
pub open spec fn parse_uint(s: Seq<char>, max: int) -> Result<int, IntErrorKind> {
    if s.len() == 0 {
        Err(IntErrorKind::Empty)
    } else if (s[0] == '+' || s[0] == '-') && s.len() == 1 {
        Err(IntErrorKind::InvalidDigit)
    } else if s[0] == '+' {
        digits_value(s.drop_first(), 0, max)
    } else {
        digits_value(s, 0, max)
    }
}

proof fn lemma_digits_value_bound(d: Seq<char>, acc: int, max: int)
    requires
        0 <= acc <= max,
    ensures
        digits_value(d, acc, max) matches Ok(v) ==> 0 <= v <= max,
    decreases d.len(),
{
    if d.len() > 0 && is_digit(d[0]) && acc * 10 + digit_value(d[0]) <= max {
        lemma_digits_value_bound(d.drop_first(), acc * 10 + digit_value(d[0]), max);
    }
}

/// A number read with the bound `max` is no greater than it.
pub proof fn lemma_parse_uint_bound(s: Seq<char>, max: int)
    requires
        0 <= max,
    ensures
        parse_uint(s, max) matches Ok(v) ==> 0 <= v <= max,
{
    reveal(parse_uint);
    if s.len() > 0 {
        lemma_digits_value_bound(s, 0, max);
        lemma_digits_value_bound(s.drop_first(), 0, max);
    }
}

/// Reads `s[from..to]` as an unsigned decimal integer no greater than `max`.
pub fn parse_uint_at(s: &[char], from: usize, to: usize, max: u32) -> (r: Result<u32, ParseIntError>)
    requires
        from <= to <= s@.len(),
    ensures
        match parse_uint(s@.subrange(from as int, to as int), max as int) {
            Ok(v) => r == Ok::<u32, ParseIntError>(v as u32),
            Err(k) => r == Err::<u32, ParseIntError>(ParseIntError { kind: k }),
        },
        r matches Ok(v) ==> v <= max,
        parse_uint(s@.subrange(from as int, to as int), max as int) matches Ok(v) ==> 0 <= v <= max,
{
    let ghost t = s@.subrange(from as int, to as int);
    proof {
        lemma_parse_uint_bound(t, max as int);
        reveal(parse_uint);
    }
    if from == to {
        return Err(ParseIntError { kind: IntErrorKind::Empty });
    }
    if (s[from] == '+' || s[from] == '-') && to - from == 1 {
        return Err(ParseIntError { kind: IntErrorKind::InvalidDigit });
    }
    let start = if s[from] == '+' { from + 1 } else { from };
    let ghost d = s@.subrange(start as int, to as int);
    assert(t[0] == '+' ==> d =~= t.drop_first());
    assert(t[0] != '+' ==> d =~= t);
    assert(parse_uint(t, max as int) == digits_value(d, 0, max as int));
    let mut acc: u64 = 0;
    let mut i = start;
    while i < to
        invariant
            start <= i <= to <= s@.len(),
            acc <= max,
            parse_uint(s@.subrange(from as int, to as int), max as int) == digits_value(s@.subrange(i as int, to as int), acc as int, max as int),
        decreases to - i,
    {
        let c = s[i];
        assert(s@.subrange(i as int, to as int)[0] == c);
        assert(s@.subrange(i as int, to as int).drop_first() =~= s@.subrange(i + 1, to as int));
        if !('0' <= c && c <= '9') {
            assert(digits_value(s@.subrange(i as int, to as int), acc as int, max as int) == Err::<int, IntErrorKind>(IntErrorKind::InvalidDigit));
            return Err(ParseIntError { kind: IntErrorKind::InvalidDigit });
        }
        let dv = (c as u32 - '0' as u32) as u64;
        if acc * 10 + dv > max as u64 {
            assert(digits_value(s@.subrange(i as int, to as int), acc as int, max as int) == Err::<int, IntErrorKind>(IntErrorKind::PosOverflow));
            return Err(ParseIntError { kind: IntErrorKind::PosOverflow });
        }
        acc = acc * 10 + dv;
        i = i + 1;
    }
    assert(s@.subrange(i as int, to as int).len() == 0);
    Ok(acc as u32)
}

/// The character of the digit `d`: `0` to `9`, then `a` to `f`.
pub open spec fn digit_char(d: nat) -> char {
    if d < 10 {
        ((48 + d) as u8) as char
    } else {
        ((87 + d) as u8) as char
    }
}

/// The digits of `n` in base `base`, most significant first, without
/// leading zeros (`0` itself is one digit).
pub open spec fn digits(n: nat, base: nat) -> Seq<char>
    recommends
        2 <= base <= 16,
    decreases n,
{
    if n < base || base < 2 {
        seq![digit_char(n % 16)]
    } else {
        proof {
            lemma_div_smaller(n, base);
        }
        digits(n / base, base).push(digit_char(n % base))
    }
}

/// `s` with `c` put in front of it up to `width` characters.
pub open spec fn pad_left(s: Seq<char>, width: nat, c: char) -> Seq<char> {
    if s.len() < width {
        Seq::new((width - s.len()) as nat, |i: int| c) + s
    } else {
        s
    }
}

pub proof fn lemma_div_smaller(n: nat, base: nat)
    by (nonlinear_arith)
    requires
        n >= base,
        base >= 2,
    ensures
        n / base < n,
{
}

/// The character of a digit.
fn digit_of(d: u32) -> (r: char)
    requires
        d < 16,
    ensures
        r == digit_char(d as nat),
{
    if d < 10 {
        ((48 + d) as u8) as char
    } else {
        ((87 + d) as u8) as char
    }
}

/// A number below `2^32` has at most 32 digits in any base.
proof fn lemma_digits_len(n: nat, base: nat)
    requires
        2 <= base <= 16,
        n < 0x1_0000_0000,
    ensures
        digits(n, base).len() <= 32,
        digits(n, base).len() >= 1,
        n >= base ==> digits(n, base).len() <= 1 + digits(n / base, base).len(),
    decreases n,
{
    if n >= base {
        lemma_div_smaller(n, base);
        lemma_digits_len(n / base, base);
        lemma_digits_len_log(n, base);
    }
}

/// The digits of `n` number at most the bits of `n`.
proof fn lemma_digits_len_log(n: nat, base: nat)
    requires
        2 <= base <= 16,
    ensures
        n < 0x1_0000_0000 ==> digits(n, base).len() <= 32,
        digits(n, base).len() <= bit_count(n),
    decreases n,
{
    if n >= base {
        lemma_div_smaller(n, base);
        lemma_digits_len_log(n / base, base);
        lemma_bit_count_half(n, base);
    } else {
        lemma_bit_count_pos(n);
    }
    lemma_bit_count_bound(n);
}

/// The number of binary digits of `n` (at least one).
spec fn bit_count(n: nat) -> nat
    decreases n,
{
    if n < 2 {
        1
    } else {
        1 + bit_count(n / 2)
    }
}

proof fn lemma_bit_count_pos(n: nat)
    ensures
        bit_count(n) >= 1,
    decreases n,
{
    if n >= 2 {
        lemma_bit_count_pos(n / 2);
    }
}

proof fn lemma_bit_count_mono(a: nat, b: nat)
    requires
        a <= b,
    ensures
        bit_count(a) <= bit_count(b),
    decreases b,
{
    if a >= 2 {
        lemma_bit_count_mono(a / 2, b / 2);
    } else {
        lemma_bit_count_pos(b);
    }
}

proof fn lemma_bit_count_half(n: nat, base: nat)
    requires
        2 <= base,
        n >= base,
    ensures
        bit_count(n / base) + 1 <= bit_count(n),
{
    assert(n / base <= n / 2) by (nonlinear_arith)
        requires
            2 <= base,
    ;
    lemma_bit_count_mono(n / base, n / 2);
}

proof fn lemma_bit_count_bound(n: nat)
    ensures
        n < 0x1_0000_0000 ==> bit_count(n) <= 32,
{
    if n < 0x1_0000_0000 {
        lemma_bit_count_mono(n, 0xffff_ffff);
        assert(bit_count(0xffff_ffff) == 32) by {
            reveal_with_fuel(bit_count, 33);
        }
    }
}

/// The number of digits of `n` in base `base`.
pub fn digit_count(n: u32, base: u32) -> (r: usize)
    requires
        2 <= base <= 16,
    ensures
        r == digits(n as nat, base as nat).len(),
        r <= 32,
    decreases n,
{
    if n < base {
        1
    } else {
        proof {
            lemma_div_smaller(n as nat, base as nat);
            lemma_digits_len(n as nat, base as nat);
        }
        let r = digit_count(n / base, base) + 1;
        r
    }
}

/// Appends the digits of `n` in base `base`.
pub fn push_digits(out: &mut String, n: u32, base: u32)
    requires
        2 <= base <= 16,
    ensures
        final(out)@ == old(out)@ + digits(n as nat, base as nat),
    decreases n,
{
    if n >= base {
        proof {
            lemma_div_smaller(n as nat, base as nat);
        }
        push_digits(out, n / base, base);
    } else {
        assert(n % base == n) by (nonlinear_arith)
            requires
                n < base,
        ;
    }
    push_char(out, digit_of(n % base));
    assert(out@ =~= old(out)@ + digits(n as nat, base as nat));
}

/// Appends `count` copies of `c`.
pub fn push_repeat(out: &mut String, c: char, count: usize)
    ensures
        final(out)@ == old(out)@ + Seq::new(count as nat, |i: int| c),
{
    let mut i: usize = 0;
    while i < count
        invariant
            i <= count,
            out@ == old(out)@ + Seq::new(i as nat, |k: int| c),
        decreases count - i,
    {
        push_char(out, c);
        i = i + 1;
        assert(out@ =~= old(out)@ + Seq::new(i as nat, |k: int| c));
    }
}

/// Appends the digits of `n` in base `base`, with zeros in front of them up
/// to `width` characters.
pub fn push_padded_digits(out: &mut String, n: u32, base: u32, width: usize)
    requires
        2 <= base <= 16,
    ensures
        final(out)@ == old(out)@ + pad_left(digits(n as nat, base as nat), width as nat, '0'),
{
    let count = digit_count(n, base);
    if count < width {
        push_repeat(out, '0', width - count);
    }
    push_digits(out, n, base);
    assert(out@ =~= old(out)@ + pad_left(digits(n as nat, base as nat), width as nat, '0'));
}

/// Appends the characters of `s`.
pub fn push_str(out: &mut String, s: &str)
    ensures
        final(out)@ == old(out)@ + s@,
{
    let cs = chars_of(s);
    let mut i: usize = 0;
    while i < cs.len()
        invariant
            i <= cs@.len(),
            cs@ == s@,
            out@ == old(out)@ + cs@.subrange(0, i as int),
        decreases cs.len() - i,
    {
        push_char(out, cs[i]);
        i = i + 1;
        assert(out@ =~= old(out)@ + cs@.subrange(0, i as int));
    }
    assert(cs@.subrange(0, cs@.len() as int) =~= s@);
}

/// Appends `s` with spaces in front of it up to `width` characters.
pub fn push_right_aligned(out: &mut String, s: &str, width: usize)
    ensures
        final(out)@ == old(out)@ + pad_left(s@, width as nat, ' '),
{
    let cs = chars_of(s);
    if cs.len() < width {
        push_repeat(out, ' ', width - cs.len());
    }
    push_str(out, s);
    assert(out@ =~= old(out)@ + pad_left(s@, width as nat, ' '));
}

/// The number of characters before the first white space of `s` (all of
/// them when there is none).
pub open spec fn token_end(s: Seq<char>) -> nat
    decreases s.len(),
{
    if s.len() == 0 || is_ws(s[0]) {
        0
    } else {
        1 + token_end(s.drop_first())
    }
}

pub proof fn lemma_trim_start_len(s: Seq<char>)
    ensures
        trim_start(s).len() <= s.len(),
        trim_start(s).len() > 0 ==> !is_ws(trim_start(s)[0]),
        trim_start(s) == s.subrange(s.len() - trim_start(s).len(), s.len() as int),
    decreases s.len(),
{
    if s.len() > 0 && is_ws(s[0]) {
        lemma_trim_start_len(s.drop_first());
        assert(s.drop_first().subrange(
            s.drop_first().len() - trim_start(s.drop_first()).len(),
            s.drop_first().len() as int,
        ) =~= s.subrange(s.len() - trim_start(s).len(), s.len() as int));
    } else {
        assert(s.subrange(0, s.len() as int) =~= s);
    }
}

pub proof fn lemma_token_end(s: Seq<char>)
    ensures
        token_end(s) <= s.len(),
        s.len() > 0 && !is_ws(s[0]) ==> token_end(s) >= 1,
        forall|j: int| 0 <= j < token_end(s) ==> !is_ws(#[trigger] s[j]),
        token_end(s) < s.len() ==> is_ws(s[token_end(s) as int]),
    decreases s.len(),
{
    if s.len() > 0 && !is_ws(s[0]) {
        lemma_token_end(s.drop_first());
        assert forall|j: int| 0 <= j < token_end(s) implies !is_ws(#[trigger] s[j]) by {
            if j > 0 {
                assert(s[j] == s.drop_first()[j - 1]);
            }
        }
    }
}

/// The white-space separated words of `s`, as `str::split_whitespace`
/// gives them.
pub open spec fn ws_tokens(s: Seq<char>) -> Seq<Seq<char>>
    decreases s.len(),
{
    let t = trim_start(s);
    if t.len() == 0 {
        Seq::empty()
    } else {
        proof {
            lemma_trim_start_len(s);
            lemma_token_end(t);
        }
        seq![t.subrange(0, token_end(t) as int)] + ws_tokens(t.subrange(token_end(t) as int, t.len() as int))
    }
}

/// Where the word that starts at `from` ends.
fn scan_token(s: &[char], from: usize) -> (r: usize)
    requires
        from <= s@.len(),
    ensures
        from <= r <= s@.len(),
        r - from == token_end(s@.subrange(from as int, s@.len() as int)),
{
    let mut i = from;
    while i < s.len() && !is_whitespace(s[i])
        invariant
            from <= i <= s@.len(),
            token_end(s@.subrange(from as int, s@.len() as int)) == (i - from) + token_end(
                s@.subrange(i as int, s@.len() as int),
            ),
        decreases s.len() - i,
    {
        assert(s@.subrange(i as int, s@.len() as int).drop_first() =~= s@.subrange(i + 1, s@.len() as int));
        i = i + 1;
    }
    i
}

/// The white-space separated words of `s`.
pub fn split_whitespace(s: &str) -> (r: Vec<String>)
    ensures
        r@.len() == ws_tokens(s@).len(),
        forall|i: int| 0 <= i < r@.len() ==> #[trigger] r@[i]@ == ws_tokens(s@)[i],
{
    let cs = chars_of(s);
    let n = cs.len();
    let mut out: Vec<String> = Vec::new();
    let mut pos: usize = 0;
    assert(cs@.subrange(0, n as int) =~= s@);
    while pos < n
        invariant
            n == cs@.len(),
            pos <= n,
            ({
                let rest = ws_tokens(cs@.subrange(pos as int, n as int));
                &&& ws_tokens(s@).len() == out@.len() + rest.len()
                &&& forall|i: int| 0 <= i < out@.len() ==> #[trigger] out@[i]@ == ws_tokens(s@)[i]
                &&& forall|i: int| 0 <= i < rest.len() ==> rest[i] == ws_tokens(s@)[out@.len() + i]
            }),
        decreases n - pos,
    {
        let ghost sub = cs@.subrange(pos as int, n as int);
        let start = skip_ws_forward(cs.as_slice(), pos);
        if start == n {
            assert(trim_start(sub).len() == 0);
            assert(ws_tokens(cs@.subrange(n as int, n as int)).len() == 0);
            pos = n;
        } else {
            let end = scan_token(cs.as_slice(), start);
            let ghost t = cs@.subrange(start as int, n as int);
            proof {
                lemma_token_end(t);
                assert(t.len() > 0);
                lemma_trim_start_len(sub);
            }
            let word = string_from_chars(cs.as_slice(), start, end);
            assert(t.subrange(0, token_end(t) as int) =~= cs@.subrange(start as int, end as int));
            assert(t.subrange(token_end(t) as int, t.len() as int) =~= cs@.subrange(end as int, n as int));
            let ghost rest = ws_tokens(sub);
            assert(rest[0] == word@);
            out.push(word);
            proof {
                let rest2 = ws_tokens(cs@.subrange(end as int, n as int));
                assert(rest =~= seq![word@] + rest2);
                assert forall|i: int| 0 <= i < rest2.len() implies rest2[i] == ws_tokens(s@)[out@.len() + i] by {
                    assert(rest2[i] == rest[i + 1]);
                }
            }
            pos = end;
        }
    }
    assert(ws_tokens(cs@.subrange(n as int, n as int)).len() == 0);
    out
}

/// The lines of `text`, as `str::lines` splits them: at each `\n`, with a
/// `\r` before it removed; a last line without `\n` is kept as it is.
pub open spec fn lines(text: Seq<char>) -> Seq<Seq<char>>
    decreases text.len(),
{
    if text.len() == 0 {
        Seq::empty()
    } else {
        match first_index_of(text, '\n') {
            Some(i) => if 0 <= i < text.len() {
                seq![strip_cr(text.subrange(0, i))] + lines(text.subrange(i + 1, text.len() as int))
            } else {
                Seq::empty()
            },
            None => seq![text],
        }
    }
}

/// A line without the carriage return that ends it.
pub open spec fn strip_cr(line: Seq<char>) -> Seq<char> {
    if line.len() > 0 && line.last() == '\r' {
        line.drop_last()
    } else {
        line
    }
}

/// The lines of `s`.
pub fn split_lines(s: &str) -> (r: Vec<String>)
    ensures
        r@.len() == lines(s@).len(),
        forall|i: int| 0 <= i < r@.len() ==> #[trigger] r@[i]@ == lines(s@)[i],
{
    let cs = chars_of(s);
    let n = cs.len();
    let mut out: Vec<String> = Vec::new();
    let mut pos: usize = 0;
    assert(cs@.subrange(0, n as int) =~= s@);
    while pos < n
        invariant
            n == cs@.len(),
            pos <= n,
            ({
                let rest = lines(cs@.subrange(pos as int, n as int));
                &&& lines(s@).len() == out@.len() + rest.len()
                &&& forall|i: int| 0 <= i < out@.len() ==> #[trigger] out@[i]@ == lines(s@)[i]
                &&& forall|i: int| 0 <= i < rest.len() ==> rest[i] == lines(s@)[out@.len() + i]
            }),
        decreases n - pos,
    {
        let ghost text = cs@.subrange(pos as int, n as int);
        match find_char(cs.as_slice(), pos, n, '\n') {
            None => {
                let line = string_from_chars(cs.as_slice(), pos, n);
                assert(text.len() > 0);
                assert(lines(text) =~= seq![text]);
                assert(lines(text)[0] == lines(s@)[out@.len() + 0int]);
                assert(line@ == lines(s@)[out@.len() as int]);
                let ghost before = out@;
                out.push(line);
                assert forall|k: int| 0 <= k < out@.len() implies #[trigger] out@[k]@ == lines(s@)[k] by {
                    if k < before.len() {
                        assert(out@[k] == before[k]);
                    }
                }
                assert(lines(cs@.subrange(n as int, n as int)).len() == 0);
                pos = n;
            },
            Some(i) => {
                let end = if i > pos && cs[i - 1] == '\r' {
                    i - 1
                } else {
                    i
                };
                assert(strip_cr(text.subrange(0, i - pos)) =~= cs@.subrange(pos as int, end as int));
                assert(text.subrange(i - pos + 1, text.len() as int) =~= cs@.subrange(i + 1, n as int));
                let line = string_from_chars(cs.as_slice(), pos, end);
                let ghost before = out@;
                assert(lines(text)[0] == lines(s@)[out@.len() + 0int]);
                out.push(line);
                proof {
                    assert forall|k: int| 0 <= k < out@.len() implies #[trigger] out@[k]@ == lines(s@)[k] by {
                        if k < before.len() {
                            assert(out@[k] == before[k]);
                        }
                    }
                    let rest = lines(text);
                    let rest2 = lines(cs@.subrange(i + 1, n as int));
                    assert(rest =~= seq![line@] + rest2);
                    assert forall|k: int| 0 <= k < rest2.len() implies rest2[k] == lines(s@)[out@.len() + k] by {
                        assert(rest2[k] == rest[k + 1]);
                    }
                }
                pos = i + 1;
            },
        }
    }
    assert(lines(cs@.subrange(n as int, n as int)).len() == 0);
    out
}

/// The decimal digits of a number are ASCII, and their UTF-8 bytes are the
/// digits themselves; a `u16` has at most five of them.
pub proof fn lemma_digits_ascii(n: nat)
    ensures
        vstd::utf8::encode_utf8(digits(n, 10)) == Seq::new(digits(n, 10).len(), |i: int| digits(n, 10)[i] as u8),
        n < 10 ==> digits(n, 10).len() <= 1,
        n < 100 ==> digits(n, 10).len() <= 2,
        n < 1000 ==> digits(n, 10).len() <= 3,
        n < 10000 ==> digits(n, 10).len() <= 4,
        n < 100000 ==> digits(n, 10).len() <= 5,
        vstd::utf8::is_ascii_chars(digits(n, 10)),
    decreases n,
{
    let d = digits(n, 10);
    if n >= 10 {
        lemma_div_smaller(n, 10);
        lemma_digits_ascii(n / 10);
        assert forall|i: int| 0 <= i < d.len() implies '\0' <= #[trigger] d[i] <= '\u{7f}' by {
            if i < d.len() - 1 {
                assert(d[i] == digits(n / 10, 10)[i]);
            } else {
                lemma_digit_char_ascii((n % 10) as nat);
            }
        }
    } else {
        lemma_digit_char_ascii((n % 16) as nat);
    }
    assert(vstd::utf8::is_ascii_chars(d));
    vstd::utf8::is_ascii_chars_encode_utf8(d);
    assert(vstd::utf8::encode_utf8(d) =~= Seq::new(d.len(), |i: int| d[i] as u8));
}

proof fn lemma_digit_char_ascii(v: nat)
    requires
        v < 16,
    ensures
        '\0' <= digit_char(v) <= '\u{7f}',
{
}

/// Appends `n` in decimal.
pub fn push_usize(out: &mut String, n: usize)
    ensures
        final(out)@ == old(out)@ + digits(n as nat, 10),
    decreases n,
{
    if n >= 10 {
        proof {
            lemma_div_smaller(n as nat, 10);
        }
        push_usize(out, n / 10);
    }
    push_char(out, digit_of((n % 10) as u32));
    assert(out@ =~= old(out)@ + digits(n as nat, 10));
}

proof fn lemma_digits_value_push(s: Seq<char>, c: char, acc: int, max: int)
    ensures
        digits_value(s.push(c), acc, max) == match digits_value(s, acc, max) {
            Err(e) => Err(e),
            Ok(v) => if !is_digit(c) {
                Err(IntErrorKind::InvalidDigit)
            } else if v * 10 + digit_value(c) > max {
                Err(IntErrorKind::PosOverflow)
            } else {
                Ok(v * 10 + digit_value(c))
            },
        },
    decreases s.len(),
{
    if s.len() > 0 {
        assert(s.push(c).drop_first() =~= s.drop_first().push(c));
        assert(s.push(c)[0] == s[0]);
        lemma_digits_value_push(s.drop_first(), c, acc * 10 + digit_value(s[0]), max);
    } else {
        assert(s.push(c).drop_first() =~= Seq::<char>::empty());
        reveal_with_fuel(digits_value, 2);
    }
}

proof fn lemma_digit_char_value(d: nat)
    requires
        d < 10,
    ensures
        is_digit(digit_char(d)),
        digit_value(digit_char(d)) == d,
{
}

proof fn lemma_digits_value_of_digits(n: nat, max: int)
    requires
        n <= max,
    ensures
        digits_value(digits(n, 10), 0, max) == Ok::<int, IntErrorKind>(n as int),
        is_digit(digits(n, 10)[0]),
    decreases n,
{
    if n < 10 {
        lemma_digit_char_value(n);
        assert(n % 16 == n);
        let d = digits(n, 10);
        assert(d.drop_first() =~= Seq::<char>::empty());
        reveal_with_fuel(digits_value, 2);
    } else {
        lemma_div_smaller(n, 10);
        lemma_digits_value_of_digits(n / 10, max);
        lemma_digit_char_value(n % 10);
        lemma_digits_value_push(digits(n / 10, 10), digit_char(n % 10), 0, max);
        assert((n / 10) * 10 + n % 10 == n);
        assert(digits(n, 10)[0] == digits(n / 10, 10)[0]);
    }
}

/// Reading the decimal digits of a number gives the number back, when the
/// number is within the bound read to.
pub proof fn lemma_parse_digits(n: nat, max: int)
    requires
        n <= max,
    ensures
        parse_uint(digits(n, 10), max) == Ok::<int, IntErrorKind>(n as int),
{
    reveal(parse_uint);
    lemma_digits_value_of_digits(n, max);
}

/// The decimal digits of a number are decimal digits, at least one of them.
pub proof fn lemma_digits_are_digits(n: nat)
    ensures
        digits(n, 10).len() >= 1,
        forall|i: int| 0 <= i < digits(n, 10).len() ==> is_digit(#[trigger] digits(n, 10)[i]),
    decreases n,
{
    let d = digits(n, 10);
    if n >= 10 {
        lemma_div_smaller(n, 10);
        lemma_digits_are_digits(n / 10);
        lemma_digit_char_value(n % 10);
        assert forall|i: int| 0 <= i < d.len() implies is_digit(#[trigger] d[i]) by {
            if i < d.len() - 1 {
                assert(d[i] == digits(n / 10, 10)[i]);
            }
        }
    } else {
        assert(n % 16 == n);
        lemma_digit_char_value(n);
    }
}

proof fn lemma_token_end_word(w: Seq<char>, rest: Seq<char>)
    requires
        forall|j: int| 0 <= j < w.len() ==> !is_ws(#[trigger] w[j]),
        rest.len() == 0 || is_ws(rest[0]),
    ensures
        token_end(w + rest) == w.len(),
    decreases w.len(),
{
    if w.len() == 0 {
        assert(w + rest =~= rest);
    } else {
        assert((w + rest).drop_first() =~= w.drop_first() + rest);
        assert forall|j: int| 0 <= j < w.drop_first().len() implies !is_ws(#[trigger] w.drop_first()[j]) by {
            assert(w.drop_first()[j] == w[j + 1]);
        }
        lemma_token_end_word(w.drop_first(), rest);
    }
}

/// A word followed by white space, or by nothing, is the first word of the
/// text.
pub proof fn lemma_ws_tokens_word(w: Seq<char>, rest: Seq<char>)
    requires
        w.len() > 0,
        forall|j: int| 0 <= j < w.len() ==> !is_ws(#[trigger] w[j]),
        rest.len() == 0 || is_ws(rest[0]),
    ensures
        ws_tokens(w + rest) == seq![w] + ws_tokens(rest),
{
    let s = w + rest;
    assert(s[0] == w[0]);
    assert(trim_start(s) == s);
    lemma_token_end_word(w, rest);
    assert(s.subrange(0, w.len() as int) =~= w);
    assert(s.subrange(w.len() as int, s.len() as int) =~= rest);
}

/// White space in front of a text adds no word to it.
pub proof fn lemma_ws_tokens_space(c: char, rest: Seq<char>)
    requires
        is_ws(c),
    ensures
        ws_tokens(seq![c] + rest) == ws_tokens(rest),
{
    let s = seq![c] + rest;
    assert(s.drop_first() =~= rest);
    assert(trim_start(s) == trim_start(rest));
}

} // verus!
