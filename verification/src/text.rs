//! Text as sequences of characters, and the decimal notation of integers.

use vstd::prelude::*;

verus! {

/// `String::push`: the character is added at the end.
pub assume_specification[ String::push ](s: &mut String, ch: char)
    ensures
        final(s)@ == old(s)@.push(ch),
;

/// The characters of `s`, in order.
pub fn chars_of(s: &str) -> (chars: Vec<char>)
    ensures
        chars@ == s@,
{
    let mut chars: Vec<char> = Vec::new();
    for c in it: s.chars()
        invariant
            chars@ == it.seq().take(it.index()),
            it.seq() == s@,
    {
        chars.push(c);
    }
    chars
}

/// The string that holds `chars`, in order.
pub fn string_of(chars: &Vec<char>) -> (s: String)
    ensures
        s@ == chars@,
{
    let mut s = String::new();
    let n: usize = chars.len();
    let mut i: usize = 0;
    while i < n
        invariant
            n == chars@.len(),
            i <= n,
            s@ == chars@.take(i as int),
        decreases n - i,
    {
        s.push(chars[i]);
        i = i + 1;
    }
    s
}

/// Whether `c` is one of the ten decimal digits.
pub open spec fn is_digit(c: char) -> bool {
    '0' <= c && c <= '9'
}

/// The number that the digit `c` stands for.
pub open spec fn digit_value(c: char) -> nat
    recommends
        is_digit(c),
{
    (c as int - '0' as int) as nat
}

/// The digit that stands for `d`.
pub open spec fn digit_char(d: nat) -> char
    recommends
        d < 10,
{
    ('0' as int + d) as char
}

/// Whether `s` consists of decimal digits only.
pub open spec fn all_digits(s: Seq<char>) -> bool {
    forall|i: int| 0 <= i < s.len() ==> is_digit(#[trigger] s[i])
}

/// The number that a run of digits denotes, most significant digit first.
pub open spec fn digits_value(s: Seq<char>) -> nat
    decreases s.len(),
{
    if s.len() == 0 {
        0
    } else {
        digits_value(s.drop_last()) * 10 + digit_value(s.last())
    }
}

/// The number that a non-empty run of digits denotes; `None` for anything else.
pub open spec fn magnitude(s: Seq<char>) -> Option<nat> {
    if s.len() > 0 && all_digits(s) {
        Some(digits_value(s))
    } else {
        None
    }
}

/// The integer that `s` denotes in decimal notation: an optional `+`, or
/// `-` where `signed` allows it, followed by at least one digit and nothing
/// else. Any number of leading zeros is allowed.
pub open spec fn decimal_value(s: Seq<char>, signed: bool) -> Option<int> {
    if s.len() > 0 && s[0] == '+' {
        match magnitude(s.skip(1)) {
            Some(m) => Some(m as int),
            None => None,
        }
    } else if signed && s.len() > 0 && s[0] == '-' {
        match magnitude(s.skip(1)) {
            Some(m) => Some(-(m as int)),
            None => None,
        }
    } else {
        match magnitude(s) {
            Some(m) => Some(m as int),
            None => None,
        }
    }
}

/// The integer that `s` denotes, provided it lies between `lo` and `hi`.
pub open spec fn decimal_within(s: Seq<char>, signed: bool, lo: int, hi: int) -> Option<int> {
    match decimal_value(s, signed) {
        Some(v) if lo <= v <= hi => Some(v),
        _ => None,
    }
}

/// A run of digits denotes at least as much as each of its prefixes.
pub proof fn lemma_digits_value_prefix(s: Seq<char>, k: int)
    requires
        0 <= k <= s.len(),
    ensures
        digits_value(s.take(k)) <= digits_value(s),
    decreases s.len(),
{
    if k == s.len() {
        assert(s.take(k) =~= s);
    } else {
        assert(s.drop_last().take(k) =~= s.take(k));
        lemma_digits_value_prefix(s.drop_last(), k);
    }
}

/// Reads the digits of `chars` from position `from` to the end.
fn parse_magnitude(chars: &Vec<char>, from: usize, limit: u64) -> (r: Option<u64>)
    requires
        from <= chars.len(),
    ensures
        r == match magnitude(chars@.skip(from as int)) {
            Some(m) if m <= limit => Some(m as u64),
            _ => None::<u64>,
        },
{
    let n: usize = chars.len();
    let ghost digits = chars@.skip(from as int);
    if from == n {
        return None;
    }
    let mut acc: u64 = 0;
    let mut i: usize = from;
    while i < n
        invariant
            n == chars@.len(),
            from <= i <= n,
            digits == chars@.skip(from as int),
            all_digits(digits.take(i - from)),
            acc == digits_value(digits.take(i - from)),
            acc <= limit,
        decreases n - i,
    {
        let c: char = chars[i];
        let ghost next = digits.take(i - from + 1);
        proof {
            assert(next.drop_last() =~= digits.take(i - from));
            assert(next.last() == c);
        }
        if c < '0' || c > '9' {
            proof {
                assert(digits[i - from] == c);
            }
            return None;
        }
        let d: u64 = (c as u32 - '0' as u32) as u64;
        if d > limit || acc > (limit - d) / 10 {
            proof {
                if all_digits(digits) {
                    lemma_digits_value_prefix(digits, i - from + 1);
                }
            }
            return None;
        }
        acc = acc * 10 + d;
        i = i + 1;
    }
    proof {
        assert(digits.take(n - from) =~= digits);
    }
    Some(acc)
}

/// Reads `chars` as a decimal integer between `lo` and `hi`.
fn parse_decimal(chars: &Vec<char>, signed: bool, lo: i128, hi: i128) -> (r: Option<i128>)
    requires
        -0x1_0000_0000_0000_0000 < lo <= 0 <= hi < 0x1_0000_0000_0000_0000,
    ensures
        r == match decimal_within(chars@, signed, lo as int, hi as int) {
            Some(v) => Some(v as i128),
            None => None::<i128>,
        },
{
    let n: usize = chars.len();
    proof {
        assert(chars@.skip(0) =~= chars@);
    }
    if n > 0 && chars[0] == '+' {
        match parse_magnitude(chars, 1, hi as u64) {
            Some(m) => Some(m as i128),
            None => None,
        }
    } else if signed && n > 0 && chars[0] == '-' {
        match parse_magnitude(chars, 1, (-lo) as u64) {
            Some(m) => Some(-(m as i128)),
            None => None,
        }
    } else {
        match parse_magnitude(chars, 0, hi as u64) {
            Some(m) => Some(m as i128),
            None => None,
        }
    }
}

/// The `i64` that `s` denotes, if it denotes one.
pub open spec fn i64_value(s: Seq<char>) -> Option<i64> {
    match decimal_within(s, true, i64::MIN as int, i64::MAX as int) {
        Some(v) => Some(v as i64),
        None => None,
    }
}

/// The `i32` that `s` denotes, if it denotes one.
pub open spec fn i32_value(s: Seq<char>) -> Option<i32> {
    match decimal_within(s, true, i32::MIN as int, i32::MAX as int) {
        Some(v) => Some(v as i32),
        None => None,
    }
}

/// The `usize` that `s` denotes, if it denotes one. There is no sign but `+`.
pub open spec fn usize_value(s: Seq<char>) -> Option<usize> {
    match decimal_within(s, false, 0, usize::MAX as int) {
        Some(v) => Some(v as usize),
        None => None,
    }
}

/// Reads a signed 64-bit integer in decimal notation.
pub fn parse_i64(chars: &Vec<char>) -> (r: Option<i64>)
    ensures
        r == i64_value(chars@),
{
    match parse_decimal(chars, true, i64::MIN as i128, i64::MAX as i128) {
        Some(v) => Some(v as i64),
        None => None,
    }
}

/// Reads a signed 32-bit integer in decimal notation.
pub fn parse_i32(chars: &Vec<char>) -> (r: Option<i32>)
    ensures
        r == i32_value(chars@),
{
    match parse_decimal(chars, true, i32::MIN as i128, i32::MAX as i128) {
        Some(v) => Some(v as i32),
        None => None,
    }
}

/// Reads a count in decimal notation.
pub fn parse_usize(chars: &Vec<char>) -> (r: Option<usize>)
    ensures
        r == usize_value(chars@),
{
    match parse_decimal(chars, false, 0, usize::MAX as i128) {
        Some(v) => Some(v as usize),
        None => None,
    }
}

/// The characters of `chars` from position `from` up to `to`.
pub fn slice_chars(chars: &Vec<char>, from: usize, to: usize) -> (part: Vec<char>)
    requires
        from <= to <= chars@.len(),
    ensures
        part@ == chars@.subrange(from as int, to as int),
{
    let mut part: Vec<char> = Vec::new();
    let mut i: usize = from;
    while i < to
        invariant
            from <= i <= to <= chars@.len(),
            part@ == chars@.subrange(from as int, i as int),
        decreases to - i,
    {
        part.push(chars[i]);
        i = i + 1;
    }
    part
}

/// How many characters of `s` stand before the first `c`; all of them
/// where there is none.
pub open spec fn prefix_before(s: Seq<char>, c: char) -> int
    decreases s.len(),
{
    if s.len() == 0 || s[0] == c {
        0
    } else {
        1 + prefix_before(s.skip(1), c)
    }
}

/// `prefix_before` is a position in `s`, or its length.
pub proof fn lemma_prefix_before_range(s: Seq<char>, c: char)
    ensures
        0 <= prefix_before(s, c) <= s.len(),
        forall|j: int| 0 <= j < prefix_before(s, c) ==> s[j] != c,
        prefix_before(s, c) < s.len() ==> s[prefix_before(s, c)] == c,
    decreases s.len(),
{
    if s.len() == 0 || s[0] == c {
    } else {
        lemma_prefix_before_range(s.skip(1), c);
        assert forall|j: int| 0 <= j < prefix_before(s, c) implies s[j] != c by {
            if j > 0 {
                assert(s.skip(1)[j - 1] == s[j]);
            }
        }
    }
}

/// `prefix_before` is the first position that holds `c`, or the length.
pub proof fn lemma_prefix_before(s: Seq<char>, c: char, k: int)
    requires
        0 <= k <= s.len(),
        forall|j: int| 0 <= j < k ==> s[j] != c,
        k < s.len() ==> s[k] == c,
    ensures
        prefix_before(s, c) == k,
    decreases s.len(),
{
    if s.len() == 0 || s[0] == c {
    } else {
        assert forall|j: int| 0 <= j < k - 1 implies s.skip(1)[j] != c by {
            assert(s.skip(1)[j] == s[j + 1]);
        }
        lemma_prefix_before(s.skip(1), c, k - 1);
    }
}

/// The first position at or after `from` that holds `c`, or the length.
pub fn find_char(chars: &Vec<char>, from: usize, c: char) -> (at: usize)
    requires
        from <= chars@.len(),
    ensures
        from <= at <= chars@.len(),
        at == from + prefix_before(chars@.skip(from as int), c),
{
    let n: usize = chars.len();
    let mut i: usize = from;
    while i < n && chars[i] != c
        invariant
            n == chars@.len(),
            from <= i <= n,
            forall|j: int| from <= j < i ==> chars@[j] != c,
        decreases n - i,
    {
        i = i + 1;
    }
    proof {
        lemma_prefix_before(chars@.skip(from as int), c, i - from);
    }
    i
}

/// The digits of `n`, most significant first, with no leading zero.
pub open spec fn digits_text(n: nat) -> Seq<char>
    decreases n,
{
    if n < 10 {
        seq![digit_char(n)]
    } else {
        digits_text(n / 10).push(digit_char(n % 10))
    }
}

/// The decimal notation of `v`: a `-` where it is negative, then its digits.
pub open spec fn decimal_text(v: int) -> Seq<char> {
    if v < 0 {
        seq!['-'] + digits_text((-v) as nat)
    } else {
        digits_text(v as nat)
    }
}

/// The digits of `n`; none where `n` is zero.
spec fn leading_digits(n: nat) -> Seq<char> {
    if n == 0 {
        Seq::empty()
    } else {
        digits_text(n)
    }
}

/// Appends the digits of `magnitude` to `text`.
fn push_digits(text: &mut String, magnitude: u64)
    ensures
        final(text)@ == old(text)@ + digits_text(magnitude as nat),
{
    let mut low_first: Vec<char> = Vec::new();
    let mut rest: u64 = magnitude;
    low_first.push(((rest % 10) as u8 + 48u8) as char);
    rest = rest / 10;
    proof {
        assert(low_first@.reverse() =~= seq![digit_char((magnitude % 10) as nat)]);
        assert(leading_digits(rest as nat) + low_first@.reverse() =~= digits_text(magnitude as nat));
    }
    while rest > 0
        invariant
            digits_text(magnitude as nat) == leading_digits(rest as nat) + low_first@.reverse(),
        decreases rest,
    {
        let ghost before = low_first@;
        let digit: char = ((rest % 10) as u8 + 48u8) as char;
        low_first.push(digit);
        proof {
            assert(low_first@.reverse() =~= seq![digit] + before.reverse());
            assert(digits_text(rest as nat) =~= leading_digits((rest / 10) as nat).push(digit));
            assert(leading_digits((rest / 10) as nat).push(digit) + before.reverse()
                =~= leading_digits((rest / 10) as nat) + (seq![digit] + before.reverse()));
        }
        rest = rest / 10;
    }
    let ghost start = text@;
    let mut i: usize = low_first.len();
    while i > 0
        invariant
            i <= low_first@.len(),
            text@ == start + low_first@.reverse().take(low_first@.len() - i),
        decreases i,
    {
        i = i - 1;
        text.push(low_first[i]);
        proof {
            let r = low_first@.reverse();
            let k = low_first@.len() - i;
            assert(r.take(k) =~= r.take(k - 1).push(low_first@[i as int]));
            assert(start + r.take(k) =~= (start + r.take(k - 1)).push(low_first@[i as int]));
        }
    }
    proof {
        assert(low_first@.reverse().take(low_first@.len() as int) =~= low_first@.reverse());
    }
}

/// Writes `v` in decimal notation.
pub fn i64_text(v: i64) -> (text: String)
    ensures
        text@ == decimal_text(v as int),
{
    let magnitude: u64 = if v < 0 {
        ((-(v + 1)) as u64) + 1
    } else {
        v as u64
    };
    let mut text = String::new();
    if v < 0 {
        text.push('-');
    }
    proof {
        assert(Seq::<char>::empty() + digits_text(magnitude as nat) =~= digits_text(magnitude as nat));
    }
    push_digits(&mut text, magnitude);
    text
}

/// Writes the count `v` in decimal notation.
pub fn usize_text(v: usize) -> (text: String)
    ensures
        text@ == decimal_text(v as int),
{
    let mut text = String::new();
    proof {
        assert(Seq::<char>::empty() + digits_text(v as nat) =~= digits_text(v as nat));
    }
    push_digits(&mut text, v as u64);
    text
}

/// The digits written for a number are read back as that number.
pub proof fn lemma_digits_text_value(n: nat)
    ensures
        digits_text(n).len() > 0,
        all_digits(digits_text(n)),
        digits_value(digits_text(n)) == n,
    decreases n,
{
    if n < 10 {
        let s = digits_text(n);
        assert(s.drop_last() =~= Seq::<char>::empty());
        assert(digits_value(s.drop_last()) == 0);
    } else {
        lemma_digits_text_value(n / 10);
        let s = digits_text(n);
        assert(s.drop_last() =~= digits_text(n / 10));
    }
}

/// Reading what was written gives the number back: the notation loses
/// nothing, whatever the number's sign.
pub proof fn lemma_decimal_round_trip(v: int)
    ensures
        decimal_value(decimal_text(v), true) == Some(v),
        v >= 0 ==> decimal_value(decimal_text(v), false) == Some(v),
{
    if v < 0 {
        let m = (-v) as nat;
        lemma_digits_text_value(m);
        assert(decimal_text(v).skip(1) =~= digits_text(m));
    } else {
        lemma_digits_text_value(v as nat);
        assert(is_digit(decimal_text(v)[0]));
    }
}

} // verus!
