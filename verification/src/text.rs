//! Text helpers: decimal numbers, whitespace, and string building.
use vstd::prelude::*;

verus! {

/// Appends one character to a string.
///
/// Trusted wrapper around `String::push`: the new contents are the old contents
/// followed by `c`.
#[verifier::external_body]
pub(crate) fn push_char(s: &mut String, c: char)
    ensures
        final(s)@ == old(s)@.push(c),
{
    s.push(c);
}

/// The ASCII digit character for a value below ten.
pub open spec fn digit_char(d: nat) -> char {
    ((48 + d) as u8) as char
}

/// Decimal digits of a natural number, most significant first, without leading zeros
/// (zero is written as a single `0`).
pub open spec fn decimal(n: nat) -> Seq<char>
    decreases n,
{
    if n < 10 {
        seq![digit_char(n)]
    } else {
        decimal(n / 10).push(digit_char(n % 10))
    }
}

/// The characters of `s` in reverse order.
pub open spec fn reversed(s: Seq<char>) -> Seq<char> {
    Seq::new(s.len(), |i: int| s[s.len() - 1 - i])
}

/// Writes `n` in decimal, as `u64::to_string` does.
pub fn u64_to_decimal(n: u64) -> (r: String)
    ensures
        r@ == decimal(n as nat),
{
    let mut digits: Vec<char> = Vec::new();
    let mut m: u64 = n;
    while m >= 10
        invariant
            decimal(n as nat) == decimal(m as nat) + reversed(digits@),
        decreases m,
    {
        let d: u64 = m % 10;
        let c: char = ((48 + d) as u8) as char;
        let ghost old_digits = digits@;
        digits.push(c);
        assert(reversed(digits@) =~= seq![c] + reversed(old_digits));
        assert(decimal(m as nat) == decimal((m / 10) as nat).push(c));
        assert(decimal((m / 10) as nat).push(c) + reversed(old_digits) =~= decimal((m / 10) as nat) + (seq![c] + reversed(old_digits)));
        m = m / 10;
    }
    let c: char = ((48 + m) as u8) as char;
    let ghost old_digits = digits@;
    digits.push(c);
    assert(reversed(digits@) =~= seq![c] + reversed(old_digits));
    let mut r = String::new();
    let len = digits.len();
    let mut i: usize = 0;
    while i < len
        invariant
            len == digits@.len(),
            i <= len,
            r@ == reversed(digits@).take(i as int),
        decreases len - i,
    {
        push_char(&mut r, digits[len - 1 - i]);
        assert(reversed(digits@).take(i + 1) =~= reversed(digits@).take(i as int).push(digits@[len - 1 - i]));
        i = i + 1;
    }
    assert(reversed(digits@).take(len as int) =~= reversed(digits@));
    r
}

/// The characters of a string slice, collected into a vector.
pub fn chars_of(s: &str) -> (v: Vec<char>)
    ensures
        v@ == s@,
{
    let n = s.unicode_len();
    let mut v: Vec<char> = Vec::new();
    let mut i: usize = 0;
    while i < n
        invariant
            n == s@.len(),
            i <= n,
            v@ == s@.take(i as int),
        decreases n - i,
    {
        v.push(s.get_char(i));
        assert(s@.take(i + 1) =~= s@.take(i as int).push(s@[i as int]));
        i = i + 1;
    }
    assert(s@.take(n as int) =~= s@);
    v
}

/// Appends all characters of `t` to `s`.
pub fn push_all(s: &mut String, t: &str)
    ensures
        final(s)@ == old(s)@ + t@,
{
    let cs = chars_of(t);
    let ghost start = s@;
    let mut i: usize = 0;
    while i < cs.len()
        invariant
            cs@ == t@,
            i <= cs@.len(),
            s@ == start + cs@.take(i as int),
        decreases cs.len() - i,
    {
        push_char(s, cs[i]);
        assert(start + cs@.take(i + 1) =~= (start + cs@.take(i as int)).push(cs@[i as int]));
        i = i + 1;
    }
    assert(cs@.take(cs@.len() as int) =~= cs@);
}

/// An ASCII decimal digit.
pub open spec fn is_digit(c: char) -> bool {
    '0' <= c && c <= '9'
}

/// The value of an ASCII decimal digit.
pub open spec fn digit_value(c: char) -> nat {
    (c as int - 48) as nat
}

/// Every character is an ASCII decimal digit.
pub open spec fn all_digits(s: Seq<char>) -> bool {
    forall|i: int| 0 <= i < s.len() ==> is_digit(#[trigger] s[i])
}

/// The value of a sequence of decimal digits, most significant first.
pub open spec fn digits_value(s: Seq<char>) -> nat
    decreases s.len(),
{
    if s.len() == 0 {
        0
    } else {
        digits_value(s.drop_last()) * 10 + digit_value(s.last())
    }
}

/// What `str::parse` gives for an unsigned integer type whose largest value is `max`:
/// an optional `+`, then one or more ASCII digits whose value is at most `max`.
pub open spec fn parse_unsigned(s: Seq<char>, max: nat) -> Option<nat> {
    let body = if s.len() > 0 && s[0] == '+' { s.drop_first() } else { s };
    if body.len() > 0 && all_digits(body) && digits_value(body) <= max {
        Some(digits_value(body))
    } else {
        None
    }
}

/// What `str::parse::<i64>` gives: an optional sign, then one or more ASCII digits,
/// the value within the range of `i64`.
pub open spec fn parse_i64_spec(s: Seq<char>) -> Option<i64> {
    if s.len() > 0 && s[0] == '-' {
        let body = s.drop_first();
        if body.len() > 0 && all_digits(body) && digits_value(body) <= 0x8000_0000_0000_0000 {
            Some((0 - digits_value(body)) as i64)
        } else {
            None
        }
    } else {
        match parse_unsigned(s, 0x7fff_ffff_ffff_ffff) {
            Some(v) => Some(v as i64),
            None => None,
        }
    }
}

proof fn lemma_digits_value_prefix(s: Seq<char>, i: int)
    requires
        0 <= i <= s.len(),
        all_digits(s),
    ensures
        digits_value(s.take(i)) <= digits_value(s),
    decreases s.len() - i,
{
    if i < s.len() {
        lemma_digits_value_prefix(s, i + 1);
        assert(s.take(i + 1).drop_last() =~= s.take(i));
    } else {
        assert(s.take(i) =~= s);
    }
}

/// Reads the digits of `cs[start..]` as a number no larger than `max`.
fn parse_digits(cs: &Vec<char>, start: usize, max: u64) -> (r: Option<u64>)
    requires
        start <= cs@.len(),
    ensures
        ({
            let body = cs@.subrange(start as int, cs@.len() as int);
            r == (if body.len() > 0 && all_digits(body) && digits_value(body) <= max {
                Some(digits_value(body) as u64)
            } else {
                None
            })
        }),
{
    let ghost body = cs@.subrange(start as int, cs@.len() as int);
    if start == cs.len() {
        return None;
    }
    let mut value: u64 = 0;
    let mut i: usize = start;
    while i < cs.len()
        invariant
            start <= i <= cs@.len(),
            body == cs@.subrange(start as int, cs@.len() as int),
            all_digits(body.take(i - start)),
            value as nat == digits_value(body.take(i - start)),
            value <= max,
        decreases cs.len() - i,
    {
        let c = cs[i];
        let ghost k: int = i - start;
        assert(body[k] == c);
        if !('0' <= c && c <= '9') {
            assert(!all_digits(body));
            return None;
        }
        let d: u64 = (c as u32 - 48) as u64;
        assert(body.take(k + 1).drop_last() =~= body.take(k));
        assert(body.take(k + 1).last() == c);
        if d > max || value > (max - d) / 10 {
            assert(value * 10 + d > max) by (nonlinear_arith)
                requires d > max || value > (max - d) / 10;
            proof {
                if all_digits(body) {
                    lemma_digits_value_prefix(body, k + 1);
                }
            }
            return None;
        }
        assert(value * 10 + d <= max) by (nonlinear_arith)
            requires value <= (max - d) / 10, d <= max;
        value = value * 10 + d;
        i = i + 1;
        assert(all_digits(body.take(i - start)));
    }
    assert(body.take(i - start) =~= body);
    Some(value)
}

/// Parses a `u64` as `str::parse::<u64>` does.
pub fn parse_u64(s: &str) -> (r: Option<u64>)
    ensures
        r == (match parse_unsigned(s@, u64::MAX as nat) {
            Some(v) => Some(v as u64),
            None => None,
        }),
{
    let cs = chars_of(s);
    let start: usize = if cs.len() > 0 && cs[0] == '+' { 1 } else { 0 };
    proof {
        if cs@.len() > 0 && cs@[0] == '+' {
            assert(cs@.subrange(1, cs@.len() as int) =~= s@.drop_first());
        } else {
            assert(cs@.subrange(0, cs@.len() as int) =~= s@);
        }
    }
    parse_digits(&cs, start, u64::MAX)
}

/// Parses a `u32` as `str::parse::<u32>` does.
pub fn parse_u32(s: &str) -> (r: Option<u32>)
    ensures
        r == (match parse_unsigned(s@, u32::MAX as nat) {
            Some(v) => Some(v as u32),
            None => None,
        }),
{
    let cs = chars_of(s);
    let start: usize = if cs.len() > 0 && cs[0] == '+' { 1 } else { 0 };
    proof {
        if cs@.len() > 0 && cs@[0] == '+' {
            assert(cs@.subrange(1, cs@.len() as int) =~= s@.drop_first());
        } else {
            assert(cs@.subrange(0, cs@.len() as int) =~= s@);
        }
    }
    match parse_digits(&cs, start, u32::MAX as u64) {
        Some(v) => Some(v as u32),
        None => None,
    }
}

/// Parses a `u16` as `str::parse::<u16>` does.
pub fn parse_u16(s: &str) -> (r: Option<u16>)
    ensures
        r == (match parse_unsigned(s@, u16::MAX as nat) {
            Some(v) => Some(v as u16),
            None => None,
        }),
{
    let cs = chars_of(s);
    let start: usize = if cs.len() > 0 && cs[0] == '+' { 1 } else { 0 };
    proof {
        if cs@.len() > 0 && cs@[0] == '+' {
            assert(cs@.subrange(1, cs@.len() as int) =~= s@.drop_first());
        } else {
            assert(cs@.subrange(0, cs@.len() as int) =~= s@);
        }
    }
    match parse_digits(&cs, start, u16::MAX as u64) {
        Some(v) => Some(v as u16),
        None => None,
    }
}

/// Parses an `i64` as `str::parse::<i64>` does.
pub fn parse_i64(s: &str) -> (r: Option<i64>)
    ensures
        r == parse_i64_spec(s@),
{
    let cs = chars_of(s);
    if cs.len() > 0 && cs[0] == '-' {
        assert(cs@.subrange(1, cs@.len() as int) =~= s@.drop_first());
        match parse_digits(&cs, 1, 0x8000_0000_0000_0000u64) {
            Some(m) => {
                if m == 0x8000_0000_0000_0000u64 {
                    Some(i64::MIN)
                } else {
                    Some(-(m as i64))
                }
            },
            None => None,
        }
    } else {
        let start: usize = if cs.len() > 0 && cs[0] == '+' { 1 } else { 0 };
        proof {
            if cs@.len() > 0 && cs@[0] == '+' {
                assert(cs@.subrange(1, cs@.len() as int) =~= s@.drop_first());
            } else {
                assert(cs@.subrange(0, cs@.len() as int) =~= s@);
            }
        }
        match parse_digits(&cs, start, 0x7fff_ffff_ffff_ffffu64) {
            Some(v) => Some(v as i64),
            None => None,
        }
    }
}

/// Decimal text of a signed number, as `i64::to_string` writes it.
pub open spec fn decimal_i64(x: i64) -> Seq<char> {
    if x < 0 {
        seq!['-'] + decimal((0 - x) as nat)
    } else {
        decimal(x as nat)
    }
}

/// Writes `x` in decimal, as `i64::to_string` does.
pub fn i64_to_decimal(x: i64) -> (r: String)
    ensures
        r@ == decimal_i64(x),
{
    if x < 0 {
        let m: u64 = if x == i64::MIN { 0x8000_0000_0000_0000u64 } else { (-x) as u64 };
        let digits = u64_to_decimal(m);
        let mut r = String::new();
        push_char(&mut r, '-');
        push_all(&mut r, digits.as_str());
        assert(r@ =~= seq!['-'] + decimal((0 - x) as nat));
        r
    } else {
        u64_to_decimal(x as u64)
    }
}

/// Decimal text is made of digits, is never empty, and reads back as the number.
pub proof fn lemma_decimal_reads_back(n: nat)
    ensures
        decimal(n).len() > 0,
        all_digits(decimal(n)),
        digits_value(decimal(n)) == n,
    decreases n,
{
    if n >= 10 {
        lemma_decimal_reads_back(n / 10);
        let d = decimal(n / 10);
        assert(decimal(n).drop_last() =~= d);
        assert(digit_value(digit_char(n % 10)) == n % 10);
        assert(decimal(n).last() == digit_char(n % 10));
        assert(digits_value(decimal(n)) == digits_value(d) * 10 + digit_value(digit_char(n % 10)));
        assert(n == (n / 10) * 10 + n % 10);
        assert forall|i: int| 0 <= i < decimal(n).len() implies is_digit(#[trigger] decimal(n)[i]) by {
            if i < d.len() {
                assert(decimal(n)[i] == d[i]);
            }
        }
    } else {
        assert(decimal(n).drop_last() =~= Seq::<char>::empty());
        assert(digit_value(digit_char(n)) == n);
        assert(digits_value(Seq::<char>::empty()) == 0);
        assert(digits_value(decimal(n)) == digits_value(decimal(n).drop_last()) * 10 + digit_value(decimal(n).last()));
    }
}

/// Parsing the decimal text of a `u64` gives the number back.
pub proof fn lemma_u64_text_round_trip(n: u64)
    ensures
        parse_unsigned(decimal(n as nat), u64::MAX as nat) == Some(n as nat),
{
    lemma_decimal_reads_back(n as nat);
    assert(is_digit(decimal(n as nat)[0]));
}

/// Parsing the decimal text of a `u32` gives the number back.
pub proof fn lemma_u32_text_round_trip(n: u32)
    ensures
        parse_unsigned(decimal(n as nat), u32::MAX as nat) == Some(n as nat),
{
    lemma_decimal_reads_back(n as nat);
    assert(is_digit(decimal(n as nat)[0]));
}

/// Parsing the decimal text of an `i64` gives the number back.
pub proof fn lemma_i64_text_round_trip(x: i64)
    ensures
        parse_i64_spec(decimal_i64(x)) == Some(x),
{
    if x < 0 {
        lemma_decimal_reads_back((0 - x) as nat);
        assert((seq!['-'] + decimal((0 - x) as nat)).drop_first() =~= decimal((0 - x) as nat));
    } else {
        lemma_decimal_reads_back(x as nat);
        assert(is_digit(decimal(x as nat)[0]));
    }
}

/// Unicode white space, as `char::is_whitespace` decides it.
pub open spec fn is_whitespace(c: char) -> bool {
    ('\u{9}' <= c && c <= '\u{d}') || c == ' ' || c == '\u{85}' || c == '\u{a0}' || c == '\u{1680}'
        || ('\u{2000}' <= c && c <= '\u{200a}') || c == '\u{2028}' || c == '\u{2029}'
        || c == '\u{202f}' || c == '\u{205f}' || c == '\u{3000}'
}

/// Tests a character for white space.
pub fn char_is_whitespace(c: char) -> (r: bool)
    ensures
        r == is_whitespace(c),
{
    ('\u{9}' <= c && c <= '\u{d}') || c == ' ' || c == '\u{85}' || c == '\u{a0}' || c == '\u{1680}'
        || ('\u{2000}' <= c && c <= '\u{200a}') || c == '\u{2028}' || c == '\u{2029}'
        || c == '\u{202f}' || c == '\u{205f}' || c == '\u{3000}'
}

/// `s` without its leading white space.
pub open spec fn trim_front(s: Seq<char>) -> Seq<char>
    decreases s.len(),
{
    if s.len() > 0 && is_whitespace(s[0]) {
        trim_front(s.drop_first())
    } else {
        s
    }
}

/// `s` without its trailing white space.
pub open spec fn trim_back(s: Seq<char>) -> Seq<char>
    decreases s.len(),
{
    if s.len() > 0 && is_whitespace(s.last()) {
        trim_back(s.drop_last())
    } else {
        s
    }
}

/// `s` without leading and trailing white space, as `str::trim` gives it.
pub open spec fn trimmed(s: Seq<char>) -> Seq<char> {
    trim_back(trim_front(s))
}

proof fn lemma_trim_front_skip(s: Seq<char>, i: int)
    requires
        0 <= i <= s.len(),
        forall|k: int| 0 <= k < i ==> is_whitespace(#[trigger] s[k]),
        i == s.len() || !is_whitespace(s[i]),
    ensures
        trim_front(s) == s.skip(i),
    decreases i,
{
    if i > 0 {
        let t = s.drop_first();
        assert forall|k: int| 0 <= k < i - 1 implies is_whitespace(#[trigger] t[k]) by {
            assert(t[k] == s[k + 1]);
        }
        lemma_trim_front_skip(t, i - 1);
        assert(t.skip(i - 1) =~= s.skip(i));
    } else {
        assert(s.skip(0) =~= s);
    }
}

proof fn lemma_trim_back_take(s: Seq<char>, j: int)
    requires
        0 <= j <= s.len(),
        forall|k: int| j <= k < s.len() ==> is_whitespace(#[trigger] s[k]),
        j == 0 || !is_whitespace(s[j - 1]),
    ensures
        trim_back(s) == s.take(j),
    decreases s.len() - j,
{
    if j < s.len() {
        let t = s.drop_last();
        assert forall|k: int| j <= k < t.len() implies is_whitespace(#[trigger] t[k]) by {
            assert(t[k] == s[k]);
        }
        lemma_trim_back_take(t, j);
        assert(t.take(j) =~= s.take(j));
    } else {
        assert(s.take(j) =~= s);
    }
}

/// `s` without leading and trailing white space (`str::trim`).
pub fn trim(s: &str) -> (r: &str)
    ensures
        r@ == trimmed(s@),
{
    let n = s.unicode_len();
    let mut i: usize = 0;
    while i < n && char_is_whitespace(s.get_char(i))
        invariant
            n == s@.len(),
            i <= n,
            forall|k: int| 0 <= k < i ==> is_whitespace(#[trigger] s@[k]),
        decreases n - i,
    {
        i = i + 1;
    }
    proof {
        lemma_trim_front_skip(s@, i as int);
    }
    let ghost front = s@.skip(i as int);
    let mut j: usize = n;
    while j > i && char_is_whitespace(s.get_char(j - 1))
        invariant
            n == s@.len(),
            i <= j <= n,
            forall|k: int| j <= k < n ==> is_whitespace(#[trigger] s@[k]),
        decreases j,
    {
        j = j - 1;
    }
    proof {
        assert forall|k: int| j - i <= k < front.len() implies is_whitespace(#[trigger] front[k]) by {
            assert(front[k] == s@[k + i]);
        }
        if j > i {
            assert(front[j - i - 1] == s@[j - 1]);
        }
        lemma_trim_back_take(front, j - i);
        assert(front.take(j - i) =~= s@.subrange(i as int, j as int));
    }
    s.substring_char(i, j)
}

/// Compares two string slices character by character.
pub fn str_equals(a: &str, b: &str) -> (r: bool)
    ensures
        r == (a@ == b@),
{
    let x = chars_of(a);
    let y = chars_of(b);
    if x.len() != y.len() {
        return false;
    }
    let mut i: usize = 0;
    while i < x.len()
        invariant
            x@ == a@,
            y@ == b@,
            x@.len() == y@.len(),
            i <= x@.len(),
            forall|k: int| 0 <= k < i ==> x@[k] == y@[k],
        decreases x.len() - i,
    {
        if x[i] != y[i] {
            return false;
        }
        i = i + 1;
    }
    assert(x@ =~= y@);
    true
}

} // verus!
