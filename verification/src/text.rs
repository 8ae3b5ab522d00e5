//! Strings as sequences of characters.
use vstd::prelude::*;

verus! {

/// `String::push` of std: appends one character.
pub assume_specification[ String::push ](s: &mut String, c: char)
    ensures
        final(s)@ == old(s)@.push(c),
;

/// The characters of a string.
pub fn to_chars(s: &str) -> (r: Vec<char>)
    ensures
        r@ == s@,
{
    let mut r: Vec<char> = Vec::new();
    for c in it: s.chars()
        invariant
            r@ == it.seq().take(it.index()),
            it.seq() == s@,
    {
        r.push(c);
    }
    assert(r@ == s@);
    r
}

/// The string of the given characters.
pub fn from_chars(chars: &Vec<char>) -> (r: String)
    ensures
        r@ == chars@,
{
    let mut r = String::new();
    let mut i: usize = 0;
    while i < chars.len()
        invariant
            i <= chars.len(),
            r@ == chars@.take(i as int),
        decreases chars.len() - i,
    {
        r.push(chars[i]);
        i += 1;
    }
    assert(r@ == chars@);
    r
}

/// One string after another.
pub fn join(a: &str, b: &str) -> (r: String)
    ensures
        r@ == a@ + b@,
{
    let mut r = a.to_owned();
    r.append(b);
    r
}

/// The decimal digit of a number below ten.
pub open spec fn digit_char(d: int) -> char {
    if d == 0 {
        '0'
    } else if d == 1 {
        '1'
    } else if d == 2 {
        '2'
    } else if d == 3 {
        '3'
    } else if d == 4 {
        '4'
    } else if d == 5 {
        '5'
    } else if d == 6 {
        '6'
    } else if d == 7 {
        '7'
    } else if d == 8 {
        '8'
    } else {
        '9'
    }
}

/// The decimal digits of a natural number.
pub open spec fn nat_text(n: nat) -> Seq<char>
    decreases n,
{
    if n < 10 {
        seq![digit_char(n as int)]
    } else {
        nat_text(n / 10).push(digit_char((n % 10) as int))
    }
}

/// The decimal text of an integer.
pub open spec fn int_text(n: int) -> Seq<char> {
    if n < 0 {
        seq!['-'] + nat_text((-n) as nat)
    } else {
        nat_text(n as nat)
    }
}

fn digit(d: u64) -> (c: char)
    requires
        d < 10,
    ensures
        c == digit_char(d as int),
{
    match d {
        0 => '0',
        1 => '1',
        2 => '2',
        3 => '3',
        4 => '4',
        5 => '5',
        6 => '6',
        7 => '7',
        8 => '8',
        _ => '9',
    }
}

/// Appends the decimal digits of a number.
pub fn push_u64(s: &mut String, n: u64)
    ensures
        final(s)@ == old(s)@ + nat_text(n as nat),
    decreases n,
{
    if n >= 10 {
        push_u64(s, n / 10);
    }
    s.push(digit(n % 10));
    assert(s@ == old(s)@ + nat_text(n as nat));
}

/// The decimal text of a number.
pub fn u64_text(n: u64) -> (r: String)
    ensures
        r@ == nat_text(n as nat),
{
    let mut r = String::new();
    push_u64(&mut r, n);
    assert(r@ == nat_text(n as nat));
    r
}

/// The decimal text of a signed number.
pub fn i64_text(n: i64) -> (r: String)
    ensures
        r@ == int_text(n as int),
{
    let mut r = String::new();
    if n < 0 {
        r.push('-');
        let magnitude: u64 = if n == i64::MIN {
            9223372036854775808
        } else {
            (-n) as u64
        };
        push_u64(&mut r, magnitude);
        assert(r@ == seq!['-'] + nat_text((-n) as nat));
    } else {
        push_u64(&mut r, n as u64);
        assert(r@ == nat_text(n as nat));
    }
    r
}

pub open spec fn is_digit(c: char) -> bool {
    '0' <= c <= '9'
}

/// The number that a sequence of digits writes.
pub open spec fn digits_value(s: Seq<char>) -> nat
    decreases s.len(),
{
    if s.len() == 0 {
        0
    } else {
        digits_value(s.drop_last()) * 10 + (s.last() as int - '0' as int) as nat
    }
}

pub open spec fn all_digits(s: Seq<char>) -> bool {
    &&& s.len() > 0
    &&& forall|i: int| 0 <= i < s.len() ==> is_digit(#[trigger] s[i])
}

/// The natural number up to `max` that a text writes: digits alone, or digits behind a `+`.
pub open spec fn unsigned_of(s: Seq<char>, max: nat) -> Option<nat> {
    let digits = if s.len() > 0 && s[0] == '+' {
        s.drop_first()
    } else {
        s
    };
    if all_digits(digits) && digits_value(digits) <= max {
        Some(digits_value(digits))
    } else {
        None
    }
}

/// The integer from `min` to `max` that a text writes: digits alone, or behind a `+` or a `-`.
pub open spec fn signed_of(s: Seq<char>, min: int, max: int) -> Option<int> {
    if s.len() > 0 && s[0] == '-' {
        let digits = s.drop_first();
        if all_digits(digits) && -digits_value(digits) >= min {
            Some(-digits_value(digits))
        } else {
            None
        }
    } else {
        match unsigned_of(s, max as nat) {
            Some(n) => Some(n as int),
            None => None,
        }
    }
}

/// A number is read back from its digits.
pub proof fn law_digits_are_read_back(n: nat, max: nat)
    requires
        n <= max,
    ensures
        all_digits(nat_text(n)),
        unsigned_of(nat_text(n), max) == Some(n),
{
    lemma_digits(n);
    assert(is_digit(nat_text(n)[0]));
}

proof fn lemma_digits(n: nat)
    ensures
        all_digits(nat_text(n)),
        digits_value(nat_text(n)) == n,
    decreases n,
{
    let s = nat_text(n);
    if n < 10 {
        assert(s.drop_last() =~= Seq::<char>::empty());
        assert(digits_value(s.drop_last()) == 0);
    } else {
        lemma_digits(n / 10);
        assert(s.drop_last() =~= nat_text(n / 10));
    }
}

/// An integer is read back from its text.
pub proof fn law_integers_are_read_back(n: int, min: int, max: int)
    requires
        min <= n <= max,
        min <= 0 <= max,
    ensures
        signed_of(int_text(n), min, max) == Some(n),
{
    if n < 0 {
        lemma_digits((-n) as nat);
        assert(int_text(n).drop_first() =~= nat_text((-n) as nat));
    } else {
        law_digits_are_read_back(n as nat, max as nat);
        assert(is_digit(nat_text(n as nat)[0]));
    }
}

/// What std says of a text that is no `usize`.
pub uninterp spec fn usize_refusal(text: Seq<char>) -> Seq<char>;

/// What std says of a text that is no `i64`.
pub uninterp spec fn i64_refusal(text: Seq<char>) -> Seq<char>;

/// `str::parse::<usize>` of std: a number where the text is digits, a `+` before them or not, and
/// the number fits; else std's text of the error, which nothing but its name tells.
#[verifier::external_body]
pub(crate) fn parse_usize(text: &str) -> (r: Result<usize, String>)
    ensures
        match r {
            Ok(n) => unsigned_of(text@, usize::MAX as nat) == Some(n as nat),
            Err(e) => unsigned_of(text@, usize::MAX as nat) is None && e@ == usize_refusal(text@),
        },
{
    match text.parse::<usize>() {
        Ok(n) => Ok(n),
        Err(e) => Err(e.to_string()),
    }
}

/// `str::parse::<i64>` of std: a number where the text is digits, a sign before them or not, and
/// the number fits; else std's text of the error, which nothing but its name tells.
#[verifier::external_body]
pub(crate) fn parse_i64(text: &str) -> (r: Result<i64, String>)
    ensures
        match r {
            Ok(n) => signed_of(text@, i64::MIN as int, i64::MAX as int) == Some(n as int),
            Err(e) => signed_of(text@, i64::MIN as int, i64::MAX as int) is None && e@ == i64_refusal(
                text@,
            ),
        },
{
    match text.parse::<i64>() {
        Ok(n) => Ok(n),
        Err(e) => Err(e.to_string()),
    }
}

/// Whether two strings hold the same characters.
pub fn same_text(a: &str, b: &str) -> (r: bool)
    ensures
        r == (a@ == b@),
{
    let x = a.to_owned();
    let y = b.to_owned();
    x == y
}

/// The text with every `quote` written twice.
pub open spec fn doubled(s: Seq<char>, quote: char) -> Seq<char>
    decreases s.len(),
{
    if s.len() == 0 {
        s
    } else if s.last() == quote {
        doubled(s.drop_last(), quote).push(quote).push(quote)
    } else {
        doubled(s.drop_last(), quote).push(s.last())
    }
}

/// The text with every `quote` written twice, as SQL writes it between quotes.
pub fn double_quotes(s: &str, quote: char) -> (r: String)
    ensures
        r@ == doubled(s@, quote),
{
    let chars = to_chars(s);
    let mut r = String::new();
    let mut i: usize = 0;
    while i < chars.len()
        invariant
            i <= chars.len(),
            chars@ == s@,
            r@ == doubled(s@.take(i as int), quote),
        decreases chars.len() - i,
    {
        let c = chars[i];
        assert(s@.take(i + 1).drop_last() == s@.take(i as int));
        r.push(c);
        if c == quote {
            r.push(c);
        }
        i += 1;
    }
    assert(s@.take(s@.len() as int) == s@);
    r
}

pub open spec fn starts_with(s: Seq<char>, prefix: Seq<char>) -> bool {
    &&& prefix.len() <= s.len()
    &&& s.take(prefix.len() as int) == prefix
}

pub open spec fn ends_with(s: Seq<char>, suffix: Seq<char>) -> bool {
    &&& suffix.len() <= s.len()
    &&& s.skip(s.len() - suffix.len()) == suffix
}

/// Whether `pattern` stands in `s` from `at` on.
pub open spec fn occurs_at(s: Seq<char>, pattern: Seq<char>, at: int) -> bool {
    &&& 0 <= at <= s.len() - pattern.len()
    &&& s.subrange(at, at + pattern.len()) == pattern
}

/// Whether `pattern` stands somewhere in `s`.
pub open spec fn occurs_in(s: Seq<char>, pattern: Seq<char>) -> bool {
    exists|at: int| occurs_at(s, pattern, at)
}

/// Whether the characters from `at` on are those of the pattern.
pub fn matches_at(s: &Vec<char>, pattern: &Vec<char>, at: usize) -> (r: bool)
    requires
        at + pattern.len() <= s.len(),
    ensures
        r == occurs_at(s@, pattern@, at as int),
{
    let mut i: usize = 0;
    while i < pattern.len()
        invariant
            i <= pattern.len(),
            at + pattern.len() <= s.len(),
            forall|k: int| 0 <= k < i ==> s@[at + k] == pattern@[k],
        decreases pattern.len() - i,
    {
        if s[at + i] != pattern[i] {
            assert(s@.subrange(at as int, at + pattern@.len())[i as int] != pattern@[i as int]);
            return false;
        }
        i += 1;
    }
    assert(s@.subrange(at as int, at + pattern@.len()) == pattern@);
    true
}

pub fn has_prefix(s: &str, prefix: &str) -> (r: bool)
    ensures
        r == starts_with(s@, prefix@),
{
    let s = to_chars(s);
    let prefix = to_chars(prefix);
    if prefix.len() > s.len() {
        return false;
    }
    assert(s@.take(prefix@.len() as int) == s@.subrange(0, prefix@.len() as int));
    matches_at(&s, &prefix, 0)
}

pub fn has_suffix(s: &str, suffix: &str) -> (r: bool)
    ensures
        r == ends_with(s@, suffix@),
{
    let s = to_chars(s);
    let suffix = to_chars(suffix);
    if suffix.len() > s.len() {
        return false;
    }
    let at: usize = s.len() - suffix.len();
    assert(s@.skip(at as int) == s@.subrange(at as int, at + suffix@.len()));
    matches_at(&s, &suffix, at)
}

/// Whether the pattern stands somewhere in the text.
pub fn contains(text: &str, part: &str) -> (r: bool)
    ensures
        r == occurs_in(text@, part@),
{
    let s = to_chars(text);
    let pattern = to_chars(part);
    if pattern.len() > s.len() {
        return false;
    }
    let mut at: usize = 0;
    while at <= s.len() - pattern.len()
        invariant
            s@ == text@,
            pattern@ == part@,
            pattern.len() <= s.len(),
            at <= s.len() - pattern.len(),
            forall|k: int| 0 <= k < at ==> !occurs_at(text@, part@, k),
        decreases s.len() - at,
    {
        if matches_at(&s, &pattern, at) {
            assert(occurs_at(text@, part@, at as int));
            return true;
        }
        if at == s.len() - pattern.len() {
            return false;
        }
        at += 1;
    }
    false
}

/// The characters from one index up to another.
pub fn slice(s: &Vec<char>, from: usize, to: usize) -> (r: String)
    requires
        from <= to <= s.len(),
    ensures
        r@ == s@.subrange(from as int, to as int),
{
    let mut r = String::new();
    let mut i: usize = from;
    while i < to
        invariant
            from <= i <= to <= s.len(),
            r@ == s@.subrange(from as int, i as int),
        decreases to - i,
    {
        r.push(s[i]);
        i += 1;
        assert(s@.subrange(from as int, i as int) == s@.subrange(from as int, i - 1).push(
            s@[i - 1],
        ));
    }
    r
}

/// What is left of the text behind a prefix that it starts with.
pub fn strip_prefix(s: &str, prefix: &str) -> (r: Option<String>)
    ensures
        match r {
            Some(rest) => s@ == prefix@ + rest@,
            None => !starts_with(s@, prefix@),
        },
{
    if !has_prefix(s, prefix) {
        return None;
    }
    let chars = to_chars(s);
    let from: usize = to_chars(prefix).len();
    let rest = slice(&chars, from, chars.len());
    assert(s@ == s@.take(from as int) + s@.subrange(from as int, s@.len() as int));
    Some(rest)
}

/// What is left of the text before a suffix that it ends with.
pub fn strip_suffix(s: &str, suffix: &str) -> (r: Option<String>)
    ensures
        match r {
            Some(rest) => s@ == rest@ + suffix@,
            None => !ends_with(s@, suffix@),
        },
{
    if !has_suffix(s, suffix) {
        return None;
    }
    let chars = to_chars(s);
    let to: usize = chars.len() - to_chars(suffix).len();
    let rest = slice(&chars, 0, to);
    assert(s@ == s@.subrange(0, to as int) + s@.skip(to as int));
    Some(rest)
}

}
