//! Verified string helpers: character access, comparison, search, decimal
//! formatting and decimal parsing with the semantics of `u128::from_str`.
use vstd::prelude::*;
use vstd::string::*;

verus! {

/// Appends one character to a string (`String::push`).
#[verifier::external_body]
pub(crate) fn push_char(s: &mut String, c: char)
    ensures
        final(s)@ == old(s)@.push(c),
{
    s.push(c);
}

/// Appends a string slice to a string.
pub fn push_str(s: &mut String, t: &str)
    ensures
        final(s)@ == old(s)@ + t@,
{
    s.append(t);
}

/// The characters of `s`, in order.
pub fn chars_of(s: &str) -> (v: Vec<char>)
    ensures
        v@ == s@,
{
    let n = s.unicode_len();
    let mut v: Vec<char> = Vec::new();
    let mut i: usize = 0;
    while i < n
        invariant
            n == s@.len(),
            i <= n,
            v@ == s@.subrange(0, i as int),
        decreases n - i,
    {
        v.push(s.get_char(i));
        i = i + 1;
    }
    assert(s@.subrange(0, n as int) =~= s@);
    v
}

/// A string holding exactly the characters of `v`.
pub fn string_of(v: &Vec<char>) -> (s: String)
    ensures
        s@ == v@,
{
    let mut s = String::new();
    let mut i: usize = 0;
    while i < v.len()
        invariant
            i <= v.len(),
            s@ == v@.subrange(0, i as int),
        decreases v.len() - i,
    {
        push_char(&mut s, v[i]);
        assert(v@.subrange(0, i + 1) =~= v@.subrange(0, i as int).push(v@[i as int]));
        i = i + 1;
    }
    assert(v@.subrange(0, v.len() as int) =~= v@);
    s
}

/// Whether two string slices hold the same characters.
pub fn str_eq(a: &str, b: &str) -> (r: bool)
    ensures
        r == (a@ == b@),
{
    let x = chars_of(a);
    let y = chars_of(b);
    if x.len() != y.len() {
        return false;
    }
    let mut i: usize = 0;
    while i < x.len()
        invariant
            x@ == a@,
            y@ == b@,
            x.len() == y.len(),
            i <= x.len(),
            forall|j: int| 0 <= j < i ==> x@[j] == y@[j],
        decreases x.len() - i,
    {
        if x[i] != y[i] {
            return false;
        }
        i = i + 1;
    }
    assert(x@ =~= y@);
    true
}

/// `p` occurs in `s` starting at position `i`.
pub open spec fn occurs_at(s: Seq<char>, p: Seq<char>, i: int) -> bool {
    0 <= i && i + p.len() <= s.len() && s.subrange(i, i + p.len()) == p
}

/// `p` occurs somewhere in `s` (`str::contains`).
pub open spec fn contains_seq(s: Seq<char>, p: Seq<char>) -> bool {
    exists|i: int| occurs_at(s, p, i)
}

/// `s` begins with `p` (`str::starts_with`).
pub open spec fn starts_with_seq(s: Seq<char>, p: Seq<char>) -> bool {
    occurs_at(s, p, 0)
}

/// Whether `p` occurs in `s` at position `i`.
fn chars_occur_at(s: &Vec<char>, p: &Vec<char>, i: usize) -> (r: bool)
    ensures
        r == occurs_at(s@, p@, i as int),
{
    if i > s.len() || p.len() > s.len() - i {
        return false;
    }
    let mut j: usize = 0;
    while j < p.len()
        invariant
            i + p.len() <= s.len(),
            j <= p.len(),
            forall|k: int| 0 <= k < j ==> s@[i + k] == p@[k],
        decreases p.len() - j,
    {
        if s[i + j] != p[j] {
            assert(s@.subrange(i as int, i + p.len())[j as int] != p@[j as int]);
            return false;
        }
        j = j + 1;
    }
    assert(s@.subrange(i as int, i + p.len()) =~= p@);
    true
}

/// Whether `p` occurs in `s`.
pub fn str_contains(s: &str, p: &str) -> (r: bool)
    ensures
        r == contains_seq(s@, p@),
{
    let sv = chars_of(s);
    let pv = chars_of(p);
    let n = sv.len();
    let mut i: usize = 0;
    while i < n
        invariant
            sv@ == s@,
            pv@ == p@,
            n == sv.len(),
            i <= n,
            forall|k: int| 0 <= k < i ==> !occurs_at(s@, p@, k),
        decreases n - i,
    {
        if chars_occur_at(&sv, &pv, i) {
            return true;
        }
        i = i + 1;
    }
    if chars_occur_at(&sv, &pv, n) {
        return true;
    }
    assert forall|k: int| !occurs_at(s@, p@, k) by {
        if 0 <= k && k < n {
        }
    }
    false
}

/// Whether `s` begins with `p`.
pub fn str_starts_with(s: &str, p: &str) -> (r: bool)
    ensures
        r == starts_with_seq(s@, p@),
{
    let sv = chars_of(s);
    let pv = chars_of(p);
    chars_occur_at(&sv, &pv, 0)
}

/// The ASCII digit for `d` (`0 <= d < 10`).
pub open spec fn digit_char(d: int) -> char {
    (d + 48) as char
}

/// The value of an ASCII decimal digit.
pub open spec fn digit_value(c: char) -> int {
    c as int - 48
}

/// `c` is one of `'0'..='9'`.
pub open spec fn is_digit(c: char) -> bool {
    '0' <= c && c <= '9'
}

/// The decimal digits of `n`, most significant first, with no leading zeros.
pub open spec fn digits_of(n: nat) -> Seq<char>
    decreases n,
{
    if n < 10 {
        seq![digit_char(n as int)]
    } else {
        digits_of(n / 10).push(digit_char((n % 10) as int))
    }
}

/// The decimal text of an integer, as `to_string` writes it.
pub open spec fn decimal(i: int) -> Seq<char> {
    if i < 0 {
        seq!['-'] + digits_of((-i) as nat)
    } else {
        digits_of(i as nat)
    }
}

fn push_digits(s: &mut String, n: u128)
    ensures
        final(s)@ == old(s)@ + digits_of(n as nat),
    decreases n,
{
    if n >= 10 {
        push_digits(s, n / 10);
    }
    let d = (n % 10) as u8;
    push_char(s, (d + 48) as char);
}

/// The decimal text of an unsigned number.
pub fn u128_to_string(n: u128) -> (s: String)
    ensures
        s@ == decimal(n as int),
{
    let mut s = String::new();
    push_digits(&mut s, n);
    assert(s@ =~= decimal(n as int));
    s
}

/// The decimal text of a signed number.
pub fn i64_to_string(x: i64) -> (s: String)
    ensures
        s@ == decimal(x as int),
{
    let mut s = String::new();
    if x < 0 {
        push_char(&mut s, '-');
        let m: u128 = (0i128 - x as i128) as u128;
        push_digits(&mut s, m);
    } else {
        push_digits(&mut s, x as u128);
    }
    assert(s@ =~= decimal(x as int));
    s
}

/// The decimal text of an unsigned 64-bit number.
pub fn u64_to_string(x: u64) -> (s: String)
    ensures
        s@ == decimal(x as int),
{
    u128_to_string(x as u128)
}

/// Why a decimal number could not be read (the kinds that `u128::from_str` reports).
#[derive(PartialEq, Eq, Debug, Clone, Copy, Structural)]
pub enum IntErrorKind {
    Empty,
    InvalidDigit,
    PosOverflow,
}

impl IntErrorKind {
    /// The message that the standard error type prints for this kind.
    pub fn message(&self) -> (s: &'static str)
        ensures
            *self == IntErrorKind::Empty ==> s@ == "cannot parse integer from empty string"@,
            *self == IntErrorKind::InvalidDigit ==> s@ == "invalid digit found in string"@,
            *self == IntErrorKind::PosOverflow ==> s@ == "number too large to fit in target type"@,
    {
        match self {
            IntErrorKind::Empty => "cannot parse integer from empty string",
            IntErrorKind::InvalidDigit => "invalid digit found in string",
            IntErrorKind::PosOverflow => "number too large to fit in target type",
        }
    }
}

/// Reads digits left to right into `acc`, stopping at the first bad digit or overflow.
pub open spec fn scan_digits(s: Seq<char>, acc: int) -> Result<int, IntErrorKind>
    decreases s.len(),
{
    if s.len() == 0 {
        Ok(acc)
    } else if !is_digit(s[0]) {
        Err(IntErrorKind::InvalidDigit)
    } else if acc * 10 + digit_value(s[0]) > u128::MAX {
        Err(IntErrorKind::PosOverflow)
    } else {
        scan_digits(s.drop_first(), acc * 10 + digit_value(s[0]))
    }
}

/// What `u128::from_str` returns for `s`: an optional leading `+`, then decimal digits.
pub open spec fn parse_u128_spec(s: Seq<char>) -> Result<int, IntErrorKind> {
    if s.len() == 0 {
        Err(IntErrorKind::Empty)
    } else if (s[0] == '+' || s[0] == '-') && s.len() == 1 {
        Err(IntErrorKind::InvalidDigit)
    } else if s[0] == '+' {
        scan_digits(s.drop_first(), 0)
    } else {
        scan_digits(s, 0)
    }
}

proof fn lemma_scan_step(s: Seq<char>, i: int, acc: int)
    requires
        0 <= i < s.len(),
        is_digit(s[i]),
        acc * 10 + digit_value(s[i]) <= u128::MAX,
    ensures
        scan_digits(s.skip(i), acc) == scan_digits(s.skip(i + 1), acc * 10 + digit_value(s[i])),
{
    assert(s.skip(i).drop_first() =~= s.skip(i + 1));
}

fn scan_chars(v: &Vec<char>, start: usize) -> (r: Result<u128, IntErrorKind>)
    requires
        start <= v.len(),
    ensures
        match r {
            Ok(n) => scan_digits(v@.skip(start as int), 0) == Ok::<int, IntErrorKind>(n as int),
            Err(e) => scan_digits(v@.skip(start as int), 0) == Err::<int, IntErrorKind>(e),
        },
{
    let mut acc: u128 = 0;
    let mut i: usize = start;
    while i < v.len()
        invariant
            start <= i <= v.len(),
            scan_digits(v@.skip(start as int), 0) == scan_digits(v@.skip(i as int), acc as int),
        decreases v.len() - i,
    {
        let c = v[i];
        if !('0' <= c && c <= '9') {
            return Err(IntErrorKind::InvalidDigit);
        }
        let d = (c as u32 - 48) as u128;
        if acc > (u128::MAX - d) / 10 {
            assert(acc * 10 + d > u128::MAX) by (nonlinear_arith)
                requires
                    acc > (u128::MAX - d) / 10,
                    d <= 9,
            ;
            return Err(IntErrorKind::PosOverflow);
        }
        assert(acc * 10 + d <= u128::MAX) by (nonlinear_arith)
            requires
                acc <= (u128::MAX - d) / 10,
                d <= 9,
        ;
        proof {
            lemma_scan_step(v@, i as int, acc as int);
        }
        acc = acc * 10 + d;
        i = i + 1;
    }
    assert(v@.skip(i as int).len() == 0);
    Ok(acc)
}

/// Reads a decimal number as `u128::from_str` does.
pub fn parse_u128(s: &str) -> (r: Result<u128, IntErrorKind>)
    ensures
        match r {
            Ok(n) => parse_u128_spec(s@) == Ok::<int, IntErrorKind>(n as int),
            Err(e) => parse_u128_spec(s@) == Err::<int, IntErrorKind>(e),
        },
{
    let v = chars_of(s);
    if v.len() == 0 {
        return Err(IntErrorKind::Empty);
    }
    if (v[0] == '+' || v[0] == '-') && v.len() == 1 {
        return Err(IntErrorKind::InvalidDigit);
    }
    if v[0] == '+' {
        assert(v@.skip(1) =~= v@.drop_first());
        scan_chars(&v, 1)
    } else {
        assert(v@.skip(0) =~= v@);
        scan_chars(&v, 0)
    }
}

/// Reading appends one digit to the value read so far.
proof fn lemma_scan_push(s: Seq<char>, c: char, acc: int)
    requires
        0 <= acc,
    ensures
        scan_digits(s.push(c), acc) == (match scan_digits(s, acc) {
            Ok(a) => if !is_digit(c) {
                Err(IntErrorKind::InvalidDigit)
            } else if a * 10 + digit_value(c) > u128::MAX {
                Err(IntErrorKind::PosOverflow)
            } else {
                Ok(a * 10 + digit_value(c))
            },
            Err(e) => Err(e),
        }),
    decreases s.len(),
{
    if s.len() == 0 {
        assert(s.push(c).drop_first() =~= Seq::<char>::empty());
        assert(s.push(c)[0] == c);
        reveal_with_fuel(scan_digits, 2);
    } else {
        assert(s.push(c).drop_first() =~= s.drop_first().push(c));
        assert(s.push(c)[0] == s[0]);
        if is_digit(s[0]) && acc * 10 + digit_value(s[0]) <= u128::MAX {
            lemma_scan_push(s.drop_first(), c, acc * 10 + digit_value(s[0]));
        }
    }
}

/// Reading the decimal text of a number gives the number back.
pub proof fn lemma_digits_scan(n: nat)
    requires
        n <= u128::MAX,
    ensures
        scan_digits(digits_of(n), 0) == Ok::<int, IntErrorKind>(n as int),
    decreases n,
{
    if n < 10 {
        assert(digits_of(n) =~= Seq::<char>::empty().push(digit_char(n as int)));
        lemma_scan_push(Seq::<char>::empty(), digit_char(n as int), 0);
    } else {
        lemma_digits_scan(n / 10);
        lemma_scan_push(digits_of(n / 10), digit_char((n % 10) as int), 0);
        assert((n / 10) * 10 + n % 10 == n);
    }
}

/// The first character of the decimal text of a number is a digit.
pub proof fn lemma_digits_first(n: nat)
    ensures
        digits_of(n).len() >= 1,
        is_digit(digits_of(n)[0]),
        forall|i: int| 0 <= i < digits_of(n).len() ==> is_digit(#[trigger] digits_of(n)[i]),
    decreases n,
{
    if n >= 10 {
        lemma_digits_first(n / 10);
    }
}

/// Parsing undoes formatting: `parse_u128` reads back what `u128_to_string` wrote.
pub proof fn lemma_parse_format_roundtrip(n: u128)
    ensures
        parse_u128_spec(decimal(n as int)) == Ok::<int, IntErrorKind>(n as int),
{
    lemma_digits_scan(n as nat);
    lemma_digits_first(n as nat);
    let d = digits_of(n as nat);
    assert(d[0] != '+' && d[0] != '-');
}

} // verus!
