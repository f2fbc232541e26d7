//! Character-level helpers shared by the serializer and the extractor:
//! conversions between strings and character vectors, decimal rendering
//! and decimal parsing.
use vstd::prelude::*;

verus! {

/// The characters of `s`, in order.
pub(crate) fn chars_of(s: &str) -> (r: Vec<char>)
    ensures
        r@ == s@,
{
    let mut r: Vec<char> = Vec::new();
    for c in it: s.chars()
        invariant
            it.seq() == s@,
            r@ == s@.take(it.index() as int),
    {
        r.push(c);
    }
    assert(r@ == s@);
    r
}

/// Relies on `String`'s `FromIterator<&char>`: the string made of the
/// given characters, in order.
#[verifier::external_body]
pub(crate) fn string_of(v: &Vec<char>) -> (r: String)
    ensures
        r@ == v@,
{
    v.iter().collect()
}

/// Appends the characters of `s` to `out`.
pub fn push_str(out: &mut Vec<char>, s: &str)
    ensures
        final(out)@ == old(out)@ + s@,
{
    let cs = chars_of(s);
    push_chars(out, &cs);
}

/// Appends the characters of `cs` to `out`.
pub fn push_chars(out: &mut Vec<char>, cs: &Vec<char>)
    ensures
        final(out)@ == old(out)@ + cs@,
{
    let ghost start = out@;
    let mut i: usize = 0;
    while i < cs.len()
        invariant
            i <= cs.len(),
            out@ == start + cs@.take(i as int),
        decreases cs.len() - i,
    {
        out.push(cs[i]);
        i = i + 1;
        assert(cs@.take(i as int) == cs@.take(i - 1) + seq![cs@[i - 1]]);
    }
    assert(cs@.take(cs.len() as int) == cs@);
}

/// The character of the decimal digit `d`.
pub open spec fn digit_char(d: int) -> char {
    if d == 0 { '0' }
    else if d == 1 { '1' }
    else if d == 2 { '2' }
    else if d == 3 { '3' }
    else if d == 4 { '4' }
    else if d == 5 { '5' }
    else if d == 6 { '6' }
    else if d == 7 { '7' }
    else if d == 8 { '8' }
    else { '9' }
}

/// The decimal digits of `n`, most significant first, without padding.
pub open spec fn decimal(n: nat) -> Seq<char>
    decreases n,
{
    if n < 10 {
        seq![digit_char(n as int)]
    } else {
        decimal(n / 10).push(digit_char((n % 10) as int))
    }
}

/// The decimal digits of `n`, left-padded with zeros to at least `width`
/// characters.
pub open spec fn padded(n: nat, width: nat) -> Seq<char> {
    let d = decimal(n);
    if d.len() >= width {
        d
    } else {
        Seq::new((width - d.len()) as nat, |i: int| '0') + d
    }
}

/// A signed integer in decimal, zero-padded to at least `width` characters
/// counting the sign, as `{:0width$}` writes it.
pub open spec fn padded_signed(n: int, width: nat) -> Seq<char> {
    if n < 0 {
        seq!['-'] + padded((-n) as nat, if width > 0 { (width - 1) as nat } else { 0 })
    } else {
        padded(n as nat, width)
    }
}

fn digit(d: u64) -> (c: char)
    requires
        d < 10,
    ensures
        c == digit_char(d as int),
{
    if d == 0 { '0' }
    else if d == 1 { '1' }
    else if d == 2 { '2' }
    else if d == 3 { '3' }
    else if d == 4 { '4' }
    else if d == 5 { '5' }
    else if d == 6 { '6' }
    else if d == 7 { '7' }
    else if d == 8 { '8' }
    else { '9' }
}

/// Appends the decimal digits of `n`.
pub fn push_decimal(out: &mut Vec<char>, n: u64)
    ensures
        final(out)@ == old(out)@ + decimal(n as nat),
    decreases n,
{
    if n >= 10 {
        push_decimal(out, n / 10);
    }
    out.push(digit(n % 10));
}

/// Appends `n` in decimal, zero-padded to at least `width` characters.
pub fn push_padded(out: &mut Vec<char>, n: u64, width: usize)
    ensures
        final(out)@ == old(out)@ + padded(n as nat, width as nat),
{
    let ghost start = out@;
    let mut digits: Vec<char> = Vec::new();
    push_decimal(&mut digits, n);
    let len = digits.len();
    if len < width {
        let zeros = width - len;
        let mut i: usize = 0;
        while i < zeros
            invariant
                i <= zeros,
                out@ == start + Seq::new(i as nat, |k: int| '0'),
            decreases zeros - i,
        {
            out.push('0');
            i = i + 1;
            assert(out@ == start + Seq::new(i as nat, |k: int| '0'));
        }
    }
    push_chars(out, &digits);
    assert(out@ == start + padded(n as nat, width as nat));
}

/// Appends `n` as `{:0width$}` writes a signed integer.
pub fn push_padded_signed(out: &mut Vec<char>, n: i64, width: usize)
    ensures
        final(out)@ == old(out)@ + padded_signed(n as int, width as nat),
{
    if n < 0 {
        out.push('-');
        let w = if width > 0 { width - 1 } else { 0 };
        let m: u64 = if n == i64::MIN { 9223372036854775808u64 } else { (-n) as u64 };
        push_padded(out, m, w);
    } else {
        push_padded(out, n as u64, width);
    }
}

/// Tests a character vector against a string.
pub fn chars_eq_str(a: &Vec<char>, b: &str) -> (r: bool)
    ensures
        r == (a@ == b@),
{
    let y = chars_of(b);
    if a.len() != y.len() {
        return false;
    }
    let mut i: usize = 0;
    while i < a.len()
        invariant
            i <= a.len() == y.len(),
            y@ == b@,
            forall|j: int| 0 <= j < i ==> a@[j] == y@[j],
        decreases a.len() - i,
    {
        if a[i] != y[i] {
            return false;
        }
        i = i + 1;
    }
    assert(a@ =~= y@);
    true
}

/// The characters `lo..hi` of `v`.
pub fn sub_chars(v: &Vec<char>, lo: usize, hi: usize) -> (r: Vec<char>)
    requires
        lo <= hi <= v@.len(),
    ensures
        r@ == v@.subrange(lo as int, hi as int),
{
    let mut r: Vec<char> = Vec::new();
    let mut i: usize = lo;
    while i < hi
        invariant
            lo <= i <= hi <= v@.len(),
            r@ == v@.subrange(lo as int, i as int),
        decreases hi - i,
    {
        r.push(v[i]);
        i = i + 1;
        assert(r@ =~= v@.subrange(lo as int, i as int));
    }
    r
}

/// The index of the first `c` in `s` at or after `i`.
pub open spec fn find_from(s: Seq<char>, c: char, i: int) -> Option<int>
    decreases s.len() - i,
{
    if i < 0 || i >= s.len() {
        None
    } else if s[i] == c {
        Some(i)
    } else {
        find_from(s, c, i + 1)
    }
}

/// `s` split around its first `c`, as `str::split_once` does.
pub open spec fn split_once(s: Seq<char>, c: char) -> Option<(Seq<char>, Seq<char>)> {
    match find_from(s, c, 0) {
        Some(i) => Some((s.take(i), s.skip(i + 1))),
        None => None,
    }
}

/// Splits `s` around its first `c`.
pub fn split_chars_once(s: &Vec<char>, c: char) -> (r: Option<(Vec<char>, Vec<char>)>)
    ensures
        match split_once(s@, c) {
            Some((a, b)) => r matches Some((x, y)) && x@ == a && y@ == b,
            None => r is None,
        },
{
    let mut i: usize = 0;
    while i < s.len()
        invariant
            i <= s.len(),
            find_from(s@, c, 0) == find_from(s@, c, i as int),
        decreases s.len() - i,
    {
        if s[i] == c {
            let a = sub_chars(s, 0, i);
            let b = sub_chars(s, i + 1, s.len());
            assert(a@ == s@.take(i as int));
            assert(b@ == s@.skip(i + 1));
            return Some((a, b));
        }
        i = i + 1;
    }
    None
}

/// `s` without the `:` characters at its end.
pub open spec fn trim_colons(s: Seq<char>) -> Seq<char>
    decreases s.len(),
{
    if s.len() > 0 && s.last() == ':' {
        trim_colons(s.drop_last())
    } else {
        s
    }
}

/// Removes the `:` characters at the end of `s`, as
/// `str::trim_end_matches(':')` does.
pub fn trim_end_colons(s: &Vec<char>) -> (r: Vec<char>)
    ensures
        r@ == trim_colons(s@),
{
    let mut n: usize = s.len();
    assert(s@.take(n as int) == s@);
    while n > 0 && s[n - 1] == ':'
        invariant
            n <= s.len(),
            trim_colons(s@) == trim_colons(s@.take(n as int)),
        decreases n,
    {
        assert(s@.take(n as int).drop_last() == s@.take(n - 1));
        n = n - 1;
    }
    assert(s@.take(n as int) == s@.subrange(0, n as int));
    sub_chars(s, 0, n)
}

/// Tests two strings for equality.
pub fn str_eq(a: &str, b: &str) -> (r: bool)
    ensures
        r == (a@ == b@),
{
    let x = chars_of(a);
    let y = chars_of(b);
    if x.len() != y.len() {
        return false;
    }
    let mut i: usize = 0;
    while i < x.len()
        invariant
            i <= x.len() == y.len(),
            x@ == a@,
            y@ == b@,
            forall|j: int| 0 <= j < i ==> x@[j] == y@[j],
        decreases x.len() - i,
    {
        if x[i] != y[i] {
            return false;
        }
        i = i + 1;
    }
    assert(x@ =~= y@);
    true
}

proof fn lemma_digit_char(d: int)
    requires
        0 <= d < 10,
    ensures
        is_digit(digit_char(d)),
        digit_value(digit_char(d)) == d,
{
}

/// Decimal digits read back as the number they were written from.
pub proof fn lemma_decimal_reads_back(n: nat)
    ensures
        decimal(n).len() > 0,
        all_digits(decimal(n)),
        digits_value(decimal(n)) == n,
        unsigned_text(decimal(n)) == Some(n as int),
        signed_text(decimal(n)) == Some(n as int),
    decreases n,
{
    let d = decimal(n);
    if n < 10 {
        lemma_digit_char(n as int);
        assert(d.drop_last() =~= Seq::<char>::empty());
        assert(d.last() == digit_char(n as int));
        assert(all_digits(d));
        assert(digits_value(d) == digits_value(d.drop_last()) * 10 + digit_value(d.last()));
        assert(digits_value(Seq::<char>::empty()) == 0);
    } else {
        lemma_decimal_reads_back(n / 10);
        lemma_digit_char((n % 10) as int);
        assert(d.drop_last() == decimal(n / 10));
        assert(d.last() == digit_char((n % 10) as int));
        assert((n / 10) * 10 + n % 10 == n) by (nonlinear_arith);
        assert(digits_value(d) == digits_value(d.drop_last()) * 10 + digit_value(d.last()));
        assert forall|i: int| 0 <= i < d.len() implies is_digit(#[trigger] d[i]) by {
            if i < d.len() - 1 {
                assert(d[i] == decimal(n / 10)[i]);
            }
        }
    }
    assert(is_digit(d[0]));
    assert(d[0] != '+' && d[0] != '-');
    assert(digits_text(d) == Some(n as int));
}

/// A signed integer written without padding reads back as itself.
pub proof fn lemma_signed_reads_back(n: int)
    ensures
        signed_text(padded_signed(n, 0)) == Some(n),
{
    if n < 0 {
        lemma_decimal_reads_back((-n) as nat);
        let s = padded_signed(n, 0);
        assert(s.drop_first() == decimal((-n) as nat));
    } else {
        lemma_decimal_reads_back(n as nat);
    }
}

/// Whether `c` is one of the ASCII decimal digits.
pub open spec fn is_digit(c: char) -> bool {
    '0' as u32 <= c as u32 && c as u32 <= '9' as u32
}

/// The value of a decimal digit character.
pub open spec fn digit_value(c: char) -> int {
    c as u32 - '0' as u32
}

/// Whether every character of `s` is a decimal digit.
pub open spec fn all_digits(s: Seq<char>) -> bool {
    forall|i: int| 0 <= i < s.len() ==> is_digit(#[trigger] s[i])
}

/// The value of a string of decimal digits, most significant first.
pub open spec fn digits_value(s: Seq<char>) -> int
    decreases s.len(),
{
    if s.len() == 0 {
        0
    } else {
        digits_value(s.drop_last()) * 10 + digit_value(s.last())
    }
}

/// What a string of digits reads as: `None` unless it is non-empty and all
/// digits.
pub open spec fn digits_text(s: Seq<char>) -> Option<int> {
    if s.len() > 0 && all_digits(s) {
        Some(digits_value(s))
    } else {
        None
    }
}

/// The value of an unsigned decimal integer: digits after an optional `+`.
pub open spec fn unsigned_text(s: Seq<char>) -> Option<int> {
    if s.len() > 0 && s[0] == '+' {
        digits_text(s.drop_first())
    } else {
        digits_text(s)
    }
}

/// The value of a signed decimal integer: digits after an optional `+` or
/// `-`.
pub open spec fn signed_text(s: Seq<char>) -> Option<int> {
    if s.len() > 0 && s[0] == '-' {
        match digits_text(s.drop_first()) {
            Some(v) => Some(-v),
            None => None,
        }
    } else {
        unsigned_text(s)
    }
}

proof fn lemma_digits_value_nonneg(s: Seq<char>)
    requires
        all_digits(s),
    ensures
        digits_value(s) >= 0,
    decreases s.len(),
{
    if s.len() > 0 {
        assert(is_digit(s[s.len() - 1]));
        lemma_digits_value_nonneg(s.drop_last());
    }
}

proof fn lemma_digits_value_prefix(s: Seq<char>, k: int)
    requires
        all_digits(s),
        0 <= k <= s.len(),
    ensures
        digits_value(s.take(k)) <= digits_value(s),
    decreases s.len(),
{
    if k < s.len() {
        let t = s.drop_last();
        assert(is_digit(s[s.len() - 1]));
        assert(all_digits(t)) by {
            assert forall|i: int| 0 <= i < t.len() implies is_digit(#[trigger] t[i]) by {
                assert(t[i] == s[i]);
            }
        }
        lemma_digits_value_nonneg(t);
        lemma_digits_value_prefix(t, k);
        assert(t.take(k) == s.take(k));
    } else {
        assert(s.take(k) == s);
    }
}

/// Reads the digits of `s` from `start` on, as a value at most `max`.
fn parse_digits(s: &Vec<char>, start: usize, max: u64) -> (r: Option<u64>)
    requires
        start <= s@.len(),
    ensures
        r is Some <==> (digits_text(s@.skip(start as int)) is Some
            && digits_text(s@.skip(start as int))->0 <= max),
        r is Some ==> r->0 == digits_text(s@.skip(start as int))->0,
{
    let ghost body = s@.skip(start as int);
    if start >= s.len() {
        return None;
    }
    let mut value: u64 = 0;
    let mut i: usize = start;
    while i < s.len()
        invariant
            start <= i <= s@.len(),
            body == s@.skip(start as int),
            all_digits(body.take(i - start)),
            value as int == digits_value(body.take(i - start)),
            value <= max,
        decreases s.len() - i,
    {
        let c = s[i];
        if !('0' as u32 <= c as u32 && c as u32 <= '9' as u32) {
            assert(body[i - start] == c);
            return None;
        }
        let d = (c as u32 - '0' as u32) as u64;
        let v: u128 = value as u128 * 10 + d as u128;
        let ghost pre = body.take(i - start);
        let ghost next = body.take(i + 1 - start);
        assert(next.drop_last() == pre);
        assert(next.last() == c);
        assert(all_digits(next)) by {
            assert forall|j: int| 0 <= j < next.len() implies is_digit(#[trigger] next[j]) by {
                if j < pre.len() {
                    assert(next[j] == pre[j]);
                }
            }
        }
        if v > max as u128 {
            proof {
                if all_digits(body) {
                    lemma_digits_value_prefix(body, i + 1 - start);
                }
            }
            return None;
        }
        value = v as u64;
        i = i + 1;
    }
    assert(body.take(i - start) == body);
    Some(value)
}

/// Parses an unsigned decimal integer no larger than `max`, as Rust's
/// `str::parse` does for unsigned integer types.
pub fn parse_unsigned(s: &Vec<char>, max: u64) -> (r: Option<u64>)
    ensures
        r is Some <==> (unsigned_text(s@) is Some && unsigned_text(s@)->0 <= max),
        r is Some ==> r->0 == unsigned_text(s@)->0,
{
    if s.len() > 0 && s[0] == '+' {
        assert(s@.skip(1) == s@.drop_first());
        parse_digits(s, 1, max)
    } else {
        assert(s@.skip(0) == s@);
        parse_digits(s, 0, max)
    }
}

/// Parses a signed decimal integer in `min..=max`, as Rust's `str::parse`
/// does for signed integer types.
pub fn parse_signed(s: &Vec<char>, min: i64, max: i64) -> (r: Option<i64>)
    requires
        min <= 0 <= max,
    ensures
        r is Some <==> (signed_text(s@) is Some && min <= signed_text(s@)->0 <= max),
        r is Some ==> r->0 == signed_text(s@)->0,
{
    if s.len() > 0 && s[0] == '-' {
        assert(s@.skip(1) == s@.drop_first());
        let bound: u64 = if min == i64::MIN { 9223372036854775808u64 } else { (-min) as u64 };
        match parse_digits(s, 1, bound) {
            Some(v) => {
                if v == 9223372036854775808u64 {
                    Some(i64::MIN)
                } else {
                    Some(-(v as i64))
                }
            },
            None => None,
        }
    } else {
        match parse_unsigned(s, max as u64) {
            Some(v) => Some(v as i64),
            None => None,
        }
    }
}

} // verus!
