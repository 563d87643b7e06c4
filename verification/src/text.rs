//! Character-level helpers shared by the parsers and formatters of the crate.
use vstd::prelude::*;

verus! {

/// `c` is an ASCII decimal digit.
pub open spec fn is_digit(c: char) -> bool {
    '0' <= c && c <= '9'
}

/// Numeric value of an ASCII decimal digit.
pub open spec fn digit_value(c: char) -> nat {
    (c as int - '0' as int) as nat
}

/// The digit character for a value below ten.
pub open spec fn digit_char(d: nat) -> char {
    if d == 0 {
        '0'
    } else if d == 1 {
        '1'
    } else if d == 2 {
        '2'
    } else if d == 3 {
        '3'
    } else if d == 4 {
        '4'
    } else if d == 5 {
        '5'
    } else if d == 6 {
        '6'
    } else if d == 7 {
        '7'
    } else if d == 8 {
        '8'
    } else {
        '9'
    }
}

/// Every character of `s` is a decimal digit.
pub open spec fn all_digits(s: Seq<char>) -> bool {
    forall|i: int| 0 <= i < s.len() ==> #[trigger] is_digit(s[i])
}

/// Value of a string of decimal digits, read left to right.
pub open spec fn dec_value(s: Seq<char>) -> nat
    decreases s.len(),
{
    if s.len() == 0 {
        0
    } else {
        dec_value(s.drop_last()) * 10 + digit_value(s.last())
    }
}

/// What `str::parse::<u16>` gives: an optional `+`, then at least one
/// decimal digit, the whole value fitting in 16 bits.
pub open spec fn parse_u16(s: Seq<char>) -> Option<u16> {
    let digits = if s.len() > 0 && s[0] == '+' { s.drop_first() } else { s };
    if digits.len() > 0 && all_digits(digits) && dec_value(digits) <= 65535 {
        Some(dec_value(digits) as u16)
    } else {
        None
    }
}

/// Shortest decimal writing of `n`, as `Display` prints an integer.
pub open spec fn dec_string(n: nat) -> Seq<char>
    decreases n,
{
    if n < 10 {
        seq![digit_char(n)]
    } else {
        dec_string(n / 10).push(digit_char(n % 10))
    }
}

/// `s` begins with `prefix`.
pub open spec fn starts_with(s: Seq<char>, prefix: Seq<char>) -> bool {
    prefix.len() <= s.len() && s.subrange(0, prefix.len() as int) == prefix
}

/// `s` ends with `suffix`.
pub open spec fn ends_with(s: Seq<char>, suffix: Seq<char>) -> bool {
    suffix.len() <= s.len() && s.subrange(s.len() - suffix.len(), s.len() as int) == suffix
}

/// The digits of a prefix never weigh more than the whole string.
pub proof fn lemma_dec_value_prefix(s: Seq<char>, i: int)
    requires
        0 <= i <= s.len(),
    ensures
        dec_value(s.subrange(0, i)) <= dec_value(s),
    decreases s.len() - i,
{
    if i < s.len() {
        lemma_dec_value_prefix(s, i + 1);
        assert(s.subrange(0, i + 1).drop_last() =~= s.subrange(0, i));
    } else {
        assert(s.subrange(0, i) =~= s);
    }
}

/// The decimal writing of a number is made of digits and reads back as the number.
pub proof fn lemma_dec_string(n: nat)
    ensures
        all_digits(dec_string(n)),
        dec_value(dec_string(n)) == n,
        dec_string(n).len() > 0,
    decreases n,
{
    assert(dec_value(Seq::<char>::empty()) == 0);
    if n < 10 {
        let s = dec_string(n);
        assert(s.drop_last() =~= Seq::<char>::empty());
        assert(digit_value(digit_char(n)) == n);
    } else {
        lemma_dec_string(n / 10);
        let s = dec_string(n);
        assert(s.drop_last() =~= dec_string(n / 10));
        assert(digit_value(digit_char(n % 10)) == n % 10);
        assert(forall|i: int| 0 <= i < s.len() - 1 ==> s[i] == dec_string(n / 10)[i]);
    }
}

/// Printing a 16-bit number and parsing it back gives the number.
pub proof fn lemma_parse_u16_dec_string(n: u16)
    ensures
        parse_u16(dec_string(n as nat)) == Some(n),
{
    lemma_dec_string(n as nat);
    assert(is_digit(dec_string(n as nat)[0]));
}

/// Appends one character to a string.
#[verifier::external_body]
pub(crate) fn push_char(s: &mut String, c: char)
    ensures
        final(s)@ == old(s)@.push(c),
{
    s.push(c);
}

/// The characters of a string slice, in order.
pub fn chars_of(s: &str) -> (res: Vec<char>)
    ensures
        res@ == s@,
{
    let n = s.unicode_len();
    let mut res: Vec<char> = Vec::new();
    let mut i: usize = 0;
    while i < n
        invariant
            n == s@.len(),
            i <= n,
            res@ == s@.subrange(0, i as int),
        decreases n - i,
    {
        let c = s.get_char(i);
        res.push(c);
        i = i + 1;
    }
    assert(res@ =~= s@);
    res
}

/// A string holding the given characters.
pub fn string_of(cs: &[char]) -> (res: String)
    ensures
        res@ == cs@,
{
    let mut res = String::new();
    let mut i: usize = 0;
    while i < cs.len()
        invariant
            i <= cs@.len(),
            res@ == cs@.subrange(0, i as int),
        decreases cs@.len() - i,
    {
        push_char(&mut res, cs[i]);
        assert(res@ =~= cs@.subrange(0, i + 1));
        i = i + 1;
    }
    assert(res@ =~= cs@);
    res
}

/// Whether two character sequences are equal.
pub fn chars_eq(a: &[char], b: &[char]) -> (res: bool)
    ensures
        res == (a@ == b@),
{
    if a.len() != b.len() {
        return false;
    }
    let mut i: usize = 0;
    while i < a.len()
        invariant
            a@.len() == b@.len(),
            i <= a@.len(),
            forall|j: int| 0 <= j < i ==> a@[j] == b@[j],
        decreases a@.len() - i,
    {
        if a[i] != b[i] {
            return false;
        }
        i = i + 1;
    }
    assert(a@ =~= b@);
    true
}

/// Whether the characters of `a` spell the string `lit`.
pub fn chars_eq_str(a: &[char], lit: &str) -> (res: bool)
    ensures
        res == (a@ == lit@),
{
    let l = chars_of(lit);
    chars_eq(a, l.as_slice())
}

/// Whether the characters of `a` begin with the string `lit`.
pub fn chars_starts_with_str(a: &[char], lit: &str) -> (res: bool)
    ensures
        res == starts_with(a@, lit@),
{
    let l = chars_of(lit);
    chars_starts_with(a, l.as_slice())
}

/// Whether `a` begins with `prefix`.
pub fn chars_starts_with(a: &[char], prefix: &[char]) -> (res: bool)
    ensures
        res == starts_with(a@, prefix@),
{
    if prefix.len() > a.len() {
        return false;
    }
    let mut i: usize = 0;
    while i < prefix.len()
        invariant
            prefix@.len() <= a@.len(),
            i <= prefix@.len(),
            forall|j: int| 0 <= j < i ==> a@[j] == prefix@[j],
        decreases prefix@.len() - i,
    {
        if a[i] != prefix[i] {
            assert(a@.subrange(0, prefix@.len() as int)[i as int] != prefix@[i as int]);
            return false;
        }
        i = i + 1;
    }
    assert(a@.subrange(0, prefix@.len() as int) =~= prefix@);
    true
}

/// The characters of `a` from index `from` on.
pub fn chars_skip(a: &[char], from: usize) -> (res: Vec<char>)
    ensures
        from <= a@.len() ==> res@ == a@.subrange(from as int, a@.len() as int),
        from > a@.len() ==> res@ == Seq::<char>::empty(),
{
    let mut res: Vec<char> = Vec::new();
    let mut i: usize = from;
    if i > a.len() {
        return res;
    }
    while i < a.len()
        invariant
            from <= i <= a@.len(),
            res@ == a@.subrange(from as int, i as int),
        decreases a@.len() - i,
    {
        res.push(a[i]);
        assert(res@ =~= a@.subrange(from as int, i + 1));
        i = i + 1;
    }
    res
}

/// `str::parse::<u16>`, written out.
pub fn parse_u16_chars(s: &[char]) -> (res: Option<u16>)
    ensures
        res == parse_u16(s@),
{
    let start: usize = if s.len() > 0 && s[0] == '+' { 1 } else { 0 };
    let ghost digits = if s@.len() > 0 && s@[0] == '+' { s@.drop_first() } else { s@ };
    assert(digits =~= s@.subrange(start as int, s@.len() as int));
    if start >= s.len() {
        assert(digits.len() == 0);
        return None;
    }
    let mut value: u32 = 0;
    let mut i: usize = start;
    while i < s.len()
        invariant
            start <= i <= s@.len(),
            start < s@.len(),
            digits == s@.subrange(start as int, s@.len() as int),
            digits == (if s@.len() > 0 && s@[0] == '+' { s@.drop_first() } else { s@ }),
            all_digits(s@.subrange(start as int, i as int)),
            value as nat == dec_value(s@.subrange(start as int, i as int)),
            value <= 65535,
        decreases s@.len() - i,
    {
        let c = s[i];
        if !('0' <= c && c <= '9') {
            assert(digits[i - start] == c);
            assert(!is_digit(digits[i - start]));
            return None;
        }
        let d: u32 = (c as u32) - ('0' as u32);
        let next: u32 = value * 10 + d;
        proof {
            let pre = s@.subrange(start as int, i as int);
            let post = s@.subrange(start as int, i + 1);
            assert(post.drop_last() =~= pre);
            assert(post.last() == c);
            assert forall|j: int| 0 <= j < post.len() implies #[trigger] is_digit(post[j]) by {
                if j < pre.len() {
                    assert(post[j] == pre[j]);
                }
            }
        }
        if next > 65535 {
            proof {
                let post = s@.subrange(start as int, i + 1);
                assert(dec_value(post) == dec_value(post.drop_last()) * 10 + digit_value(post.last()));
                assert(dec_value(post) == next);
                assert(post =~= digits.subrange(0, (i + 1 - start) as int));
                lemma_dec_value_prefix(digits, (i + 1 - start) as int);
                assert(dec_value(digits) > 65535);
            }
            return None;
        }
        value = next;
        i = i + 1;
    }
    assert(s@.subrange(start as int, s@.len() as int) == digits);
    Some(value as u16)
}

/// The decimal writing of a 16-bit number.
pub fn u16_to_string(n: u16) -> (res: String)
    ensures
        res@ == dec_string(n as nat),
    decreases n,
{
    if n < 10 {
        let mut res = String::new();
        push_char(&mut res, digit_of(n));
        assert(res@ =~= dec_string(n as nat));
        res
    } else {
        let mut res = u16_to_string(n / 10);
        push_char(&mut res, digit_of(n % 10));
        res
    }
}

/// The digit character for a value below ten.
fn digit_of(d: u16) -> (c: char)
    requires
        d < 10,
    ensures
        c == digit_char(d as nat),
{
    match d {
        0 => '0',
        1 => '1',
        2 => '2',
        3 => '3',
        4 => '4',
        5 => '5',
        6 => '6',
        7 => '7',
        8 => '8',
        _ => '9',
    }
}

/// The views of a sequence of strings.
pub open spec fn strings_view(v: Seq<String>) -> Seq<Seq<char>> {
    v.map_values(|s: String| s@)
}

/// The view of an optional string.
pub open spec fn opt_string_view(o: Option<String>) -> Option<Seq<char>> {
    match o {
        Some(s) => Some(s@),
        None => None,
    }
}

/// The views of a sequence of optional strings.
pub open spec fn opt_strings_view(v: Seq<Option<String>>) -> Seq<Option<Seq<char>>> {
    v.map_values(|o: Option<String>| opt_string_view(o))
}

} // verus!
