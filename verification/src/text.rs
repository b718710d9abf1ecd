//! Text helpers: hexadecimal digits, character search and comparison.

use vstd::prelude::*;

verus! {

/// The digit for `n` (below 16) in hexadecimal, in upper or lower case.
pub open spec fn hex_digit(n: int, upper: bool) -> char {
    if n < 10 {
        (('0' as int) + n) as char
    } else if upper {
        (('A' as int) + n - 10) as char
    } else {
        (('a' as int) + n - 10) as char
    }
}

/// `v` as two hexadecimal digits.
pub open spec fn hex2(v: u8, upper: bool) -> Seq<char> {
    seq![hex_digit((v / 16) as int, upper), hex_digit((v % 16) as int, upper)]
}

/// Appends `c` to `s`. Trusted: calls `String::push`, which appends one
/// character.
#[verifier::external_body]
pub(crate) fn string_push(s: &mut String, c: char)
    ensures
        final(s)@ == old(s)@.push(c),
{
    s.push(c);
}

/// The hexadecimal digit for `n` below 16.
pub fn hex_digit_char(n: u8, upper: bool) -> (c: char)
    requires
        n < 16,
    ensures
        c == hex_digit(n as int, upper),
{
    if n < 10 {
        ('0' as u8 + n) as char
    } else if upper {
        ('A' as u8 + n - 10) as char
    } else {
        ('a' as u8 + n - 10) as char
    }
}

/// Appends `v` as two hexadecimal digits (as `{:02x}` or `{:02X}` format it).
pub fn push_hex2(s: &mut String, v: u8, upper: bool)
    ensures
        final(s)@ == old(s)@ + hex2(v, upper),
{
    string_push(s, hex_digit_char(v / 16, upper));
    string_push(s, hex_digit_char(v % 16, upper));
    assert(s@ =~= old(s)@ + hex2(v, upper));
}

/// `i` is the first position of `c` in `s`.
pub open spec fn first_at(s: Seq<char>, c: char, i: int) -> bool {
    &&& 0 <= i < s.len()
    &&& s[i] == c
    &&& forall|j: int| 0 <= j < i ==> s[j] != c
}

/// The first position of `c` in `s`, if any.
pub open spec fn find_char(s: Seq<char>, c: char) -> Option<int> {
    if exists|i: int| 0 <= i < s.len() && s[i] == c {
        Some(choose|i: int| first_at(s, c, i))
    } else {
        None
    }
}

/// The first occurrence is unique, and `find_char` finds it.
pub proof fn lemma_find_char(s: Seq<char>, c: char, i: int)
    requires
        first_at(s, c, i),
    ensures
        find_char(s, c) == Some(i),
{
    assert(exists|j: int| 0 <= j < s.len() && s[j] == c);
    let k = choose|k: int| first_at(s, c, k);
    assert(first_at(s, c, k)) by {
        assert(first_at(s, c, i));
    }
    if k < i {
        assert(s[k] != c);
    } else if i < k {
        assert(s[i] != c);
    }
}

/// The character position of the first `c` in `s`.
pub fn find_char_exec(s: &str, c: char) -> (r: Option<usize>)
    ensures
        r matches Some(i) ==> i as int == find_char(s@, c)->0 && first_at(s@, c, i as int),
        r is None <==> find_char(s@, c) is None,
{
    let n = s.unicode_len();
    let mut i: usize = 0;
    while i < n
        invariant
            n == s@.len(),
            i <= n,
            forall|j: int| 0 <= j < i ==> s@[j] != c,
        decreases n - i,
    {
        if s.get_char(i) == c {
            proof {
                lemma_find_char(s@, c, i as int);
            }
            return Some(i);
        }
        i = i + 1;
    }
    None
}

/// Whether `s` holds the same characters as `t`.
pub fn str_eq(s: &str, t: &str) -> (r: bool)
    ensures
        r == (s@ == t@),
{
    let n = s.unicode_len();
    if n != t.unicode_len() {
        return false;
    }
    let mut i: usize = 0;
    while i < n
        invariant
            n == s@.len(),
            n == t@.len(),
            i <= n,
            forall|j: int| 0 <= j < i ==> s@[j] == t@[j],
        decreases n - i,
    {
        if s.get_char(i) != t.get_char(i) {
            return false;
        }
        i = i + 1;
    }
    assert(s@ =~= t@);
    true
}

/// Whether `s` starts with the character `c`.
pub fn starts_with_char(s: &str, c: char) -> (r: bool)
    ensures
        r == (s@.len() > 0 && s@[0] == c),
{
    if s.is_empty() {
        false
    } else {
        s.get_char(0) == c
    }
}

// ---------------------------------------------------------------------------
// hexadecimal numbers

pub open spec fn is_hex_digit(c: char) -> bool {
    ('0' as int <= c as int <= '9' as int) || ('a' as int <= c as int <= 'f' as int) || ('A' as int
        <= c as int <= 'F' as int)
}

pub open spec fn hex_digit_value(c: char) -> int {
    if '0' as int <= c as int <= '9' as int {
        c as int - '0' as int
    } else if 'a' as int <= c as int <= 'f' as int {
        c as int - 'a' as int + 10
    } else {
        c as int - 'A' as int + 10
    }
}

/// The number the hexadecimal digits `s` stand for.
pub open spec fn hex_value(s: Seq<char>) -> int
    decreases s.len(),
{
    if s.len() == 0 {
        0
    } else {
        hex_value(s.drop_last()) * 16 + hex_digit_value(s.last())
    }
}

/// The digits of a number: a leading `+` is allowed.
pub open spec fn hex_digits(s: Seq<char>) -> Seq<char> {
    if s.len() > 0 && s[0] == '+' {
        s.drop_first()
    } else {
        s
    }
}

/// `s` is a hexadecimal number that fits in a `usize`.
pub open spec fn parses_as_hex_usize(s: Seq<char>) -> bool {
    let d = hex_digits(s);
    &&& d.len() > 0
    &&& forall|i: int| 0 <= i < d.len() ==> is_hex_digit(#[trigger] d[i])
    &&& hex_value(d) <= usize::MAX
}

/// The message of the error that `usize::from_str_radix(s, 16)` reports for
/// `s`.
pub uninterp spec fn radix16_error_text(s: Seq<char>) -> Seq<char>;

/// Parses `s` as a hexadecimal `usize`. Trusted: calls
/// `usize::from_str_radix(s, 16)`, which accepts an optional `+` followed by
/// at least one hexadecimal digit (either case) whose value fits, and turns
/// its error into its message text.
#[verifier::external_body]
pub(crate) fn usize_from_hex(s: &str) -> (r: Result<usize, String>)
    ensures
        match r {
            Ok(v) => parses_as_hex_usize(s@) && v == hex_value(hex_digits(s@)),
            Err(e) => !parses_as_hex_usize(s@) && e@ == radix16_error_text(s@),
        },
{
    match usize::from_str_radix(s, 16) {
        Ok(v) => Ok(v),
        Err(e) => Err(e.to_string()),
    }
}

} // verus!
