//! Character-level text helpers with exact contracts.
use vstd::prelude::*;
use vstd::string::StrSliceExecFns;
use vstd::string::StringExecFns;

verus! {

/// ASCII lower-casing of one character.
pub open spec fn lower_char(c: char) -> char {
    if 'A' <= c <= 'Z' { ((c as u32) + 32) as char } else { c }
}

pub fn lower_char_exec(c: char) -> (r: char)
    ensures
        r == lower_char(c),
{
    if 'A' <= c && c <= 'Z' {
        let v: u32 = (c as u32) + 32;
        proof {
            assert(0x61 <= v <= 0x7a);
        }
        (v as u8) as char
    } else {
        c
    }
}


/// ASCII lower-casing of a string.
pub open spec fn lower(s: Seq<char>) -> Seq<char> {
    s.map_values(|c: char| lower_char(c))
}

/// The characters of a string slice.
pub fn chars_of(s: &str) -> (v: Vec<char>)
    ensures
        v@ == s@,
{
    let n = s.unicode_len();
    let mut v: Vec<char> = Vec::new();
    let mut i: usize = 0;
    while i < n
        invariant
            i <= n,
            n == s@.len(),
            v@ == s@.subrange(0, i as int),
        decreases n - i,
    {
        v.push(s.get_char(i));
        i = i + 1;
        proof {
            assert(v@ =~= s@.subrange(0, i as int));
        }
    }
    proof {
        assert(s@.subrange(0, n as int) =~= s@);
    }
    v
}

pub fn lower_chars(v: &Vec<char>) -> (r: Vec<char>)
    ensures
        r@ == lower(v@),
{
    let mut r: Vec<char> = Vec::new();
    let mut i: usize = 0;
    while i < v.len()
        invariant
            i <= v.len(),
            r@.len() == i,
            forall|j: int| 0 <= j < i ==> #[trigger] r@[j] == lower_char(v@[j]),
        decreases v.len() - i,
    {
        r.push(lower_char_exec(v[i]));
        i = i + 1;
    }
    proof {
        assert(r@ =~= lower(v@));
    }
    r
}

/// Whether the characters spell the string.
pub fn chars_eq(v: &Vec<char>, s: &str) -> (b: bool)
    ensures
        b == (v@ == s@),
{
    let n = s.unicode_len();
    if n != v.len() {
        return false;
    }
    let mut i: usize = 0;
    while i < n
        invariant
            i <= n,
            n == s@.len(),
            n == v@.len(),
            forall|j: int| 0 <= j < i ==> v@[j] == s@[j],
        decreases n - i,
    {
        if v[i] != s.get_char(i) {
            return false;
        }
        i = i + 1;
    }
    proof {
        assert(v@ =~= s@);
    }
    true
}

/// Appends one character through `std::string::String::push`, which vstd
/// gives no specification. Trusted: the string's characters afterwards are
/// the old characters followed by `c`, as the standard library documents.
#[verifier::external_body]
pub(crate) fn push_char(s: &mut String, c: char)
    ensures
        final(s)@ == old(s)@.push(c),
{
    s.push(c);
}

/// A string holding the characters.
pub fn string_of(v: &Vec<char>) -> (s: String)
    ensures
        s@ == v@,
{
    let mut s = String::new();
    let mut i: usize = 0;
    while i < v.len()
        invariant
            i <= v.len(),
            s@ == v@.subrange(0, i as int),
        decreases v.len() - i,
    {
        push_char(&mut s, v[i]);
        i = i + 1;
        proof {
            assert(s@ =~= v@.subrange(0, i as int));
        }
    }
    proof {
        assert(v@.subrange(0, v@.len() as int) =~= v@);
    }
    s
}

/// The decimal digit character for `d` < 10.
pub open spec fn digit_char(d: nat) -> char {
    ((d + 48) as u32) as char
}

/// Decimal representation of a natural number, without leading zeros.
pub open spec fn digits(n: nat) -> Seq<char>
    decreases n,
{
    if n < 10 {
        seq![digit_char(n)]
    } else {
        digits(n / 10).push(digit_char(n % 10))
    }
}

/// Decimal representation of an integer, with a leading `-` when negative.
pub open spec fn dec(v: int) -> Seq<char> {
    if v < 0 {
        seq!['-'] + digits((-v) as nat)
    } else {
        digits(v as nat)
    }
}

fn push_digits(s: &mut String, n: u64)
    ensures
        final(s)@ == old(s)@ + digits(n as nat),
    decreases n,
{
    if n >= 10 {
        push_digits(s, n / 10);
    }
    let d: u32 = (n % 10) as u32 + 48;
    push_char(s, (d as u8) as char);
    proof {
        if n >= 10 {
            assert(old(s)@ + digits((n / 10) as nat) + seq![digit_char((n % 10) as nat)]
                =~= old(s)@ + digits(n as nat));
        } else {
            assert(old(s)@.push(digit_char(n as nat)) =~= old(s)@ + digits(n as nat));
        }
    }
}

/// Appends the decimal form of an integer.
pub fn push_dec(s: &mut String, v: i128)
    requires
        -0x1_0000_0000_0000_0000 < v < 0x1_0000_0000_0000_0000,
    ensures
        final(s)@ == old(s)@ + dec(v as int),
{
    if v < 0 {
        push_char(s, '-');
        push_digits(s, (-v) as u64);
        proof {
            assert(old(s)@.push('-') + digits((-v) as nat) =~= old(s)@ + dec(v as int));
        }
    } else {
        push_digits(s, v as u64);
    }
}

/// Appends a string slice.
pub fn push_str(s: &mut String, t: &str)
    ensures
        final(s)@ == old(s)@ + t@,
{
    s.append(t);
}

/// Upper-case hex digit for `d` < 16.
pub open spec fn hex_char(d: nat) -> char {
    if d < 10 { ((d + 48) as u32) as char } else { ((d + 55) as u32) as char }
}

/// Two upper-case hex digits of a byte.
pub open spec fn hex2(b: u8) -> Seq<char> {
    seq![hex_char((b / 16) as nat), hex_char((b % 16) as nat)]
}

pub fn push_hex2(s: &mut String, b: u8)
    ensures
        final(s)@ == old(s)@ + hex2(b),
{
    let hi: u32 = (b / 16) as u32;
    let lo: u32 = (b % 16) as u32;
    let ch: u32 = if hi < 10 { hi + 48 } else { hi + 55 };
    let cl: u32 = if lo < 10 { lo + 48 } else { lo + 55 };
    push_char(s, (ch as u8) as char);
    push_char(s, (cl as u8) as char);
    proof {
        assert(old(s)@.push(hex_char((b / 16) as nat)).push(hex_char((b % 16) as nat)) =~= old(s)@ + hex2(b));
    }
}

/// Value of an ASCII hex digit, if it is one.
pub open spec fn hex_value(c: char) -> Option<nat> {
    if '0' <= c <= '9' {
        Some((c as u32 - 48) as nat)
    } else if 'a' <= c <= 'f' {
        Some((c as u32 - 87) as nat)
    } else if 'A' <= c <= 'F' {
        Some((c as u32 - 55) as nat)
    } else {
        None
    }
}

pub fn hex_value_exec(c: char) -> (r: Option<u8>)
    ensures
        match hex_value(c) {
            Some(v) => r == Some(v as u8),
            None => r is None,
        },
{
    if '0' <= c && c <= '9' {
        Some((c as u32 - 48) as u8)
    } else if 'a' <= c && c <= 'f' {
        Some((c as u32 - 87) as u8)
    } else if 'A' <= c && c <= 'F' {
        Some((c as u32 - 55) as u8)
    } else {
        None
    }
}

} // verus!
