//! Reading numbers out of text the way a form field holds them: surrounding
//! white space ignored, an optional sign, then decimal digits.
use vstd::prelude::*;
use crate::text::{dec, digit_char, digits};

verus! {

/// Unicode white space, as `char::is_whitespace` defines it.
pub open spec fn is_space(c: char) -> bool {
    ('\t' <= c <= '\r') || c == ' ' || c == '\u{85}' || c == '\u{a0}' || c == '\u{1680}'
        || ('\u{2000}' <= c <= '\u{200a}') || c == '\u{2028}' || c == '\u{2029}' || c == '\u{202f}'
        || c == '\u{205f}' || c == '\u{3000}'
}

pub fn is_space_exec(c: char) -> (b: bool)
    ensures
        b == is_space(c),
{
    ('\t' <= c && c <= '\r') || c == ' ' || c == '\u{85}' || c == '\u{a0}' || c == '\u{1680}'
        || ('\u{2000}' <= c && c <= '\u{200a}') || c == '\u{2028}' || c == '\u{2029}' || c == '\u{202f}'
        || c == '\u{205f}' || c == '\u{3000}'
}

pub open spec fn trim_start(s: Seq<char>) -> Seq<char>
    decreases s.len(),
{
    if s.len() > 0 && is_space(s[0]) {
        trim_start(s.drop_first())
    } else {
        s
    }
}

pub open spec fn trim_end(s: Seq<char>) -> Seq<char>
    decreases s.len(),
{
    if s.len() > 0 && is_space(s.last()) {
        trim_end(s.drop_last())
    } else {
        s
    }
}

/// The text without leading and trailing white space.
pub open spec fn trim(s: Seq<char>) -> Seq<char> {
    trim_end(trim_start(s))
}

proof fn lemma_trim_start(s: Seq<char>, i: int)
    requires
        0 <= i <= s.len(),
        forall|k: int| 0 <= k < i ==> is_space(#[trigger] s[k]),
        i == s.len() || !is_space(s[i]),
    ensures
        trim_start(s) == s.subrange(i, s.len() as int),
    decreases i,
{
    if i == 0 {
        assert(s.subrange(0, s.len() as int) =~= s);
    } else {
        let t = s.drop_first();
        assert forall|k: int| 0 <= k < i - 1 implies is_space(#[trigger] t[k]) by {
            assert(t[k] == s[k + 1]);
        }
        if i - 1 < t.len() {
            assert(t[i - 1] == s[i]);
        }
        lemma_trim_start(t, i - 1);
        assert(t.subrange(i - 1, t.len() as int) =~= s.subrange(i, s.len() as int));
    }
}

proof fn lemma_trim_end(s: Seq<char>, j: int)
    requires
        0 <= j <= s.len(),
        forall|k: int| j <= k < s.len() ==> is_space(#[trigger] s[k]),
        j == 0 || !is_space(s[j - 1]),
    ensures
        trim_end(s) == s.subrange(0, j),
    decreases s.len() - j,
{
    if j == s.len() {
        assert(s.subrange(0, j) =~= s);
    } else {
        let t = s.drop_last();
        assert forall|k: int| j <= k < t.len() implies is_space(#[trigger] t[k]) by {
            assert(t[k] == s[k]);
        }
        if j > 0 {
            assert(t[j - 1] == s[j - 1]);
        }
        lemma_trim_end(t, j);
        assert(t.subrange(0, j) =~= s.subrange(0, j));
    }
}

/// The characters of a text without leading and trailing white space.
pub fn trim_chars(v: &Vec<char>) -> (r: Vec<char>)
    ensures
        r@ == trim(v@),
{
    let n = v.len();
    let mut i: usize = 0;
    while i < n && is_space_exec(v[i])
        invariant
            i <= n,
            n == v@.len(),
            forall|k: int| 0 <= k < i ==> is_space(#[trigger] v@[k]),
        decreases n - i,
    {
        i = i + 1;
    }
    proof {
        lemma_trim_start(v@, i as int);
    }
    let mut j: usize = n;
    while j > i && is_space_exec(v[j - 1])
        invariant
            i <= j <= n,
            n == v@.len(),
            forall|k: int| j <= k < n ==> is_space(#[trigger] v@[k]),
        decreases j - i,
    {
        j = j - 1;
    }
    let ghost t = v@.subrange(i as int, n as int);
    proof {
        assert forall|k: int| j - i <= k < t.len() implies is_space(#[trigger] t[k]) by {
            assert(t[k] == v@[k + i]);
        }
        if j > i {
            assert(t[j - i - 1] == v@[j - 1]);
        }
        lemma_trim_end(t, j - i);
        assert(t.subrange(0, j - i) =~= v@.subrange(i as int, j as int));
    }
    let mut r: Vec<char> = Vec::new();
    let mut k: usize = i;
    while k < j
        invariant
            i <= k <= j <= n,
            n == v@.len(),
            r@ == v@.subrange(i as int, k as int),
        decreases j - k,
    {
        r.push(v[k]);
        k = k + 1;
        proof {
            assert(r@ =~= v@.subrange(i as int, k as int));
        }
    }
    r
}

pub open spec fn is_digit(c: char) -> bool {
    '0' <= c <= '9'
}

pub open spec fn digit_value(c: char) -> nat {
    (c as int - '0' as int) as nat
}

pub open spec fn all_digits(s: Seq<char>) -> bool {
    forall|i: int| 0 <= i < s.len() ==> is_digit(#[trigger] s[i])
}

/// The number a run of decimal digits spells.
pub open spec fn digits_value(s: Seq<char>) -> nat
    decreases s.len(),
{
    if s.len() == 0 {
        0
    } else {
        digits_value(s.drop_last()) * 10 + digit_value(s.last())
    }
}

/// A magnitude: an optional `+`, then at least one digit.
pub open spec fn unsigned_of(s: Seq<char>) -> Option<nat> {
    let body = if s.len() > 0 && s[0] == '+' { s.drop_first() } else { s };
    if body.len() > 0 && all_digits(body) {
        Some(digits_value(body))
    } else {
        None
    }
}

/// A signed number: `-` and a magnitude, or a magnitude.
pub open spec fn signed_of(s: Seq<char>) -> Option<int> {
    if s.len() > 0 && s[0] == '-' {
        let body = s.drop_first();
        if body.len() > 0 && all_digits(body) {
            Some(-(digits_value(body) as int))
        } else {
            None
        }
    } else {
        match unsigned_of(s) {
            Some(v) => Some(v as int),
            None => None,
        }
    }
}

/// The `u64` a text holds, as `str::parse` reads it.
pub open spec fn u64_of(s: Seq<char>) -> Option<u64> {
    match unsigned_of(s) {
        Some(v) => if v <= u64::MAX { Some(v as u64) } else { None },
        None => None,
    }
}

/// The `u32` a text holds, as `str::parse` reads it.
pub open spec fn u32_of(s: Seq<char>) -> Option<u32> {
    match unsigned_of(s) {
        Some(v) => if v <= u32::MAX { Some(v as u32) } else { None },
        None => None,
    }
}

/// The `i64` a text holds, as `str::parse` reads it.
pub open spec fn i64_of(s: Seq<char>) -> Option<i64> {
    match signed_of(s) {
        Some(v) => if i64::MIN <= v <= i64::MAX { Some(v as i64) } else { None },
        None => None,
    }
}

proof fn lemma_digits_grow(s: Seq<char>, i: int)
    requires
        0 <= i <= s.len(),
        all_digits(s),
    ensures
        digits_value(s.subrange(0, i)) <= digits_value(s),
    decreases s.len() - i,
{
    if i < s.len() {
        let t = s.drop_last();
        assert forall|k: int| 0 <= k < t.len() implies is_digit(#[trigger] t[k]) by {
            assert(t[k] == s[k]);
        }
        lemma_digits_grow(t, i);
        assert(t.subrange(0, i) =~= s.subrange(0, i));
    } else {
        assert(s.subrange(0, i) =~= s);
    }
}

/// Reads a run of digits starting at `start`, failing on a non-digit, an
/// empty run, or a value above `max`.
fn digits_from(v: &Vec<char>, start: usize, max: u64) -> (r: Option<u64>)
    requires
        start <= v@.len(),
    ensures
        ({
            let body = v@.subrange(start as int, v@.len() as int);
            r == if body.len() > 0 && all_digits(body) && digits_value(body) <= max {
                Some(digits_value(body) as u64)
            } else {
                None::<u64>
            }
        }),
{
    let n = v.len();
    let ghost body = v@.subrange(start as int, n as int);
    if start >= n {
        return None;
    }
    let mut acc: u64 = 0;
    let mut i: usize = start;
    while i < n
        invariant
            start <= i <= n,
            n == v@.len(),
            body == v@.subrange(start as int, n as int),
            all_digits(v@.subrange(start as int, i as int)),
            acc as nat == digits_value(v@.subrange(start as int, i as int)),
            acc <= max,
        decreases n - i,
    {
        let c = v[i];
        if c < '0' || c > '9' {
            proof {
                assert(body[i - start] == c);
                assert(!all_digits(body));
            }
            return None;
        }
        let d: u64 = (c as u32 - 48) as u64;
        let ghost pre = v@.subrange(start as int, i as int);
        let ghost next = v@.subrange(start as int, i + 1);
        proof {
            assert(next.drop_last() =~= pre);
            assert(next.last() == c);
            assert forall|k: int| 0 <= k < next.len() implies is_digit(#[trigger] next[k]) by {
                if k < pre.len() {
                    assert(next[k] == pre[k]);
                }
            }
        }
        if d > max || acc > (max - d) / 10 {
            proof {
                assert(digits_value(next) > max);
                // every later digit only grows the value, and a non-digit fails anyway
                if all_digits(body) {
                    lemma_digits_grow(body, i + 1 - start);
                    assert(body.subrange(0, i + 1 - start) =~= next);
                }
            }
            return None;
        }
        acc = acc * 10 + d;
        i = i + 1;
    }
    proof {
        assert(v@.subrange(start as int, n as int) =~= body);
    }
    Some(acc)
}

/// Reads an unsigned number no larger than `max`.
fn unsigned_capped(v: &Vec<char>, max: u64) -> (r: Option<u64>)
    ensures
        r == match unsigned_of(v@) {
            Some(x) => if x <= max { Some(x as u64) } else { None::<u64> },
            None => None::<u64>,
        },
{
    let start: usize = if v.len() > 0 && v[0] == '+' { 1 } else { 0 };
    proof {
        if start == 1 {
            assert(v@.subrange(1, v@.len() as int) =~= v@.drop_first());
        } else {
            assert(v@.subrange(0, v@.len() as int) =~= v@);
        }
    }
    digits_from(v, start, max)
}

/// Parses a `u64` from the text.
pub fn parse_u64_text(v: &Vec<char>) -> (r: Option<u64>)
    ensures
        r == u64_of(v@),
{
    unsigned_capped(v, u64::MAX)
}

/// Parses a `u32` from the text.
pub fn parse_u32_text(v: &Vec<char>) -> (r: Option<u32>)
    ensures
        r == u32_of(v@),
{
    match unsigned_capped(v, 0xffff_ffff) {
        Some(x) => Some(x as u32),
        None => None,
    }
}

/// Parses an `i64` from the text.
pub fn parse_i64_text(v: &Vec<char>) -> (r: Option<i64>)
    ensures
        r == i64_of(v@),
{
    if v.len() > 0 && v[0] == '-' {
        proof {
            assert(v@.subrange(1, v@.len() as int) =~= v@.drop_first());
        }
        match digits_from(v, 1, 0x8000_0000_0000_0000) {
            Some(m) => {
                if m == 0x8000_0000_0000_0000 {
                    Some(i64::MIN)
                } else {
                    Some(-(m as i64))
                }
            }
            None => None,
        }
    } else {
        match unsigned_capped(v, 0x7fff_ffff_ffff_ffff) {
            Some(x) => Some(x as i64),
            None => None,
        }
    }
}


proof fn lemma_digit_char(d: nat)
    requires
        d < 10,
    ensures
        is_digit(digit_char(d)),
        digit_value(digit_char(d)) == d,
        !is_space(digit_char(d)),
        digit_char(d) != '+',
        digit_char(d) != '-',
{
}

/// The decimal digits of a number read back as that number.
pub proof fn lemma_digits_round_trip(n: nat)
    ensures
        digits(n).len() > 0,
        all_digits(digits(n)),
        digits_value(digits(n)) == n,
        !is_space(digits(n)[0]),
        !is_space(digits(n).last()),
        digits(n)[0] != '+',
        digits(n)[0] != '-',
    decreases n,
{
    if n < 10 {
        lemma_digit_char(n);
        assert(digits(n).drop_last() =~= Seq::<char>::empty());
        assert(digits_value(Seq::<char>::empty()) == 0);
    } else {
        lemma_digits_round_trip(n / 10);
        lemma_digit_char(n % 10);
        let s = digits(n);
        let p = digits(n / 10);
        assert(s.drop_last() =~= p);
        assert(s.last() == digit_char(n % 10));
        assert(digits_value(s) == digits_value(p) * 10 + digit_value(digit_char(n % 10)));
        assert(s[0] == p[0]);
        assert forall|i: int| 0 <= i < s.len() implies is_digit(#[trigger] s[i]) by {
            if i < p.len() {
                assert(s[i] == p[i]);
            }
        }
    }
}

/// A text with no white space at either end trims to itself.
pub proof fn lemma_trim_solid(s: Seq<char>)
    requires
        s.len() > 0,
        !is_space(s[0]),
        !is_space(s.last()),
    ensures
        trim(s) == s,
{
}

/// The decimal text of a number reads back as that number.
pub proof fn law_decimal_round_trip(v: int)
    ensures
        trim(dec(v)) == dec(v),
        signed_of(dec(v)) == Some(v),
        v >= 0 ==> unsigned_of(dec(v)) == Some(v as nat),
        0 <= v <= u64::MAX ==> u64_of(dec(v)) == Some(v as u64),
        0 <= v <= u32::MAX ==> u32_of(dec(v)) == Some(v as u32),
        i64::MIN <= v <= i64::MAX ==> i64_of(dec(v)) == Some(v as i64),
{
    if v >= 0 {
        lemma_digits_round_trip(v as nat);
        lemma_trim_solid(dec(v));
    } else {
        lemma_digits_round_trip((-v) as nat);
        let d = digits((-v) as nat);
        let s = dec(v);
        assert(s == seq!['-'] + d);
        assert(s[0] == '-');
        assert(s.last() == d.last());
        assert(s.drop_first() =~= d);
        lemma_trim_solid(s);
    }
}

} // verus!
