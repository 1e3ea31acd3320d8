//! The bounded texts of the GUI error surface: the rotating log's kept tail
//! and the copyable diagnostics.
use vstd::prelude::*;
use crate::text::{chars_of, push_char, push_str, string_of};
use vstd::string::StrSliceExecFns;
use vstd::string::StringExecFns;

verus! {

/// Hard cap for the local log file, in bytes.
pub const MAX_LOG_BYTES: usize = 65536;
/// Newest log bytes carried inside copied diagnostics.
pub const MAX_DIAG_TAIL: usize = 4096;

/// Bytes a character takes in UTF-8.
pub open spec fn utf8_len(c: char) -> nat {
    if (c as u32) < 0x80 {
        1
    } else if (c as u32) < 0x800 {
        2
    } else if (c as u32) < 0x10000 {
        3
    } else {
        4
    }
}

/// Bytes a text takes in UTF-8.
pub open spec fn byte_len(s: Seq<char>) -> nat
    decreases s.len(),
{
    if s.len() == 0 {
        0
    } else {
        byte_len(s.drop_last()) + utf8_len(s.last())
    }
}

/// The bytes still to drop after dropping a character of `used` bytes.
pub open spec fn left_to_drop(budget: nat, used: nat) -> nat {
    if used >= budget { 0 } else { (budget - used) as nat }
}

/// How many leading characters to drop so that at least `budget` bytes go:
/// the first character boundary at or after byte `budget`.
pub open spec fn boundary(s: Seq<char>, budget: nat) -> nat
    decreases s.len(),
{
    if s.len() == 0 || budget == 0 {
        0
    } else {
        1 + boundary(s.drop_first(), left_to_drop(budget, utf8_len(s[0])))
    }
}

/// The newest part of a text that holds at most `cap` bytes, starting at a
/// character boundary: the longest such end of the text.
pub open spec fn tail_of(s: Seq<char>, cap: nat) -> Seq<char> {
    let total = byte_len(s);
    let start: nat = if total > cap { (total - cap) as nat } else { 0 };
    s.skip(boundary(s, start) as int)
}

fn utf8_len_exec(c: char) -> (n: u64)
    ensures
        n == utf8_len(c),
{
    let v = c as u32;
    if v < 0x80 {
        1
    } else if v < 0x800 {
        2
    } else if v < 0x10000 {
        3
    } else {
        4
    }
}

fn byte_len_exec(v: &Vec<char>) -> (n: u64)
    requires
        v@.len() <= 0x1_0000_0000_0000,
    ensures
        n == byte_len(v@),
{
    let mut n: u64 = 0;
    let mut i: usize = 0;
    while i < v.len()
        invariant
            i <= v@.len(),
            v@.len() <= 0x1_0000_0000_0000,
            n == byte_len(v@.take(i as int)),
            n <= 4 * i,
        decreases v@.len() - i,
    {
        proof {
            assert(v@.take(i + 1).drop_last() =~= v@.take(i as int));
        }
        n = n + utf8_len_exec(v[i]);
        i = i + 1;
    }
    proof {
        assert(v@.take(v@.len() as int) =~= v@);
    }
    n
}

proof fn lemma_boundary_step(s: Seq<char>, i: int, budget: nat, used: nat)
    requires
        0 <= i < s.len(),
        used < budget,
        boundary(s, budget) == i + boundary(s.skip(i), (budget - used) as nat),
    ensures
        boundary(s, budget) == i + 1 + boundary(s.skip(i + 1), left_to_drop((budget - used) as nat, utf8_len(s[i]))),
{
    let t = s.skip(i);
    assert(t[0] == s[i]);
    assert(t.drop_first() =~= s.skip(i + 1));
}

/// Index of the first character of the kept tail.
fn boundary_exec(v: &Vec<char>, budget: u64) -> (k: usize)
    ensures
        k == boundary(v@, budget as nat),
        k <= v@.len(),
{
    let mut i: usize = 0;
    let mut used: u64 = 0;
    proof {
        assert(v@.skip(0) =~= v@);
    }
    while i < v.len() && used < budget
        invariant
            i <= v@.len(),
            boundary(v@, budget as nat) == i + boundary(v@.skip(i as int), left_to_drop(budget as nat, used as nat)),
        decreases v@.len() - i,
    {
        let c = utf8_len_exec(v[i]);
        proof {
            lemma_boundary_step(v@, i as int, budget as nat, used as nat);
            assert(left_to_drop((budget - used) as nat, c as nat) == left_to_drop(budget as nat, (used + c) as nat));
        }
        used = if c >= budget - used { budget } else { used + c };
        i = i + 1;
    }
    proof {
        if i < v@.len() {
            assert(left_to_drop(budget as nat, used as nat) == 0);
        } else {
            assert(v@.skip(i as int).len() == 0);
        }
    }
    i
}

fn tail_exec(v: &Vec<char>, cap: u64) -> (t: Vec<char>)
    requires
        v@.len() <= 0x1_0000_0000_0000,
    ensures
        t@ == tail_of(v@, cap as nat),
{
    let total = byte_len_exec(v);
    let start: u64 = if total > cap { total - cap } else { 0 };
    let k = boundary_exec(v, start);
    let mut t: Vec<char> = Vec::new();
    let mut i: usize = k;
    while i < v.len()
        invariant
            k <= i <= v@.len(),
            t@ == v@.subrange(k as int, i as int),
        decreases v@.len() - i,
    {
        t.push(v[i]);
        i = i + 1;
        proof {
            assert(t@ =~= v@.subrange(k as int, i as int));
        }
    }
    proof {
        assert(v@.subrange(k as int, v@.len() as int) =~= v@.skip(k as int));
    }
    t
}

/// The copyable diagnostics: version, platform, the config summary, and the
/// newest tail of the log.
pub open spec fn diagnostics(version: Seq<char>, os: Seq<char>, log_tail: Seq<char>, summary: Seq<char>) -> Seq<char> {
    "Clickless "@ + version + " ("@ + os + ")\nconfig: "@ + summary + "\n--- recent log ---\n"@
        + tail_of(log_tail, MAX_DIAG_TAIL as nat)
}

/// Builds copyable diagnostics from parts. It takes a config summary, never a
/// full config; the log tail keeps its newest bytes under a fixed cap.
pub fn diagnostics_text(version: &str, os: &str, log_tail: &str, config_summary: &str) -> (s: String)
    requires
        log_tail@.len() <= 0x1_0000_0000_0000,
    ensures
        s@ == diagnostics(version@, os@, log_tail@, config_summary@),
{
    let tail = tail_exec(&chars_of(log_tail), MAX_DIAG_TAIL as u64);
    let mut s = String::from_str("Clickless ");
    push_str(&mut s, version);
    push_str(&mut s, " (");
    push_str(&mut s, os);
    push_str(&mut s, ")\nconfig: ");
    push_str(&mut s, config_summary);
    push_str(&mut s, "\n--- recent log ---\n");
    let t = string_of(&tail);
    push_str(&mut s, t.as_str());
    proof {
        assert(s@ =~= diagnostics(version@, os@, log_tail@, config_summary@));
    }
    s
}

/// The log after one more line: the line appended with a newline, then the
/// newest tail kept under the cap.
pub open spec fn appended_log(existing: Seq<char>, line: Seq<char>) -> Seq<char> {
    tail_of(existing + line + seq!['\n'], MAX_LOG_BYTES as nat)
}

/// Appends one log line and keeps the file's text under its byte cap,
/// dropping the oldest text at a character boundary.
pub fn append_bounded(existing: &str, line: &str) -> (s: String)
    requires
        existing@.len() + line@.len() < 0x1_0000_0000_0000,
    ensures
        s@ == appended_log(existing@, line@),
{
    let mut all = String::from_str(existing);
    push_str(&mut all, line);
    push_char(&mut all, '\n');
    proof {
        assert(all@ =~= existing@ + line@ + seq!['\n']);
    }
    let v = chars_of(all.as_str());
    let t = tail_exec(&v, MAX_LOG_BYTES as u64);
    string_of(&t)
}


proof fn lemma_byte_len_split(s: Seq<char>, k: int)
    requires
        0 <= k <= s.len(),
    ensures
        byte_len(s) == byte_len(s.take(k)) + byte_len(s.skip(k)),
    decreases s.len(),
{
    if k == s.len() {
        assert(s.take(k) =~= s);
        assert(s.skip(k) =~= Seq::<char>::empty());
    } else {
        lemma_byte_len_split(s.drop_last(), k);
        assert(s.drop_last().take(k) =~= s.take(k));
        assert(s.skip(k).drop_last() =~= s.drop_last().skip(k));
        assert(s.skip(k).last() == s.last());
    }
}

proof fn lemma_boundary_fits(s: Seq<char>, budget: nat)
    ensures
        boundary(s, budget) <= s.len(),
        boundary(s, budget) < s.len() ==> byte_len(s.take(boundary(s, budget) as int)) >= budget,
        boundary(s, budget) > 0 ==> byte_len(s.take(boundary(s, budget) - 1)) < budget,
    decreases s.len(),
{
    let k = boundary(s, budget);
    assert(byte_len(Seq::<char>::empty()) == 0);
    if s.len() == 0 || budget == 0 {
        assert(s.take(0) =~= Seq::<char>::empty());
    } else {
        let t = s.drop_first();
        let u = utf8_len(s[0]);
        let rest = left_to_drop(budget, u);
        lemma_boundary_fits(t, rest);
        let j = boundary(t, rest);
        assert(k == 1 + j);
        lemma_byte_len_split(s.take(k as int), 1);
        assert(s.take(k as int).take(1) =~= seq![s[0]]);
        assert(s.take(k as int).skip(1) =~= t.take(j as int));
        assert(seq![s[0]].drop_last() =~= Seq::<char>::empty());
        assert(seq![s[0]].last() == s[0]);
        assert(byte_len(seq![s[0]]) == u);
        if j > 0 {
            assert(rest > 0);
            lemma_byte_len_split(s.take(j as int), 1);
            assert(s.take(j as int).take(1) =~= seq![s[0]]);
            assert(s.take(j as int).skip(1) =~= t.take(j - 1));
        } else {
            assert(s.take(0) =~= Seq::<char>::empty());
        }
    }
}

/// The kept tail is the end of the text, holds at most `cap` bytes, and is
/// the longest such end that starts at a character boundary.
pub proof fn law_tail_bounded(s: Seq<char>, cap: nat)
    ensures
        tail_of(s, cap).len() <= s.len(),
        tail_of(s, cap) == s.skip(s.len() - tail_of(s, cap).len()),
        byte_len(tail_of(s, cap)) <= cap,
        tail_of(s, cap).len() < s.len() ==> byte_len(s.skip(s.len() - tail_of(s, cap).len() - 1)) > cap,
        byte_len(s) <= cap ==> tail_of(s, cap) == s,
{
    let total = byte_len(s);
    let start: nat = if total > cap { (total - cap) as nat } else { 0 };
    lemma_boundary_fits(s, start);
    let k = boundary(s, start);
    lemma_byte_len_split(s, k as int);
    if k == s.len() {
        assert(s.take(k as int) =~= s);
        assert(s.skip(k as int) =~= Seq::<char>::empty());
    }
    if k > 0 {
        lemma_byte_len_split(s, k - 1);
    }
    if total <= cap {
        assert(k == 0);
        assert(s.skip(0) =~= s);
    }
}

} // verus!
