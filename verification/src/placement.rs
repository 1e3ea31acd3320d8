//! Where the settings window opens: a saved "x y" line, centred defaults,
//! and the clamp that keeps a strip of the window on screen.
use vstd::prelude::*;
use crate::numtext::{is_space, is_space_exec, signed_of};
use crate::text::{chars_of, dec, push_char, push_dec};
use vstd::string::StrSliceExecFns;

verus! {

pub const SETTINGS_WIDTH: i32 = 820;
pub const SETTINGS_HEIGHT: i32 = 640;

#[derive(Debug, Clone, Copy, PartialEq, Eq, Structural)]
pub struct Placement {
    pub x: i32,
    pub y: i32,
}

/// The white-space separated words of a text.
pub open spec fn words(s: Seq<char>) -> Seq<Seq<char>>
    decreases s.len(),
{
    if s.len() == 0 {
        Seq::empty()
    } else {
        let w = words(s.drop_last());
        let c = s.last();
        if is_space(c) {
            w
        } else if s.len() >= 2 && !is_space(s[s.len() - 2]) {
            w.update(w.len() - 1, w.last().push(c))
        } else {
            w.push(seq![c])
        }
    }
}

/// The `i32` a word holds, as `str::parse` reads it.
pub open spec fn i32_of(s: Seq<char>) -> Option<i32> {
    match signed_of(s) {
        Some(v) => if i32::MIN <= v <= i32::MAX { Some(v as i32) } else { None },
        None => None,
    }
}

/// A saved placement: exactly two words, each an `i32`.
pub open spec fn placement_of(text: Seq<char>) -> Option<Placement> {
    let w = words(text);
    if w.len() == 2 {
        match (i32_of(w[0]), i32_of(w[1])) {
            (Some(x), Some(y)) => Some(Placement { x, y }),
            _ => None,
        }
    } else {
        None
    }
}

proof fn lemma_words_len(s: Seq<char>)
    ensures
        s.len() > 0 && !is_space(s.last()) ==> words(s).len() >= 1,
        forall|i: int| 0 <= i < words(s).len() ==> (#[trigger] words(s)[i]).len() >= 1,
    decreases s.len(),
{
    if s.len() > 0 {
        lemma_words_len(s.drop_last());
        let w = words(s.drop_last());
        if s.len() >= 2 && !is_space(s[s.len() - 2]) {
            assert(s.drop_last().last() == s[s.len() - 2]);
        }
    }
}

pub open spec fn words_view(v: Seq<Vec<char>>) -> Seq<Seq<char>> {
    v.map_values(|w: Vec<char>| w@)
}

pub(crate) fn words_exec(v: &Vec<char>) -> (ws: Vec<Vec<char>>)
    ensures
        words_view(ws@) == words(v@),
{
    let mut ws: Vec<Vec<char>> = Vec::new();
    let mut i: usize = 0;
    proof {
        assert(v@.take(0) =~= Seq::<char>::empty());
        assert(words_view(ws@) =~= Seq::<Seq<char>>::empty());
    }
    while i < v.len()
        invariant
            i <= v@.len(),
            words_view(ws@) == words(v@.take(i as int)),
        decreases v@.len() - i,
    {
        let c = v[i];
        let ghost before = ws@;
        let ghost pre = v@.take(i as int);
        proof {
            assert(v@.take(i + 1).drop_last() =~= pre);
            assert(v@.take(i + 1).last() == c);
            lemma_words_len(pre);
        }
        if is_space_exec(c) {
        } else if i >= 1 && !is_space_exec(v[i - 1]) {
            proof {
                assert(v@.take(i + 1)[i - 1] == v@[i - 1]);
                assert(pre.last() == v@[i - 1]);
            }
            let mut last = ws.pop().unwrap();
            last.push(c);
            ws.push(last);
            proof {
                assert(words_view(ws@) =~= words_view(before).update(before.len() - 1, words_view(before).last().push(c)));
            }
        } else {
            let mut w: Vec<char> = Vec::new();
            w.push(c);
            ws.push(w);
            proof {
                if i >= 1 {
                    assert(v@.take(i + 1)[i - 1] == v@[i - 1]);
                }
                assert(w@ =~= seq![c]);
                assert(words_view(ws@) =~= words_view(before).push(seq![c]));
            }
        }
        i = i + 1;
    }
    proof {
        assert(v@.take(v@.len() as int) =~= v@);
    }
    ws
}

fn i32_exec(w: &Vec<char>) -> (r: Option<i32>)
    ensures
        r == i32_of(w@),
{
    match crate::numtext::parse_i64_text(w) {
        Some(v) => {
            if v >= -2147483648 && v <= 2147483647 {
                Some(v as i32)
            } else {
                None
            }
        }
        None => None,
    }
}

/// Parses one "x y" line; anything else means no saved placement.
pub fn parse_placement(text: &str) -> (p: Option<Placement>)
    ensures
        p == placement_of(text@),
{
    let ws = words_exec(&chars_of(text));
    if ws.len() != 2 {
        return None;
    }
    proof {
        assert(words_view(ws@)[0] == ws@[0]@);
        assert(words_view(ws@)[1] == ws@[1]@);
    }
    match (i32_exec(&ws[0]), i32_exec(&ws[1])) {
        (Some(x), Some(y)) => Some(Placement { x, y }),
        _ => None,
    }
}

/// The saved line for a placement.
pub fn render_placement(p: Placement) -> (s: String)
    ensures
        s@ == dec(p.x as int) + seq![' '] + dec(p.y as int) + seq!['\n'],
{
    let mut s = String::new();
    push_dec(&mut s, p.x as i128);
    push_char(&mut s, ' ');
    push_dec(&mut s, p.y as i128);
    push_char(&mut s, '\n');
    proof {
        assert(s@ =~= dec(p.x as int) + seq![' '] + dec(p.y as int) + seq!['\n']);
    }
    s
}

pub open spec fn max_i(a: int, b: int) -> int {
    if a > b { a } else { b }
}

pub open spec fn clamp_i(v: int, lo: int, hi: int) -> int {
    if v < lo { lo } else if v > hi { hi } else { v }
}

/// The window centred on the screen, or at the top-left corner when the
/// screen is smaller than the window.
pub fn default_placement(screen_w: i32, screen_h: i32) -> (p: Placement)
    ensures
        p.x == max_i(screen_w - SETTINGS_WIDTH, 0) / 2,
        p.y == max_i(screen_h - SETTINGS_HEIGHT, 0) / 2,
{
    let dx: i64 = screen_w as i64 - SETTINGS_WIDTH as i64;
    let dy: i64 = screen_h as i64 - SETTINGS_HEIGHT as i64;
    let x: i64 = if dx > 0 { dx / 2 } else { 0 };
    let y: i64 = if dy > 0 { dy / 2 } else { 0 };
    Placement { x: x as i32, y: y as i32 }
}

/// Keeps a 100 pixel strip of the window on the primary screen.
pub fn clamp_placement(p: Placement, screen_w: i32, screen_h: i32) -> (q: Placement)
    requires
        screen_w >= i32::MIN + 100,
        screen_h >= i32::MIN + 100,
    ensures
        q.x == clamp_i(p.x as int, 100 - SETTINGS_WIDTH, max_i(screen_w - 100, 100 - SETTINGS_WIDTH)),
        q.y == clamp_i(p.y as int, 0, max_i(screen_h - 100, 0)),
{
    let lo_x: i32 = 100 - SETTINGS_WIDTH;
    let hi_x: i32 = if screen_w - 100 > lo_x { screen_w - 100 } else { lo_x };
    let hi_y: i32 = if screen_h - 100 > 0 { screen_h - 100 } else { 0 };
    let x = if p.x < lo_x { lo_x } else if p.x > hi_x { hi_x } else { p.x };
    let y = if p.y < 0 { 0 } else if p.y > hi_y { hi_y } else { p.y };
    Placement { x, y }
}


/// No white space anywhere in the text.
pub open spec fn solid(t: Seq<char>) -> bool {
    forall|i: int| 0 <= i < t.len() ==> !is_space(#[trigger] t[i])
}

/// A solid word after text that ends in white space (or after nothing) adds
/// one word.
proof fn lemma_words_word(s: Seq<char>, t: Seq<char>)
    requires
        s.len() == 0 || is_space(s.last()),
        t.len() > 0,
        solid(t),
    ensures
        words(s + t) == words(s).push(t),
    decreases t.len(),
{
    let st = s + t;
    assert(st.drop_last() =~= s + t.drop_last());
    assert(st.last() == t.last());
    if t.len() == 1 {
        assert(t.drop_last() =~= Seq::<char>::empty());
        assert(s + t.drop_last() =~= s);
        if st.len() >= 2 {
            assert(st[st.len() - 2] == s.last());
        }
        assert(t =~= seq![t.last()]);
    } else {
        lemma_words_word(s, t.drop_last());
        assert(st[st.len() - 2] == t[t.len() - 2]);
        assert(t.drop_last().push(t.last()) =~= t);
        assert(words(s).push(t.drop_last()).update(words(s).len() as int, t.drop_last().push(t.last()))
            =~= words(s).push(t));
    }
}

proof fn lemma_words_space(s: Seq<char>, c: char)
    requires
        is_space(c),
    ensures
        words(s.push(c)) == words(s),
{
    assert(s.push(c).drop_last() =~= s);
}

proof fn lemma_i32_round_trip(v: i32)
    ensures
        i32_of(dec(v as int)) == Some(v),
        dec(v as int).len() > 0,
        solid(dec(v as int)),
{
    crate::numtext::law_decimal_round_trip(v as int);
    let d = dec(v as int);
    if v >= 0 {
        crate::numtext::lemma_digits_round_trip(v as nat);
        assert forall|i: int| 0 <= i < d.len() implies !is_space(#[trigger] d[i]) by {
            assert(crate::numtext::is_digit(d[i]));
        }
    } else {
        crate::numtext::lemma_digits_round_trip((-v) as nat);
        let g = crate::text::digits((-v) as nat);
        assert(d == seq!['-'] + g);
        assert forall|i: int| 0 <= i < d.len() implies !is_space(#[trigger] d[i]) by {
            if i > 0 {
                assert(d[i] == g[i - 1]);
                assert(crate::numtext::is_digit(g[i - 1]));
            }
        }
    }
}

/// A rendered placement parses back as that placement.
pub proof fn law_placement_round_trip(p: Placement)
    ensures
        placement_of(dec(p.x as int) + seq![' '] + dec(p.y as int) + seq!['\n']) == Some(p),
{
    lemma_i32_round_trip(p.x);
    lemma_i32_round_trip(p.y);
    let a = dec(p.x as int);
    let b = dec(p.y as int);
    let e = Seq::<char>::empty();
    lemma_words_word(e, a);
    assert(e + a =~= a);
    lemma_words_space(a, ' ');
    let a1 = a + seq![' '];
    assert(a.push(' ') =~= a1);
    lemma_words_word(a1, b);
    lemma_words_space(a1 + b, '\n');
    let whole = a + seq![' '] + b + seq!['\n'];
    assert((a1 + b).push('\n') =~= whole);
    assert(words(whole) =~= seq![a, b]);
}

} // verus!
