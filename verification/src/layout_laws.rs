//! Properties of laying text out in a bitmap font: how justifying shares
//! out the spare room, and how the gap between lines acts in wrapping.
use vstd::prelude::*;
use crate::maps::{has_key, insert_entry, keys_unique, lemma_insert_entry, lookup};

verus! {

// ---------------------------------------------------------------- justifying

/// A character repeated `n` times is `n` long.
proof fn lemma_repeat_one_len(c: char, n: nat)
    ensures
        crate::text::repeat(seq![c], n).len() == n,
    decreases n,
{
    if n > 0 {
        lemma_repeat_one_len(c, (n - 1) as nat);
    }
}

/// With spaces and tatweels one unit wide, justifying the first `i`
/// characters writes each stretchable one `n + 1` times, and the last
/// stretchable one `left` times more.
proof fn lemma_stretched_len(t: Seq<char>, i: int, n: nat, left: nat, fm: Seq<(char, Seq<isize>)>)
    requires
        0 <= i <= t.len(),
        crate::layout::room_of(fm, ' ') == 1,
        crate::layout::room_of(fm, '\u{0640}') == 1,
    ensures
        crate::layout::stretched(t, i, n, left, fm).len() == i + n * crate::layout::stretch_count(t.take(i))
            + if crate::layout::stretch_count(t.take(i)) > 0 {
            left as int
        } else {
            0int
        },
    decreases i,
{
    if i > 0 {
        let c = t[i - 1];
        assert(t.take(i).drop_last() =~= t.take(i - 1));
        assert(t.take(i).last() == c);
        let k0 = crate::layout::stretch_count(t.take(i - 1));
        let k = crate::layout::stretch_count(t.take(i));
        if crate::layout::stretchable(c) {
            assert(k == k0 + 1);
            let r = crate::layout::room_of(fm, c) as nat;
            assert(r == 1);
            assert(n % r == 0 && n / r == n) by (nonlinear_arith)
                requires
                    r == 1,
            ;
            lemma_stretched_len(t, i - 1, n, 0, fm);
            let before = crate::layout::stretched(t, i - 1, n, 0, fm);
            assert(before.len() == (i - 1) + n * k0);
            lemma_repeat_one_len(c, n + left + 1);
            let rep = crate::text::repeat(seq![c], n + left + 1);
            assert(crate::layout::stretched(t, i, n, left, fm) == before + rep);
            assert(n * (k0 + 1) == n * k0 + n) by (nonlinear_arith);
            assert((before + rep).len() == i + n * k + left);
            assert(k > 0);
        } else {
            assert(k == k0);
            lemma_stretched_len(t, i - 1, n, left, fm);
            let before = crate::layout::stretched(t, i - 1, n, left, fm);
            assert(crate::layout::stretched(t, i, n, left, fm) == before + seq![c]);
            assert((before + seq![c]).len() == before.len() + 1);
        }
    } else {
        assert(t.take(0) =~= Seq::<char>::empty());
        assert(crate::layout::stretch_count(t.take(0)) == 0);
        assert(n * 0 == 0) by (nonlinear_arith);
    }
}

/// With spaces and tatweels one unit wide, justifying a line that has a
/// stretchable character adds exactly the spare spaces: `s` spare spaces
/// make the line `s` characters longer, shared out among the stretchable
/// characters, never more.
pub proof fn lemma_justify_adds_spare(t: Seq<char>, s: int, fm: Seq<(char, Seq<isize>)>)
    requires
        s >= 0,
        crate::layout::stretch_count(t) > 0,
        crate::layout::room_of(fm, ' ') == 1,
        crate::layout::room_of(fm, '\u{0640}') == 1,
    ensures
        crate::layout::aligned(t, s, 5, fm).len() == t.len() + s,
{
    let k = crate::layout::stretch_count(t) as int;
    assert(t.take(t.len() as int) =~= t);
    lemma_stretched_len(t, t.len() as int, (s / k) as nat, (s % k) as nat, fm);
    assert((s / k) * k + s % k == s) by (nonlinear_arith)
        requires
            k > 0,
            s >= 0,
    ;
    assert(0 <= s / k) by (nonlinear_arith)
        requires
            k > 0,
            s >= 0,
    ;
    assert(0 <= s % k);
    assert(((s / k) as nat) * k == (s / k) * k);
}

/// The first `i` characters, the one at `j` written `f(j)` times.
pub open spec fn expanded(t: Seq<char>, i: int, f: spec_fn(int) -> nat) -> Seq<char>
    decreases i,
{
    if i <= 0 {
        Seq::empty()
    } else {
        expanded(t, i - 1, f) + crate::text::repeat(seq![t[i - 1]], f(i - 1))
    }
}

/// The position of the last stretchable character before `i`, or -1.
pub open spec fn last_stretchable(t: Seq<char>, i: int) -> int
    decreases i,
{
    if i <= 0 {
        -1
    } else if crate::layout::stretchable(t[i - 1]) {
        i - 1
    } else {
        last_stretchable(t, i - 1)
    }
}

/// Writing counts that agree on the first `i` characters writes the same.
proof fn lemma_expanded_agree(t: Seq<char>, i: int, f: spec_fn(int) -> nat, g: spec_fn(int) -> nat)
    requires
        forall|j: int| 0 <= j < i ==> #[trigger] f(j) == g(j),
    ensures
        expanded(t, i, f) == expanded(t, i, g),
    decreases i,
{
    if i > 0 {
        lemma_expanded_agree(t, i - 1, f, g);
    }
}

/// The last stretchable character before `i` lies before `i`.
proof fn lemma_last_stretchable(t: Seq<char>, i: int)
    requires
        0 <= i,
    ensures
        last_stretchable(t, i) < i,
        i > 0 && !crate::layout::stretchable(t[i - 1]) ==> last_stretchable(t, i) == last_stretchable(t, i - 1),
    decreases i,
{
    if i > 0 {
        lemma_last_stretchable(t, i - 1);
    }
}

/// How often justifying writes the character at `j`, with spaces and
/// tatweels one unit wide: a stretchable one `n + 1` times, the last
/// stretchable one before `i` `left` times more, any other once.
pub open spec fn stretch_times(t: Seq<char>, i: int, n: nat, left: nat) -> spec_fn(int) -> nat {
    |j: int|
        if crate::layout::stretchable(t[j]) {
            n + 1 + if j == last_stretchable(t, i) {
                left
            } else {
                0nat
            }
        } else {
            1nat
        }
}

/// With spaces and tatweels one unit wide, justifying the first `i`
/// characters writes each as `stretch_times` says.
proof fn lemma_stretched_expanded(t: Seq<char>, i: int, n: nat, left: nat, fm: Seq<(char, Seq<isize>)>)
    requires
        0 <= i <= t.len(),
        crate::layout::room_of(fm, ' ') == 1,
        crate::layout::room_of(fm, '\u{0640}') == 1,
    ensures
        crate::layout::stretched(t, i, n, left, fm) == expanded(t, i, stretch_times(t, i, n, left)),
    decreases i,
{
    if i > 0 {
        let c = t[i - 1];
        lemma_last_stretchable(t, i - 1);
        if crate::layout::stretchable(c) {
            let r = crate::layout::room_of(fm, c) as nat;
            assert(r == 1);
            assert(n % r == 0 && n / r == n) by (nonlinear_arith)
                requires
                    r == 1,
            ;
            lemma_stretched_expanded(t, i - 1, n, 0, fm);
            assert(last_stretchable(t, i) == i - 1);
            lemma_expanded_agree(t, i - 1, stretch_times(t, i - 1, n, 0), stretch_times(t, i, n, left));
            assert(stretch_times(t, i, n, left)(i - 1) == n + left + 1);
        } else {
            lemma_stretched_expanded(t, i - 1, n, left, fm);
            lemma_last_stretchable(t, i);
            lemma_expanded_agree(t, i - 1, stretch_times(t, i - 1, n, left), stretch_times(t, i, n, left));
            assert(stretch_times(t, i, n, left)(i - 1) == 1);
            lemma_repeat_one_len(c, 1);
            assert(crate::text::repeat(seq![c], 1) =~= seq![c]) by {
                assert(crate::text::repeat(seq![c], 0) =~= Seq::<char>::empty());
            }
        }
    }
}

/// With spaces and tatweels one unit wide, justifying a line with `s`
/// spare spaces and `k` stretchable characters writes each stretchable
/// character `s / k + 1` times and the last one `s % k` times more, and
/// every other character once.
pub proof fn lemma_justify_shares(t: Seq<char>, s: int, fm: Seq<(char, Seq<isize>)>)
    requires
        s >= 0,
        crate::layout::stretch_count(t) > 0,
        crate::layout::room_of(fm, ' ') == 1,
        crate::layout::room_of(fm, '\u{0640}') == 1,
    ensures
        crate::layout::aligned(t, s, 5, fm) == expanded(
            t,
            t.len() as int,
            stretch_times(
                t,
                t.len() as int,
                (s / crate::layout::stretch_count(t) as int) as nat,
                (s % crate::layout::stretch_count(t) as int) as nat,
            ),
        ),
{
    let k = crate::layout::stretch_count(t) as int;
    lemma_stretched_expanded(t, t.len() as int, (s / k) as nat, (s % k) as nat, fm);
}

// ---------------------------------------------------------------- wrapping

/// The font with its line height raised by `d`.
pub open spec fn taller(fm: Seq<(char, Seq<isize>)>, d: int) -> Seq<(char, Seq<isize>)> {
    let m = lookup(fm, '\0').unwrap();
    insert_entry(fm, '\0', m.update(0, (m[0] + d) as isize))
}

/// Two fonts give every text the same width.
pub open spec fn same_widths(
    fm: Seq<(char, Seq<isize>)>,
    fm2: Seq<(char, Seq<isize>)>,
    coms: Seq<char>,
    oc: Seq<char>,
) -> bool {
    forall|w: Seq<char>| #[trigger] crate::layout::line_width(w, fm, coms, oc) == crate::layout::line_width(w, fm2, coms, oc)
}

/// Fonts whose characters take the same room sum the same rooms.
proof fn lemma_rooms_same(t: Seq<char>, fm: Seq<(char, Seq<isize>)>, fm2: Seq<(char, Seq<isize>)>, n: int)
    requires
        forall|c: char| crate::layout::room_of(fm, c) == crate::layout::room_of(fm2, c),
    ensures
        crate::layout::rooms_sum(t, fm, n) == crate::layout::rooms_sum(t, fm2, n),
    decreases n,
{
    if n > 0 {
        lemma_rooms_same(t, fm, fm2, n - 1);
        assert(crate::layout::room_of(fm, t[n - 1]) == crate::layout::room_of(fm2, t[n - 1]));
    }
}

/// Raising the line height changes no character's room, so no width.
proof fn lemma_taller_widths(fm: Seq<(char, Seq<isize>)>, d: int, coms: Seq<char>, oc: Seq<char>)
    requires
        keys_unique(fm),
        has_key(fm, '\0'),
        lookup(fm, '\0').unwrap().len() == 8,
    ensures
        same_widths(fm, taller(fm, d), coms, oc),
        has_key(taller(fm, d), '\0'),
        lookup(taller(fm, d), '\0').unwrap()[0] == (lookup(fm, '\0').unwrap()[0] + d) as isize,
        taller(fm, d).len() == fm.len(),
{
    let m = lookup(fm, '\0').unwrap();
    let m2 = m.update(0, (m[0] + d) as isize);
    lemma_insert_entry(fm, '\0', m2);
    let f2 = taller(fm, d);
    assert forall|c: char| crate::layout::room_of(fm, c) == crate::layout::room_of(f2, c) by {
        if c == '\0' {
            assert(m2[2] == m[2] && m2[6] == m[6]);
        }
    }
    assert forall|w: Seq<char>| #[trigger] crate::layout::line_width(w, fm, coms, oc) == crate::layout::line_width(w, f2, coms, oc) by {
        let (a, t1) = match crate::outside::regex_search(crate::layout::offset_pattern(oc), w) {
            Some(ms) => (crate::layout::offsets_sum(w, ms, ms.len() as int), crate::layout::matches_removed(w, ms)),
            None => (Some(0), w),
        };
        let t2 = match crate::outside::regex_search(coms, t1) {
            Some(ms) => crate::layout::matches_removed(t1, ms),
            None => t1,
        };
        lemma_rooms_same(t2, fm, f2, t2.len() as int);
    }
    let i = crate::maps::key_index(fm, '\0');
    assert(f2 == fm.update(i, ('\0', m2)));
}

/// Depths a page can be at: from one line height down to the box height
/// plus one line height.
pub open spec fn depth_ok(g: (int, int, int, int), y: int) -> bool {
    g.0 <= y <= g.0 + g.3
}

/// Bounds under which no depth leaves the `isize` range.
pub open spec fn gap_bounds(g: (int, int, int, int)) -> bool {
    &&& 0 <= g.0
    &&& 0 <= g.1
    &&& 0 <= g.3
    &&& 2 * g.0 + 2 * g.1 + g.3 <= isize::MAX
}

/// The layout with the gap folded into the line height and the box.
pub open spec fn folded(g: (int, int, int, int)) -> (int, int, int, int) {
    (g.0 + g.1, 0, g.2, g.3 + g.1)
}

/// One word laid out with the gap folded in goes the same way, `gap`
/// further down.
proof fn lemma_word_folded(
    fm: Seq<(char, Seq<isize>)>,
    fm2: Seq<(char, Seq<isize>)>,
    coms: Seq<char>,
    oc: Seq<char>,
    cm: (Seq<char>, Seq<char>),
    g: (int, int, int, int),
    word: Seq<char>,
    x: int,
    y: int,
)
    requires
        same_widths(fm, fm2, coms, oc),
        gap_bounds(g),
        depth_ok(g, y),
    ensures
        match crate::layout::word_step(fm, coms, oc, cm, g, word, x, y) {
            Some((x2, y2, out)) => depth_ok(g, y2) && crate::layout::word_step(fm2, coms, oc, cm, folded(g), word, x, y + g.1)
                == Some((x2, y2 + g.1, out)),
            None => crate::layout::word_step(fm2, coms, oc, cm, folded(g), word, x, y + g.1) is None,
        },
{
    let ws = word + seq![' '];
    assert(crate::layout::line_width(word, fm, coms, oc) == crate::layout::line_width(word, fm2, coms, oc));
    assert(crate::layout::line_width(ws, fm, coms, oc) == crate::layout::line_width(ws, fm2, coms, oc));
}

/// The first `n` words of a line laid out with the gap folded in go the
/// same way, `gap` further down.
proof fn lemma_words_folded(
    fm: Seq<(char, Seq<isize>)>,
    fm2: Seq<(char, Seq<isize>)>,
    coms: Seq<char>,
    oc: Seq<char>,
    cm: (Seq<char>, Seq<char>),
    g: (int, int, int, int),
    ws: Seq<Seq<char>>,
    n: int,
    y: int,
)
    requires
        same_widths(fm, fm2, coms, oc),
        gap_bounds(g),
        depth_ok(g, y),
    ensures
        match crate::layout::words_upto(fm, coms, oc, cm, g, ws, n, y) {
            Some((x2, y2, out)) => depth_ok(g, y2) && crate::layout::words_upto(fm2, coms, oc, cm, folded(g), ws, n, y + g.1)
                == Some((x2, y2 + g.1, out)),
            None => crate::layout::words_upto(fm2, coms, oc, cm, folded(g), ws, n, y + g.1) is None,
        },
    decreases n,
{
    if n > 0 {
        lemma_words_folded(fm, fm2, coms, oc, cm, g, ws, n - 1, y);
        match crate::layout::words_upto(fm, coms, oc, cm, g, ws, n - 1, y) {
            Some((x1, y1, out1)) => {
                lemma_word_folded(fm, fm2, coms, oc, cm, g, ws[n - 1], x1, y1);
            },
            None => {},
        }
    }
}

/// One line laid out with the gap folded in goes the same way, `gap`
/// further down.
proof fn lemma_line_folded(
    fm: Seq<(char, Seq<isize>)>,
    fm2: Seq<(char, Seq<isize>)>,
    coms: Seq<char>,
    oc: Seq<char>,
    cm: (Seq<char>, Seq<char>),
    g: (int, int, int, int),
    l: Seq<char>,
    y: int,
    last: bool,
)
    requires
        same_widths(fm, fm2, coms, oc),
        gap_bounds(g),
        depth_ok(g, y),
    ensures
        match crate::layout::line_step(fm, coms, oc, cm, g, l, y, last) {
            Some((y2, out)) => depth_ok(g, y2) && crate::layout::line_step(fm2, coms, oc, cm, folded(g), l, y + g.1, last)
                == Some((y2 + g.1, out)),
            None => crate::layout::line_step(fm2, coms, oc, cm, folded(g), l, y + g.1, last) is None,
        },
{
    let ws = crate::layout::split_words(l);
    lemma_words_folded(fm, fm2, coms, oc, cm, g, ws, ws.len() as int, y);
}

/// The first `n` lines of a page laid out with the gap folded in go the
/// same way, `gap` further down.
proof fn lemma_lines_folded(
    fm: Seq<(char, Seq<isize>)>,
    fm2: Seq<(char, Seq<isize>)>,
    coms: Seq<char>,
    oc: Seq<char>,
    cm: (Seq<char>, Seq<char>),
    g: (int, int, int, int),
    ls: Seq<Seq<char>>,
    n: int,
)
    requires
        same_widths(fm, fm2, coms, oc),
        gap_bounds(g),
    ensures
        match crate::layout::lines_upto(fm, coms, oc, cm, g, ls, n) {
            Some((y2, out)) => depth_ok(g, y2) && crate::layout::lines_upto(fm2, coms, oc, cm, folded(g), ls, n)
                == Some((y2 + g.1, out)),
            None => crate::layout::lines_upto(fm2, coms, oc, cm, folded(g), ls, n) is None,
        },
    decreases n,
{
    if n > 0 {
        lemma_lines_folded(fm, fm2, coms, oc, cm, g, ls, n - 1);
        match crate::layout::lines_upto(fm, coms, oc, cm, g, ls, n - 1) {
            Some((y1, out1)) => {
                lemma_line_folded(fm, fm2, coms, oc, cm, g, ls[n - 1], y1, n == ls.len());
            },
            None => {},
        }
    }
}

/// The first `n` pages laid out with the gap folded in come out the same.
proof fn lemma_pages_folded(
    fm: Seq<(char, Seq<isize>)>,
    fm2: Seq<(char, Seq<isize>)>,
    coms: Seq<char>,
    oc: Seq<char>,
    cm: (Seq<char>, Seq<char>),
    g: (int, int, int, int),
    ps: Seq<Seq<char>>,
    n: int,
)
    requires
        same_widths(fm, fm2, coms, oc),
        gap_bounds(g),
    ensures
        crate::layout::pages_upto(fm, coms, oc, cm, g, ps, n) == crate::layout::pages_upto(
            fm2,
            coms,
            oc,
            cm,
            folded(g),
            ps,
            n,
        ),
    decreases n,
{
    if n > 0 {
        lemma_pages_folded(fm, fm2, coms, oc, cm, g, ps, n - 1);
        let ls = crate::text::split(ps[n - 1], cm.1);
        lemma_lines_folded(fm, fm2, coms, oc, cm, g, ls, ls.len() as int);
    }
}

/// The gap between lines counts as line height: wrapping with a gap of
/// `p` below each line gives what wrapping with no gap gives in a font
/// whose lines are `p` taller, in a box `p` taller (the first line of a
/// page then sits `p` lower, and so does each line after it). So each new
/// line moves down by the line height plus the gap, and a page break comes
/// exactly where that passes the box.
pub proof fn lemma_gap_is_line_height(
    t: Seq<char>,
    fm: Seq<(char, Seq<isize>)>,
    box_w: int,
    box_h: int,
    p: int,
    page_com: Seq<char>,
    line_com: Seq<char>,
    coms: Seq<char>,
    oc: Seq<char>,
)
    requires
        keys_unique(fm),
        has_key(fm, '\0'),
        lookup(fm, '\0').unwrap().len() == 8,
        gap_bounds((lookup(fm, '\0').unwrap()[0] as int, p, box_w, box_h)),
    ensures
        crate::layout::warped(t, fm, box_w, box_h, p, page_com, line_com, coms, oc) == crate::layout::warped(
            t,
            taller(fm, p),
            box_w,
            box_h + p,
            0,
            page_com,
            line_com,
            coms,
            oc,
        ),
{
    let h0 = lookup(fm, '\0').unwrap()[0] as int;
    lemma_taller_widths(fm, p, coms, oc);
    let f2 = taller(fm, p);
    let g = (h0, p, box_w, box_h);
    assert(lookup(f2, '\0').unwrap()[0] as int == h0 + p);
    assert(folded(g) == (lookup(f2, '\0').unwrap()[0] as int, 0int, box_w, box_h + p));
    let ps = crate::text::split(t, page_com);
    lemma_pages_folded(fm, f2, coms, oc, (page_com, line_com), g, ps, ps.len() as int);
    assert(fm.len() > 0);
}

} // verus!
