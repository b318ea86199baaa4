//! Character-sequence primitives: the models of the standard string
//! operations the library relies on, and verified implementations of them
//! over `Vec<char>`.
use vstd::prelude::*;

verus! {

// ---------------------------------------------------------------- conversions

/// The characters of a string slice, in order.
pub fn str_chars(s: &str) -> (v: Vec<char>)
    ensures
        v@ == s@,
{
    let mut v: Vec<char> = Vec::new();
    for c in it: s.chars()
        invariant
            v@ == it.seq().take(it.index() as int),
    {
        v.push(c);
    }
    v
}

/// Appends all of `src` to `dst`.
pub fn push_all(dst: &mut Vec<char>, src: &Vec<char>)
    ensures
        final(dst)@ == old(dst)@ + src@,
{
    let ghost start = dst@;
    let mut i: usize = 0;
    while i < src.len()
        invariant
            i <= src.len(),
            dst@ == start + src@.take(i as int),
        decreases src.len() - i,
    {
        dst.push(src[i]);
        i += 1;
        assert(src@.take(i as int) == src@.take(i - 1).push(src@[i - 1]));
    }
    assert(src@.take(i as int) == src@);
}

/// A fresh copy of a character vector.
pub fn copy_chars(src: &Vec<char>) -> (r: Vec<char>)
    ensures
        r@ == src@,
{
    let mut r: Vec<char> = Vec::new();
    push_all(&mut r, src);
    r
}

/// The characters `s[from..to]`.
pub fn slice_chars(s: &Vec<char>, from: usize, to: usize) -> (r: Vec<char>)
    requires
        from <= to <= s.len(),
    ensures
        r@ == s@.subrange(from as int, to as int),
{
    let mut r: Vec<char> = Vec::new();
    let mut i: usize = from;
    while i < to
        invariant
            from <= i <= to <= s.len(),
            r@ == s@.subrange(from as int, i as int),
        decreases to - i,
    {
        r.push(s[i]);
        i += 1;
        assert(s@.subrange(from as int, i as int) == s@.subrange(from as int, i - 1).push(
            s@[i - 1],
        ));
    }
    r
}

/// Equality of two character vectors.
pub fn chars_eq(a: &Vec<char>, b: &Vec<char>) -> (r: bool)
    ensures
        r == (a@ == b@),
{
    if a.len() != b.len() {
        return false;
    }
    let mut i: usize = 0;
    while i < a.len()
        invariant
            a.len() == b.len(),
            i <= a.len(),
            forall|j: int| 0 <= j < i ==> a@[j] == b@[j],
        decreases a.len() - i,
    {
        if a[i] != b[i] {
            return false;
        }
        i += 1;
    }
    assert(a@ =~= b@);
    true
}

/// Whether a character vector holds exactly the given characters.
pub fn eq_lit(w: &Vec<char>, lit: &[char]) -> (r: bool)
    ensures
        r == (w@ == lit@),
{
    if w.len() != lit.len() {
        return false;
    }
    let mut i: usize = 0;
    while i < w.len()
        invariant
            w.len() == lit@.len(),
            i <= w.len(),
            forall|j: int| 0 <= j < i ==> w@[j] == lit@[j],
        decreases w.len() - i,
    {
        if w[i] != lit[i] {
            return false;
        }
        i += 1;
    }
    assert(w@ =~= lit@);
    true
}

// ---------------------------------------------------------------- matching

/// `p` occurs in `s` at position `i`.
pub open spec fn matches_at(s: Seq<char>, p: Seq<char>, i: int) -> bool {
    0 <= i && i + p.len() <= s.len() && s.subrange(i, i + p.len()) == p
}

/// Whether `p` occurs in `s` at position `i`.
pub fn chars_match_at(s: &Vec<char>, p: &Vec<char>, i: usize) -> (r: bool)
    ensures
        r == matches_at(s@, p@, i as int),
{
    if i > s.len() || p.len() > s.len() - i {
        return false;
    }
    let mut j: usize = 0;
    while j < p.len()
        invariant
            i + p.len() <= s.len(),
            j <= p.len(),
            forall|k: int| 0 <= k < j ==> s@[i + k] == p@[k],
        decreases p.len() - j,
    {
        if s[i + j] != p[j] {
            assert(s@.subrange(i as int, i + p.len())[j as int] != p@[j as int]);
            return false;
        }
        j += 1;
    }
    assert(s@.subrange(i as int, i + p.len()) =~= p@);
    true
}

/// `p` is a prefix of `s`.
pub open spec fn starts_with(s: Seq<char>, p: Seq<char>) -> bool {
    matches_at(s, p, 0)
}

/// `p` is a suffix of `s`.
pub open spec fn ends_with(s: Seq<char>, p: Seq<char>) -> bool {
    matches_at(s, p, s.len() - p.len())
}

/// Whether `p` is a suffix of `s`.
pub fn chars_ends_with(s: &Vec<char>, p: &Vec<char>) -> (r: bool)
    ensures
        r == ends_with(s@, p@),
{
    if p.len() > s.len() {
        return false;
    }
    chars_match_at(s, p, s.len() - p.len())
}

// ---------------------------------------------------------------- replace

/// `to` placed before, between and after the characters of `s`: what
/// replacing the empty pattern gives.
pub open spec fn interleave(s: Seq<char>, to: Seq<char>) -> Seq<char>
    decreases s.len(),
{
    if s.len() == 0 {
        to
    } else {
        interleave(s.drop_last(), to) + seq![s.last()] + to
    }
}

/// Replacement of the non-overlapping occurrences of a nonempty `from`,
/// scanned left to right from position `i`.
pub open spec fn replace_from(s: Seq<char>, from: Seq<char>, to: Seq<char>, i: int) -> Seq<char>
    decreases s.len() - i,
{
    if i >= s.len() || from.len() == 0 {
        Seq::empty()
    } else if matches_at(s, from, i) {
        to + replace_from(s, from, to, i + from.len())
    } else {
        seq![s[i]] + replace_from(s, from, to, i + 1)
    }
}

/// Every non-overlapping occurrence of `from` in `s`, leftmost first,
/// replaced by `to`; an empty `from` matches before, between and after
/// every character.
pub open spec fn replace(s: Seq<char>, from: Seq<char>, to: Seq<char>) -> Seq<char> {
    if from.len() == 0 {
        interleave(s, to)
    } else {
        replace_from(s, from, to, 0)
    }
}

/// Replaces every occurrence of `from` in `s` by `to`.
pub fn replace_chars(s: &Vec<char>, from: &Vec<char>, to: &Vec<char>) -> (r: Vec<char>)
    ensures
        r@ == replace(s@, from@, to@),
{
    let mut r: Vec<char> = Vec::new();
    let mut i: usize = 0;
    if from.len() == 0 {
        push_all(&mut r, to);
        while i < s.len()
            invariant
                i <= s.len(),
                r@ == interleave(s@.take(i as int), to@),
            decreases s.len() - i,
        {
            r.push(s[i]);
            push_all(&mut r, to);
            i += 1;
            assert(s@.take(i as int).drop_last() == s@.take(i - 1));
        }
        assert(s@.take(i as int) == s@);
        return r;
    }
    while i < s.len()
        invariant
            from@.len() > 0,
            i <= s.len(),
            r@ + replace_from(s@, from@, to@, i as int) == replace_from(s@, from@, to@, 0),
        decreases s.len() - i,
    {
        if chars_match_at(s, from, i) {
            push_all(&mut r, to);
            i += from.len();
        } else {
            r.push(s[i]);
            i += 1;
        }
    }
    r
}

/// Number of non-overlapping occurrences of a nonempty `p` from position `i`.
pub open spec fn count_from(s: Seq<char>, p: Seq<char>, i: int) -> nat
    decreases s.len() - i,
{
    if i >= s.len() || p.len() == 0 {
        0
    } else if matches_at(s, p, i) {
        1 + count_from(s, p, i + p.len())
    } else {
        count_from(s, p, i + 1)
    }
}

/// Number of non-overlapping occurrences of `p` in `s`, counted as
/// `str::matches` does; the empty pattern occurs `s.len() + 1` times.
pub open spec fn count_matches(s: Seq<char>, p: Seq<char>) -> nat {
    if p.len() == 0 {
        s.len() + 1
    } else {
        count_from(s, p, 0)
    }
}

/// Counts the non-overlapping occurrences of `p` in `s`.
pub fn count_chars(s: &Vec<char>, p: &Vec<char>) -> (n: usize)
    requires
        p.len() > 0 || s.len() < usize::MAX,
    ensures
        n == count_matches(s@, p@),
{
    if p.len() == 0 {
        return s.len() + 1;
    }
    let mut n: usize = 0;
    let mut i: usize = 0;
    while i < s.len()
        invariant
            p@.len() > 0,
            i <= s.len(),
            n + count_from(s@, p@, i as int) == count_from(s@, p@, 0),
            n <= i,
        decreases s.len() - i,
    {
        if chars_match_at(s, p, i) {
            n += 1;
            i += p.len();
        } else {
            i += 1;
        }
    }
    n
}

// ---------------------------------------------------------------- split and join

/// The character sequences held by a vector of character vectors.
pub open spec fn views(v: Seq<Vec<char>>) -> Seq<Seq<char>> {
    v.map_values(|x: Vec<char>| x@)
}

/// Pieces of `s[start..]` between the non-overlapping occurrences of a
/// nonempty `sep`, the scan resuming at `i`.
pub open spec fn split_from(s: Seq<char>, sep: Seq<char>, start: int, i: int) -> Seq<Seq<char>>
    decreases s.len() - i,
{
    if i >= s.len() || sep.len() == 0 {
        seq![s.subrange(start, s.len() as int)]
    } else if matches_at(s, sep, i) {
        seq![s.subrange(start, i)] + split_from(s, sep, i + sep.len(), i + sep.len())
    } else {
        split_from(s, sep, start, i + 1)
    }
}

/// The pieces of `s` between the occurrences of `sep`, as `str::split`
/// gives them: with an empty `sep`, an empty piece, one piece per
/// character, and an empty piece.
pub open spec fn split(s: Seq<char>, sep: Seq<char>) -> Seq<Seq<char>> {
    if sep.len() == 0 {
        seq![Seq::<char>::empty()] + Seq::new(s.len(), |k: int| seq![s[k]]) + seq![
            Seq::<char>::empty(),
        ]
    } else {
        split_from(s, sep, 0, 0)
    }
}

/// The pieces joined with `sep` between each two of them.
pub open spec fn join(pieces: Seq<Seq<char>>, sep: Seq<char>) -> Seq<char>
    decreases pieces.len(),
{
    if pieces.len() == 0 {
        Seq::empty()
    } else if pieces.len() == 1 {
        pieces[0]
    } else {
        join(pieces.drop_last(), sep) + sep + pieces.last()
    }
}

/// Splits `s` at every occurrence of `sep`.
pub fn split_chars(s: &Vec<char>, sep: &Vec<char>) -> (r: Vec<Vec<char>>)
    ensures
        views(r@) == split(s@, sep@),
{
    let mut r: Vec<Vec<char>> = Vec::new();
    if sep.len() == 0 {
        r.push(Vec::new());
        let mut i: usize = 0;
        while i < s.len()
            invariant
                i <= s.len(),
                views(r@) == seq![Seq::<char>::empty()] + Seq::new(
                    i as nat,
                    |k: int| seq![s@[k]],
                ),
            decreases s.len() - i,
        {
            let mut one: Vec<char> = Vec::new();
            one.push(s[i]);
            assert(one@ =~= seq![s@[i as int]]);
            let ghost before = views(r@);
            r.push(one);
            assert(views(r@) =~= before + seq![one@]);
            i += 1;
            assert(views(r@) =~= seq![Seq::<char>::empty()] + Seq::new(
                i as nat,
                |k: int| seq![s@[k]],
            ));
        }
        r.push(Vec::new());
        assert(views(r@) =~= split(s@, sep@));
        return r;
    }
    let mut start: usize = 0;
    let mut i: usize = 0;
    while i < s.len()
        invariant
            sep@.len() > 0,
            start <= i <= s.len(),
            views(r@) + split_from(s@, sep@, start as int, i as int) == split_from(
                s@,
                sep@,
                0,
                0,
            ),
        decreases s.len() - i,
    {
        if chars_match_at(s, sep, i) {
            let piece = slice_chars(s, start, i);
            let ghost before = views(r@);
            r.push(piece);
            assert(views(r@) =~= before + seq![piece@]);
            i += sep.len();
            start = i;
        } else {
            i += 1;
        }
    }
    let piece = slice_chars(s, start, s.len());
    let ghost before = views(r@);
    r.push(piece);
    assert(views(r@) =~= before + seq![piece@]);
    r
}

/// Joins the pieces with `sep` between each two of them.
pub fn join_chars(pieces: &Vec<Vec<char>>, sep: &Vec<char>) -> (r: Vec<char>)
    ensures
        r@ == join(views(pieces@), sep@),
{
    let mut r: Vec<char> = Vec::new();
    if pieces.len() == 0 {
        return r;
    }
    push_all(&mut r, &pieces[0]);
    let mut k: usize = 1;
    while k < pieces.len()
        invariant
            1 <= k <= pieces.len(),
            r@ == join(views(pieces@).take(k as int), sep@),
        decreases pieces.len() - k,
    {
        push_all(&mut r, sep);
        push_all(&mut r, &pieces[k]);
        k += 1;
        assert(views(pieces@).take(k as int).drop_last() =~= views(pieces@).take(
            k - 1,
        ));
    }
    assert(views(pieces@).take(k as int) =~= views(pieces@));
    r
}

/// Joining a piece in front of a nonempty list.
pub proof fn lemma_join_prepend(a: Seq<char>, rest: Seq<Seq<char>>, sep: Seq<char>)
    requires
        rest.len() >= 1,
    ensures
        join(seq![a] + rest, sep) == a + sep + join(rest, sep),
    decreases rest.len(),
{
    let whole = seq![a] + rest;
    if rest.len() == 1 {
        assert(whole.drop_last() =~= seq![a]);
        assert(join(whole.drop_last(), sep) == a);
        assert(whole.last() == rest[0]);
    } else {
        lemma_join_prepend(a, rest.drop_last(), sep);
        assert(whole.drop_last() =~= seq![a] + rest.drop_last());
        assert(whole.last() == rest.last());
        assert(join(whole, sep) == join(whole.drop_last(), sep) + sep + whole.last());
        assert(join(rest, sep) == join(rest.drop_last(), sep) + sep + rest.last());
        assert(join(whole, sep) =~= a + sep + join(rest, sep));
    }
}

/// Joining the pieces of a scan gives back the scanned text.
proof fn lemma_join_split_from(s: Seq<char>, sep: Seq<char>, start: int, i: int)
    requires
        sep.len() > 0,
        0 <= start <= i,
        start <= s.len(),
    ensures
        split_from(s, sep, start, i).len() >= 1,
        join(split_from(s, sep, start, i), sep) == s.subrange(start, s.len() as int),
    decreases s.len() - i,
{
    if i >= s.len() {
    } else if matches_at(s, sep, i) {
        lemma_join_split_from(s, sep, i + sep.len(), i + sep.len());
        let rest = split_from(s, sep, i + sep.len(), i + sep.len());
        lemma_join_prepend(s.subrange(start, i), rest, sep);
        assert(s.subrange(start, i) + sep + s.subrange(i + sep.len(), s.len() as int)
            =~= s.subrange(start, s.len() as int));
    } else {
        lemma_join_split_from(s, sep, start, i + 1);
    }
}

/// Joining the one-character pieces gives back the characters.
proof fn lemma_join_singletons(s: Seq<char>, n: nat)
    requires
        n <= s.len(),
    ensures
        join(seq![Seq::<char>::empty()] + Seq::new(n, |k: int| seq![s[k]]), Seq::empty())
            == s.take(n as int),
    decreases n,
{
    let ps = seq![Seq::<char>::empty()] + Seq::new(n, |k: int| seq![s[k]]);
    if n > 0 {
        lemma_join_singletons(s, (n - 1) as nat);
        assert(ps.drop_last() =~= seq![Seq::<char>::empty()] + Seq::new(
            (n - 1) as nat,
            |k: int| seq![s[k]],
        ));
        assert(s.take(n as int) =~= s.take(n - 1) + Seq::<char>::empty() + seq![s[n - 1]]);
    } else {
        assert(ps =~= seq![Seq::<char>::empty()]);
    }
}

/// A split has at least one piece.
pub proof fn lemma_split_nonempty(s: Seq<char>, sep: Seq<char>)
    ensures
        split(s, sep).len() >= 1,
{
    if sep.len() > 0 {
        lemma_join_split_from(s, sep, 0, 0);
    }
}

/// Joining the pieces of a split with the same separator gives back the text.
pub proof fn lemma_join_split(s: Seq<char>, sep: Seq<char>)
    ensures
        join(split(s, sep), sep) == s,
{
    if sep.len() == 0 {
        assert(sep =~= Seq::<char>::empty());
        let ps = seq![Seq::<char>::empty()] + Seq::new(s.len(), |k: int| seq![s[k]]);
        lemma_join_singletons(s, s.len());
        assert(split(s, sep) =~= ps + seq![Seq::<char>::empty()]);
        let whole = split(s, sep);
        assert(whole.drop_last() =~= ps);
        assert(whole.len() >= 2);
        assert(s.take(s.len() as int) =~= s);
        assert(join(whole, sep) == join(whole.drop_last(), sep) + sep + whole.last());
        assert(join(whole.drop_last(), sep) == s);
        assert(whole.last() =~= Seq::<char>::empty());
        assert(join(whole, sep) =~= s);
    } else {
        lemma_join_split_from(s, sep, 0, 0);
        assert(s.subrange(0, s.len() as int) =~= s);
    }
}

// ---------------------------------------------------------------- repeat

/// `s` repeated `n` times.
pub open spec fn repeat(s: Seq<char>, n: nat) -> Seq<char>
    decreases n,
{
    if n == 0 {
        Seq::empty()
    } else {
        repeat(s, (n - 1) as nat) + s
    }
}

/// `s` repeated `n` times.
pub fn repeat_chars(s: &Vec<char>, n: usize) -> (r: Vec<char>)
    ensures
        r@ == repeat(s@, n as nat),
{
    let mut r: Vec<char> = Vec::new();
    let mut k: usize = 0;
    while k < n
        invariant
            k <= n,
            r@ == repeat(s@, k as nat),
        decreases n - k,
    {
        push_all(&mut r, s);
        k += 1;
    }
    r
}

/// The characters in reverse order.
pub fn reverse_chars(s: &Vec<char>) -> (r: Vec<char>)
    ensures
        r@ == s@.reverse(),
{
    let mut r: Vec<char> = Vec::new();
    let mut i: usize = s.len();
    while i > 0
        invariant
            i <= s.len(),
            r@ == s@.subrange(i as int, s.len() as int).reverse(),
        decreases i,
    {
        i -= 1;
        r.push(s[i]);
        assert(r@ =~= s@.subrange(i as int, s.len() as int).reverse());
    }
    assert(s@.subrange(0, s.len() as int) =~= s@);
    r
}

} // verus!
