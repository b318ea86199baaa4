//! Shaping of Arabic text: presentation forms, ligatures, diacritic marks
//! and right-to-left order.
use vstd::prelude::*;
use crate::outside::{group_views, regex_captures, regex_search, string_from_chars, well_placed};
use crate::offsets::{char_index, char_index_of, is_char_offset, lemma_char_index_of_mono};
use crate::tables::{
    spec_is_haraka, is_haraka, spec_connects_both, connects_both, spec_connects, connects,
    spec_presentation_forms, presentation_forms, spec_letter_of_form, letter_of_form,
    spec_ligature_letters, ligature_letters, spec_mirrored_bracket, mirrored_bracket,
    spec_merged_marks, merged_marks, spec_joined_haraka, joined_haraka,
};
use crate::text::{replace, replace_chars, str_chars, count_matches, count_chars, reverse_chars};
use crate::utils::{fix_for_regex_chars, get_subs, regex_escaped, string_views, subs, sort_desc};

verus! {

// ---------------------------------------------------------------- context

/// The last character before position `j` that is not a diacritic mark, or
/// a space when there is none.
pub open spec fn base_before(t: Seq<char>, j: int) -> char
    decreases j,
{
    if j <= 0 || j > t.len() {
        ' '
    } else if !spec_is_haraka(t[j - 1]) {
        t[j - 1]
    } else {
        base_before(t, j - 1)
    }
}

/// The first character from position `j` on that is not a diacritic mark,
/// or a space when there is none.
pub open spec fn base_from(t: Seq<char>, j: int) -> char
    decreases t.len() - j,
{
    if j < 0 || j >= t.len() {
        ' '
    } else if !spec_is_haraka(t[j]) {
        t[j]
    } else {
        base_from(t, j + 1)
    }
}

/// For each position, the first character from it on that is not a mark.
fn bases_from(t: &Vec<char>) -> (r: Vec<char>)
    ensures
        r@.len() == t@.len() + 1,
        forall|j: int| 0 <= j <= t@.len() ==> r@[j] == base_from(t@, j),
{
    let n = t.len();
    let mut rev: Vec<char> = Vec::new();
    rev.push(' ');
    let mut j: usize = n;
    while j > 0
        invariant
            j <= n == t@.len(),
            rev@.len() == n - j + 1,
            forall|k: int| 0 <= k < rev@.len() ==> rev@[k] == base_from(t@, n - k),
        decreases j,
    {
        j -= 1;
        let c = t[j];
        let b = if !is_haraka(c) {
            c
        } else {
            rev[n - j - 1]
        };
        rev.push(b);
    }
    let mut r: Vec<char> = Vec::new();
    let mut k: usize = 0;
    while k <= n
        invariant
            k <= n + 1,
            rev@.len() == n + 1,
            n == t@.len(),
            forall|m: int| 0 <= m < rev@.len() ==> rev@[m] == base_from(t@, n - m),
            r@.len() == k,
            forall|m: int| 0 <= m < k ==> r@[m] == base_from(t@, m),
        decreases n + 1 - k,
    {
        r.push(rev[n - k]);
        k += 1;
    }
    r
}

// ---------------------------------------------------------------- freeze

/// One of the four presentation forms.
pub open spec fn pick_form(f: (char, char, char, char), k: int) -> char {
    if k == 0 {
        f.0
    } else if k == 1 {
        f.1
    } else if k == 2 {
        f.2
    } else {
        f.3
    }
}

/// Which form the letter at `i` takes: one for joining the letter before
/// (that letter joins on both sides and this one joins back), plus two for
/// joining the letter after (that letter joins back); marks are looked past.
pub open spec fn form_index(t: Seq<char>, i: int) -> int {
    (if spec_connects_both(base_before(t, i)) && spec_connects(t[i]) {
        1int
    } else {
        0int
    }) + 2 * (if spec_connects(base_from(t, i + 1)) {
        1int
    } else {
        0int
    })
}

/// The character at `i` in its presentation form, when it has one.
pub open spec fn frozen_char(t: Seq<char>, i: int) -> char {
    match spec_presentation_forms(t[i]) {
        Some(f) => pick_form(f, form_index(t, i)),
        None => t[i],
    }
}

/// Every letter in the presentation form its neighbours call for.
pub open spec fn frozen(t: Seq<char>) -> Seq<char> {
    Seq::new(t.len(), |i: int| frozen_char(t, i))
}

/// Writes every letter in the presentation form its neighbours call for.
pub fn freeze(text: &str) -> (r: String)
    ensures
        r@ == frozen(text@),
{
    let t = str_chars(text);
    let next = bases_from(&t);
    let mut r: Vec<char> = Vec::new();
    let mut prev: char = ' ';
    let mut i: usize = 0;
    while i < t.len()
        invariant
            i <= t@.len(),
            next@.len() == t@.len() + 1,
            forall|j: int| 0 <= j <= t@.len() ==> next@[j] == base_from(t@, j),
            prev == base_before(t@, i as int),
            r@.len() == i,
            forall|j: int| 0 <= j < i ==> r@[j] == frozen_char(t@, j),
        decreases t@.len() - i,
    {
        let c = t[i];
        let out = match presentation_forms(c) {
            Some(f) => {
                let k: usize = (if connects_both(prev) && connects(c) {
                    1usize
                } else {
                    0usize
                }) + 2 * (if connects(next[i + 1]) {
                    1usize
                } else {
                    0usize
                });
                if k == 0 {
                    f.0
                } else if k == 1 {
                    f.1
                } else if k == 2 {
                    f.2
                } else {
                    f.3
                }
            },
            None => c,
        };
        r.push(out);
        if !is_haraka(c) {
            prev = c;
        }
        i += 1;
    }
    assert(r@ =~= frozen(t@));
    string_from_chars(&r)
}

/// Every presentation form written as the letter it belongs to.
pub open spec fn unfrozen(t: Seq<char>) -> Seq<char> {
    Seq::new(
        t.len(),
        |i: int|
            match spec_letter_of_form(t[i]) {
                Some(c) => c,
                None => t[i],
            },
    )
}

/// Writes every presentation form as the letter it belongs to.
pub fn unfreeze(text: &str) -> (r: String)
    ensures
        r@ == unfrozen(text@),
{
    let t = str_chars(text);
    let mut r: Vec<char> = Vec::new();
    let mut i: usize = 0;
    while i < t.len()
        invariant
            i <= t@.len(),
            r@.len() == i,
            forall|j: int|
                0 <= j < i ==> r@[j] == match spec_letter_of_form(t@[j]) {
                    Some(c) => c,
                    None => t@[j],
                },
        decreases t@.len() - i,
    {
        let c = t[i];
        r.push(
            match letter_of_form(c) {
                Some(b) => b,
                None => c,
            },
        );
        i += 1;
    }
    assert(r@ =~= unfrozen(t@));
    string_from_chars(&r)
}

// ---------------------------------------------------------------- ligatures

/// The text with, for each ligature in turn, every run of the letters it
/// stands for replaced by the ligature.
pub open spec fn compressed(t: Seq<char>, ligatures: Seq<char>) -> Seq<char>
    decreases ligatures.len(),
{
    if ligatures.len() == 0 {
        t
    } else {
        let before = compressed(t, ligatures.drop_last());
        match spec_ligature_letters(ligatures.last()) {
            Some(v) => replace(before, v, seq![ligatures.last()]),
            None => before,
        }
    }
}

/// Replaces, for each of the given ligatures in turn, the letters it stands
/// for by the ligature.
pub fn compress_text(text: &str, used_ligatures: &str) -> (r: String)
    ensures
        r@ == if text@.len() == 0 || used_ligatures@.len() == 0 {
            text@
        } else {
            compressed(text@, used_ligatures@)
        },
{
    let mut t = str_chars(text);
    let ligs = str_chars(used_ligatures);
    if t.len() == 0 || ligs.len() == 0 {
        return string_from_chars(&t);
    }
    let mut k: usize = 0;
    while k < ligs.len()
        invariant
            k <= ligs@.len(),
            t@ == compressed(text@, ligs@.take(k as int)),
        decreases ligs@.len() - k,
    {
        let lig = ligs[k];
        proof {
            assert(ligs@.take(k + 1).drop_last() =~= ligs@.take(k as int));
        }
        match ligature_letters(lig) {
            Some(v) => {
                let mut one: Vec<char> = Vec::new();
                one.push(lig);
                assert(one@ =~= seq![lig]);
                t = replace_chars(&t, &v, &one);
            },
            None => {},
        }
        k += 1;
    }
    assert(ligs@.take(k as int) =~= ligs@);
    string_from_chars(&t)
}

/// Every ligature written out as the letters it stands for.
pub open spec fn uncompressed(t: Seq<char>) -> Seq<char>
    decreases t.len(),
{
    if t.len() == 0 {
        Seq::empty()
    } else {
        uncompressed(t.drop_last()) + match spec_ligature_letters(t.last()) {
            Some(v) => v,
            None => seq![t.last()],
        }
    }
}

/// Writes every ligature out as the letters it stands for.
pub fn uncompress_text(text: &str) -> (r: String)
    ensures
        r@ == uncompressed(text@),
{
    let t = str_chars(text);
    let mut r: Vec<char> = Vec::new();
    let mut i: usize = 0;
    while i < t.len()
        invariant
            i <= t@.len(),
            r@ == uncompressed(t@.take(i as int)),
        decreases t@.len() - i,
    {
        let c = t[i];
        match ligature_letters(c) {
            Some(v) => crate::text::push_all(&mut r, &v),
            None => r.push(c),
        }
        i += 1;
        assert(t@.take(i as int).drop_last() =~= t@.take(i - 1));
        assert(r@ =~= uncompressed(t@.take(i as int)));
    }
    assert(t@.take(i as int) =~= t@);
    string_from_chars(&r)
}

/// Equal neighbours kept once, as `Vec::dedup` does.
pub open spec fn dedup_runs(s: Seq<Seq<char>>) -> Seq<Seq<char>>
    decreases s.len(),
{
    if s.len() == 0 {
        s
    } else if s.len() >= 2 && s.last() == s[s.len() - 2] {
        dedup_runs(s.drop_last())
    } else {
        dedup_runs(s.drop_last()).push(s.last())
    }
}

/// The substrings of each of the given lengths, in turn.
pub open spec fn subs_of_lens(t: Seq<char>, lens: Seq<usize>) -> Seq<Seq<char>>
    decreases lens.len(),
{
    if lens.len() == 0 {
        Seq::empty()
    } else {
        subs_of_lens(t, lens.drop_last()) + subs(t, lens.last() as nat)
    }
}

/// Ranking of substrings by how often they occur in `t`.
pub open spec fn by_count(t: Seq<char>) -> spec_fn(Seq<char>) -> int {
    |s: Seq<char>| count_matches(t, s) as int
}

/// Substrings are never empty.
proof fn lemma_subs_of_lens_nonempty(t: Seq<char>, lens: Seq<usize>)
    ensures
        forall|i: int|
            0 <= i < subs_of_lens(t, lens).len() ==> (#[trigger] subs_of_lens(t, lens)[i]).len() > 0,
    decreases lens.len(),
{
    if lens.len() > 0 {
        lemma_subs_of_lens_nonempty(t, lens.drop_last());
        lemma_subs_nonempty(t, lens.last() as nat);
        let a = subs_of_lens(t, lens.drop_last());
        let b = subs(t, lens.last() as nat);
        assert forall|i: int| 0 <= i < (a + b).len() implies (#[trigger] (a + b)[i]).len() > 0 by {
            if i < a.len() {
                assert((a + b)[i] == a[i]);
            } else {
                assert((a + b)[i] == b[i - a.len()]);
            }
        }
    }
}

/// Windows of a positive length are not empty.
proof fn lemma_windows_down_nonempty(t: Seq<char>, len: nat)
    ensures
        forall|i: int|
            0 <= i < crate::utils::windows_down_from(t, len).len() ==> (
            #[trigger] crate::utils::windows_down_from(t, len)[i]).len() > 0,
    decreases len,
{
    if len > 0 {
        lemma_windows_down_nonempty(t, (len - 1) as nat);
        let a = crate::utils::windows(t, len);
        let b = crate::utils::windows_down_from(t, (len - 1) as nat);
        assert forall|i: int| 0 <= i < (a + b).len() implies (#[trigger] (a + b)[i]).len() > 0 by {
            if i < a.len() {
                assert((a + b)[i] == a[i]);
            } else {
                assert((a + b)[i] == b[i - a.len()]);
            }
        }
    }
}

/// The substrings listed are never empty.
proof fn lemma_subs_nonempty(t: Seq<char>, len: nat)
    ensures
        forall|i: int| 0 <= i < subs(t, len).len() ==> (#[trigger] subs(t, len)[i]).len() > 0,
{
    lemma_windows_down_nonempty(t, t.len());
}

/// What `suggest_ligatures` gives: the substrings of the given lengths,
/// ordered by how often they occur in the text (most first, ties in listing
/// order), equal neighbours kept once, at most `n` of them.
pub open spec fn suggested(t: Seq<char>, lens: Seq<usize>, n: nat) -> Seq<Seq<char>> {
    let ranked = dedup_runs(sort_desc(subs_of_lens(t, lens), by_count(t)));
    ranked.take(if n < ranked.len() { n as int } else { ranked.len() as int })
}

/// Suggests the substrings of the given lengths that occur most often.
pub fn suggest_ligatures(text: &str, ligature_lens: &Vec<usize>, results_num: usize) -> (r: Vec<
    String,
>)
    ensures
        string_views(r@) == suggested(text@, ligature_lens@, results_num as nat),
{
    let t = str_chars(text);
    let ghost key = by_count(text@);
    // gather
    let mut all: Vec<String> = Vec::new();
    let mut k: usize = 0;
    while k < ligature_lens.len()
        invariant
            k <= ligature_lens@.len(),
            string_views(all@) == subs_of_lens(text@, ligature_lens@.take(k as int)),
        decreases ligature_lens@.len() - k,
    {
        let more = get_subs(text, ligature_lens[k]);
        proof {
            lemma_subs_nonempty(text@, ligature_lens@[k as int] as nat);
        }
        let mut j: usize = 0;
        let ghost before = string_views(all@);
        while j < more.len()
            invariant
                j <= more@.len(),
                string_views(all@) == before + string_views(more@).take(j as int),
            decreases more@.len() - j,
        {
            let s = string_from_chars(&str_chars(more[j].as_str()));
            let ghost b2 = string_views(all@);
            all.push(s);
            assert(string_views(all@) =~= b2.push(s@));
            j += 1;
            assert(string_views(more@).take(j as int) =~= string_views(more@).take(j - 1).push(
                more@[j - 1]@,
            ));
        }
        assert(string_views(more@).take(j as int) =~= string_views(more@));
        assert(ligature_lens@.take(k + 1).drop_last() =~= ligature_lens@.take(k as int));
        k += 1;
    }
    assert(ligature_lens@.take(k as int) =~= ligature_lens@);
    proof {
        lemma_subs_of_lens_nonempty(text@, ligature_lens@);
        assert forall|j: int| 0 <= j < all@.len() implies (#[trigger] all@[j])@.len() > 0 by {
            assert(string_views(all@)[j] == all@[j]@);
        }
    }
    // rank
    let mut ranked: Vec<Vec<char>> = Vec::new();
    let mut counts: Vec<usize> = Vec::new();
    let mut i: usize = 0;
    while i < all.len()
        invariant
            key == by_count(text@),
            t@ == text@,
            i <= all@.len(),
            counts@.len() == ranked@.len(),
            forall|j: int|
                0 <= j < ranked@.len() ==> counts@[j] == count_matches(t@, (#[trigger] ranked@[j])@),
            crate::text::views(ranked@) == sort_desc(string_views(all@).take(i as int), key),
            forall|j: int| 0 <= j < all@.len() ==> (#[trigger] all@[j])@.len() > 0,
        decreases all@.len() - i,
    {
        let s = str_chars(all[i].as_str());
        let n = count_chars(&t, &s);
        let mut p: usize = ranked.len();
        while p > 0 && counts[p - 1] < n
            invariant
                p <= ranked@.len(),
                counts@.len() == ranked@.len(),
                forall|j: int| p <= j < ranked@.len() ==> counts@[j] < n,
            decreases p,
        {
            p -= 1;
        }
        let ghost before = crate::text::views(ranked@);
        proof {
            assert forall|j: int| p <= j < before.len() implies key(#[trigger] before[j]) < key(
                s@,
            ) by {
                assert(before[j] == ranked@[j]@);
            }
            if p > 0 {
                assert(before[p - 1] == ranked@[p - 1]@);
            }
            crate::utils::lemma_insert_desc_at(before, s@, key, p as int);
            assert(string_views(all@).take(i + 1).drop_last() =~= string_views(all@).take(
                i as int,
            ));
        }
        let ghost sv = s@;
        ranked.insert(p, s);
        counts.insert(p, n);
        assert(crate::text::views(ranked@) =~= before.insert(p as int, sv));
        i += 1;
    }
    assert(string_views(all@).take(i as int) =~= string_views(all@));
    // keep each run once
    let mut uniq: Vec<Vec<char>> = Vec::new();
    let mut m: usize = 0;
    while m < ranked.len()
        invariant
            m <= ranked@.len(),
            crate::text::views(uniq@) == dedup_runs(crate::text::views(ranked@).take(m as int)),
            m > 0 ==> uniq@.len() > 0 && uniq@.last()@ == ranked@[m - 1]@,
        decreases ranked@.len() - m,
    {
        let ghost rv = crate::text::views(ranked@);
        assert(rv.take(m + 1).drop_last() =~= rv.take(m as int));
        if m > 0 && crate::text::chars_eq(&ranked[m], &ranked[m - 1]) {
        } else {
            let c = crate::text::copy_chars(&ranked[m]);
            let ghost before = crate::text::views(uniq@);
            uniq.push(c);
            assert(crate::text::views(uniq@) =~= before.push(rv[m as int]));
        }
        m += 1;
    }
    assert(crate::text::views(ranked@).take(m as int) =~= crate::text::views(ranked@));
    // take the first ones
    let mut r: Vec<String> = Vec::new();
    let mut q: usize = 0;
    while q < uniq.len() && q < results_num
        invariant
            q <= uniq@.len(),
            q <= results_num,
            string_views(r@) == crate::text::views(uniq@).take(q as int),
        decreases uniq@.len() - q,
    {
        let s = string_from_chars(&uniq[q]);
        let ghost before = string_views(r@);
        r.push(s);
        assert(string_views(r@) =~= before.push(s@));
        q += 1;
        assert(string_views(r@) =~= crate::text::views(uniq@).take(q as int));
    }
    assert(crate::text::views(uniq@).len() == uniq@.len());
    r
}

// ---------------------------------------------------------------- reversing

/// Reverses the order of the characters.
pub fn reverse_text(text: &str) -> (r: String)
    ensures
        r@ == text@.reverse(),
{
    string_from_chars(&reverse_chars(&str_chars(text)))
}

/// A bracket turned to face the other way; U+0000 becomes a closing round
/// bracket.
pub open spec fn mirror_char(c: char) -> char {
    if c == '\0' {
        ')'
    } else {
        match spec_mirrored_bracket(c) {
            Some(m) => m,
            None => c,
        }
    }
}

/// The text with every bracket turned to face the other way.
pub open spec fn mirrored(t: Seq<char>) -> Seq<char> {
    Seq::new(t.len(), |i: int| mirror_char(t[i]))
}

/// Turns every bracket to face the other way.
pub fn reverse_brackets_chars(t: &Vec<char>) -> (r: Vec<char>)
    ensures
        r@ == mirrored(t@),
{
    let mut r: Vec<char> = Vec::new();
    let mut i: usize = 0;
    while i < t.len()
        invariant
            i <= t@.len(),
            r@.len() == i,
            forall|j: int| 0 <= j < i ==> r@[j] == mirror_char(t@[j]),
        decreases t@.len() - i,
    {
        let c = t[i];
        let m = if c == '\0' {
            ')'
        } else {
            match mirrored_bracket(c) {
                Some(m) => m,
                None => c,
            }
        };
        r.push(m);
        i += 1;
    }
    assert(r@ =~= mirrored(t@));
    r
}

/// Turns every bracket to face the other way.
pub fn reverse_brackets(text: &str) -> (r: String)
    ensures
        r@ == mirrored(text@),
{
    string_from_chars(&reverse_brackets_chars(&str_chars(text)))
}

// ---------------------------------------------------------------- marks

/// The text without its diacritic marks.
pub open spec fn without_marks(t: Seq<char>) -> Seq<char> {
    t.filter(|c: char| !spec_is_haraka(c))
}

/// Drops the diacritic marks.
pub fn del_harakat_chars(t: &Vec<char>) -> (r: Vec<char>)
    ensures
        r@ == without_marks(t@),
{
    let mut r: Vec<char> = Vec::new();
    let mut i: usize = 0;
    while i < t.len()
        invariant
            i <= t@.len(),
            r@ == without_marks(t@.take(i as int)),
        decreases t@.len() - i,
    {
        let c = t[i];
        if !is_haraka(c) {
            r.push(c);
        }
        proof {
            reveal_with_fuel(Seq::filter, 1);
            assert(t@.take(i + 1).drop_last() =~= t@.take(i as int));
        }
        i += 1;
    }
    assert(t@.take(i as int) =~= t@);
    r
}

/// Drops the diacritic marks.
pub fn del_harakat(text: &str) -> (r: String)
    ensures
        r@ == without_marks(text@),
{
    string_from_chars(&del_harakat_chars(&str_chars(text)))
}

/// The text with every mark that directly follows another mark dropped.
pub open spec fn first_marks(t: Seq<char>) -> Seq<char>
    decreases t.len(),
{
    if t.len() <= 1 {
        t
    } else {
        first_marks(t.drop_last()) + if spec_is_haraka(t[t.len() - 2]) && spec_is_haraka(t.last()) {
            Seq::empty()
        } else {
            seq![t.last()]
        }
    }
}

/// Keeps only the first of successive diacritic marks.
pub fn keep_first_haraka(text: &str) -> (r: String)
    requires
        text@.len() > 0,
    ensures
        r@ == first_marks(text@),
{
    let t = str_chars(text);
    let mut r: Vec<char> = Vec::new();
    r.push(t[0]);
    let mut i: usize = 1;
    assert(t@.take(1) =~= seq![t@[0]]);
    while i < t.len()
        invariant
            1 <= i <= t@.len(),
            r@ == first_marks(t@.take(i as int)),
        decreases t@.len() - i,
    {
        let c = t[i];
        if !(is_haraka(t[i - 1]) && is_haraka(c)) {
            r.push(c);
        }
        proof {
            assert(t@.take(i + 1).drop_last() =~= t@.take(i as int));
        }
        i += 1;
        assert(r@ =~= first_marks(t@.take(i as int)));
    }
    assert(t@.take(i as int) =~= t@);
    string_from_chars(&r)
}

/// The text read from position `i` with each pair of marks that has a
/// merged form written as that single mark.
pub open spec fn merged_from(t: Seq<char>, i: int) -> Seq<char>
    decreases t.len() - i,
{
    if i < 0 || i >= t.len() {
        Seq::empty()
    } else if i + 1 < t.len() && spec_merged_marks(t[i], t[i + 1]) is Some {
        seq![spec_merged_marks(t[i], t[i + 1]).unwrap()] + merged_from(t, i + 2)
    } else {
        seq![t[i]] + merged_from(t, i + 1)
    }
}

/// Writes each pair of diacritic marks that has a merged form as that
/// single mark.
pub fn merge_harakat(text: &str) -> (r: String)
    ensures
        r@ == merged_from(text@, 0),
{
    let t = str_chars(text);
    let mut r: Vec<char> = Vec::new();
    let mut i: usize = 0;
    while i < t.len()
        invariant
            i <= t@.len(),
            r@ + merged_from(t@, i as int) == merged_from(t@, 0),
        decreases t@.len() - i,
    {
        let ghost before = r@;
        let ghost i0 = i as int;
        let m = if i + 1 < t.len() {
            merged_marks(t[i], t[i + 1])
        } else {
            None
        };
        match m {
            Some(k) => {
                r.push(k);
                i += 2;
            },
            None => {
                r.push(t[i]);
                i += 1;
            },
        }
        assert(merged_from(t@, i0) == seq![r@.last()] + merged_from(t@, i as int));
        assert(r@ =~= before.push(r@.last()));
        assert(r@ + merged_from(t@, i as int) =~= before + merged_from(t@, i0));
    }
    string_from_chars(&r)
}

/// `c` put at position `index` of `s`, or at its end when `index` is past it.
pub open spec fn insert_clamped(s: Seq<char>, index: int, c: char) -> Seq<char> {
    let k = if index < s.len() { index } else { s.len() as int };
    s.take(k) + seq![c] + s.skip(k)
}

/// The marks of the first `i` characters moved by `offset` positions, the
/// text having first been stripped of its marks: each mark, in turn, goes
/// back in at its own position plus `offset`, held within the line.
pub open spec fn offset_prefix(t: Seq<char>, offset: int, i: nat) -> Seq<char>
    decreases i,
{
    if i == 0 {
        without_marks(t)
    } else {
        let before = offset_prefix(t, offset, (i - 1) as nat);
        if i > t.len() || !spec_is_haraka(t[i - 1]) {
            before
        } else {
            insert_clamped(before, if i - 1 + offset > 0 { i - 1 + offset } else { 0 }, t[i - 1])
        }
    }
}

/// Moves each diacritic mark `offset` positions along the text.
pub fn offset_harakat(text: &str, offset: isize) -> (r: String)
    requires
        forall|i: int|
            0 <= i < text@.len() && spec_is_haraka(#[trigger] text@[i]) && offset > 0 ==> i + offset
                <= isize::MAX,
    ensures
        r@ == offset_prefix(text@, offset as int, text@.len()),
{
    let t = str_chars(text);
    let mut cur = del_harakat_chars(&t);
    let mut i: usize = 0;
    while i < t.len()
        invariant
            t@ == text@,
            i <= t@.len(),
            cur@ == offset_prefix(t@, offset as int, i as nat),
        decreases t@.len() - i,
    {
        let c = t[i];
        if is_haraka(c) {
            let pos: i128 = i as i128 + offset as i128;
            let k: usize = if pos <= 0 {
                0
            } else if pos < cur.len() as i128 {
                pos as usize
            } else {
                cur.len()
            };
            let ghost before = cur@;
            cur.insert(k, c);
            assert(cur@ =~= insert_clamped(before, if i + offset > 0 { i + offset } else { 0 }, c));
        }
        i += 1;
    }
    string_from_chars(&cur)
}

/// Each mark between two joining letters written in its joined form.
pub open spec fn joined_marks(t: Seq<char>) -> Seq<char> {
    Seq::new(
        t.len(),
        |i: int|
            if spec_is_haraka(t[i]) && spec_connects_both(base_before(t, i)) && spec_connects(
                base_from(t, i + 1),
            ) {
                spec_joined_haraka(t[i]).unwrap()
            } else {
                t[i]
            },
    )
}

/// Every mark that sits between joining letters has a joined form.
pub open spec fn marks_joinable(t: Seq<char>) -> bool {
    forall|i: int|
        0 <= i < t.len() && spec_is_haraka(#[trigger] t[i]) && spec_connects_both(base_before(t, i))
            && spec_connects(base_from(t, i + 1)) ==> spec_joined_haraka(t[i]) is Some
}

/// Writes each diacritic mark that sits between joining letters in its
/// joined form.
pub fn connect_harakat(text: &str) -> (r: String)
    requires
        marks_joinable(text@),
    ensures
        r@ == joined_marks(text@),
{
    let t = str_chars(text);
    let next = bases_from(&t);
    let mut r: Vec<char> = Vec::new();
    let mut prev: char = ' ';
    let mut i: usize = 0;
    while i < t.len()
        invariant
            t@ == text@,
            marks_joinable(t@),
            i <= t@.len(),
            next@.len() == t@.len() + 1,
            forall|j: int| 0 <= j <= t@.len() ==> next@[j] == base_from(t@, j),
            prev == base_before(t@, i as int),
            r@.len() == i,
            forall|j: int| 0 <= j < i ==> r@[j] == joined_marks(t@)[j],
        decreases t@.len() - i,
    {
        let c = t[i];
        let out = if is_haraka(c) && connects_both(prev) && connects(next[i + 1]) {
            match joined_haraka(c) {
                Some(j) => j,
                None => c,
            }
        } else {
            c
        };
        r.push(out);
        if !is_haraka(c) {
            prev = c;
        }
        i += 1;
    }
    assert(r@ =~= joined_marks(t@));
    string_from_chars(&r)
}

// ---------------------------------------------------------------- right to left

/// The characters an Arabic run is made of: letters, Arabic punctuation,
/// presentation forms, marks, ligatures and brackets.
pub open spec fn full_arabic() -> Seq<char> {
    "\u{671}\u{67B}\u{67E}\u{680}\u{67A}\u{67F}\u{679}\u{6A4}\u{6A6}\u{684}\u{683}\u{686}\u{687}\u{68D}\u{68C}\u{68E}\u{688}\u{698}\u{691}\u{6A9}\u{6AF}\u{6B3}\u{6B1}\u{6BA}\u{6BB}\u{6C0}\u{6C1}\u{6BE}\u{6D2}\u{6D3}\u{6AD}\u{6C7}\u{6C6}\u{6C8}\u{6CB}\u{6C5}\u{6C9}\u{6D0}\u{6CC}\u{621}\u{622}\u{623}\u{624}\u{625}\u{626}\u{627}\u{628}\u{629}\u{62A}\u{62B}\u{62C}\u{62D}\u{62E}\u{62F}\u{630}\u{631}\u{632}\u{633}\u{634}\u{635}\u{636}\u{637}\u{638}\u{639}\u{63A}\u{641}\u{642}\u{643}\u{644}\u{645}\u{646}\u{647}\u{648}\u{649}\u{64A}\u{640}\u{61F}\u{60C}\u{61B}\u{640}\u{FE80}\u{FE81}\u{FE82}\u{FE83}\u{FE84}\u{FE85}\u{FE86}\u{FE87}\u{FE88}\u{FE89}\u{FE8A}\u{FE8B}\u{FE8C}\u{FE8D}\u{FE8E}\u{FE8F}\u{FE90}\u{FE91}\u{FE92}\u{FE93}\u{FE94}\u{FE95}\u{FE96}\u{FE97}\u{FE98}\u{FE99}\u{FE9A}\u{FE9B}\u{FE9C}\u{FE9D}\u{FE9E}\u{FE9F}\u{FEA0}\u{FEA1}\u{FEA2}\u{FEA3}\u{FEA4}\u{FEA5}\u{FEA6}\u{FEA7}\u{FEA8}\u{FEA9}\u{FEAA}\u{FEAB}\u{FEAC}\u{FEAD}\u{FEAE}\u{FEAF}\u{FEB0}\u{FEB1}\u{FEB2}\u{FEB3}\u{FEB4}\u{FEB5}\u{FEB6}\u{FEB7}\u{FEB8}\u{FEB9}\u{FEBA}\u{FEBB}\u{FEBC}\u{FEBD}\u{FEBE}\u{FEBF}\u{FEC0}\u{FEC1}\u{FEC2}\u{FEC3}\u{FEC4}\u{FEC5}\u{FEC6}\u{FEC7}\u{FEC8}\u{FEC9}\u{FECA}\u{FECB}\u{FECC}\u{FECD}\u{FECE}\u{FECF}\u{FED0}\u{FED1}\u{FED2}\u{FED3}\u{FED4}\u{FED5}\u{FED6}\u{FED7}\u{FED8}\u{FED9}\u{FEDA}\u{FEDB}\u{FEDC}\u{FEDD}\u{FEDE}\u{FEDF}\u{FEE0}\u{FEE1}\u{FEE2}\u{FEE3}\u{FEE4}\u{FEE5}\u{FEE6}\u{FEE7}\u{FEE8}\u{FEE9}\u{FEEA}\u{FEEB}\u{FEEC}\u{FEED}\u{FEEE}\u{FEEF}\u{FEF0}\u{FEF1}\u{FEF2}\u{FEF3}\u{FEF4}\u{FEF5}\u{FEF6}\u{FEF7}\u{FEF8}\u{FEF9}\u{FEFA}\u{FEFB}\u{FEFC}\u{FB50}\u{FB51}\u{FB51}\u{FB50}\u{FB54}\u{FB55}\u{FB53}\u{FB52}\u{FB58}\u{FB59}\u{FB57}\u{FB56}\u{FB5C}\u{FB5D}\u{FB5B}\u{FB5A}\u{FB60}\u{FB61}\u{FB5F}\u{FB5E}\u{FB64}\u{FB65}\u{FB63}\u{FB62}\u{FB68}\u{FB69}\u{FB67}\u{FB66}\u{FB6C}\u{FB6D}\u{FB6B}\u{FB6A}\u{FB70}\u{FB71}\u{FB6F}\u{FB6E}\u{FB74}\u{FB75}\u{FB73}\u{FB72}\u{FB78}\u{FB79}\u{FB77}\u{FB76}\u{FB7C}\u{FB7D}\u{FB7B}\u{FB7A}\u{FB80}\u{FB81}\u{FB7F}\u{FB7E}\u{FB82}\u{FB83}\u{FB83}\u{FB82}\u{FB84}\u{FB85}\u{FB85}\u{FB84}\u{FB86}\u{FB87}\u{FB87}\u{FB86}\u{FB88}\u{FB89}\u{FB89}\u{FB88}\u{FB8A}\u{FB8B}\u{FB8B}\u{FB8A}\u{FB8C}\u{FB8D}\u{FB8D}\u{FB8C}\u{FB90}\u{FB91}\u{FB8F}\u{FB8E}\u{FB94}\u{FB95}\u{FB93}\u{FB92}\u{FB98}\u{FB99}\u{FB97}\u{FB96}\u{FB9C}\u{FB9D}\u{FB9B}\u{FB9A}\u{FBE8}\u{FBE9}\u{FB9F}\u{FB9E}\u{FBA2}\u{FBA3}\u{FBA1}\u{FBA0}\u{FBA4}\u{FBA5}\u{FBA5}\u{FBA4}\u{FBA8}\u{FBA9}\u{FBA7}\u{FBA6}\u{FBAC}\u{FBAD}\u{FBAB}\u{FBAA}\u{FBAE}\u{FBAF}\u{FBAF}\u{FBAE}\u{FBB0}\u{FBB1}\u{FBB1}\u{FBB0}\u{FBD5}\u{FBD6}\u{FBD4}\u{FBD3}\u{FBD7}\u{FBD8}\u{FBD8}\u{FBD7}\u{FBD9}\u{FBDA}\u{FBDA}\u{FBD9}\u{FBDB}\u{FBDC}\u{FBDC}\u{FBDB}\u{FBDE}\u{FBDF}\u{FBDF}\u{FBDE}\u{FBE0}\u{FBE1}\u{FBE1}\u{FBE0}\u{FBE2}\u{FBE3}\u{FBE3}\u{FBE2}\u{FBE6}\u{FBE7}\u{FBE5}\u{FBE4}\u{FBFE}\u{FBFF}\u{FBFD}\u{FBFC}\u{64B}\u{64E}\u{64C}\u{64F}\u{64D}\u{650}\u{651}\u{652}\u{FC5E}\u{FC5F}\u{FC60}\u{FC61}\u{FC62}\u{FC63}\u{FCF2}\u{FCF3}\u{FCF4}\u{FD3C}\u{FD3D}\u{FE70}\u{FE71}\u{FE72}\u{FE74}\u{FE76}\u{FE77}\u{FE78}\u{FE79}\u{FE7A}\u{FE7B}\u{FE7C}\u{FE7D}\u{FE7E}\u{FE7F}\u{FEF5}\u{FEF6}\u{FEF7}\u{FEF8}\u{FEF9}\u{FEFA}\u{FEFB}\u{FEFC}\u{FBEA}\u{FBEB}\u{FBEC}\u{FBED}\u{FBEE}\u{FBEF}\u{FC04}\u{FC69}\u{FBF8}\u{FC03}\u{FC68}\u{FC00}\u{FC01}\u{FC02}\u{FC05}\u{FC06}\u{FC07}\u{FC08}\u{FC09}\u{FC0A}\u{FC0B}\u{FC0C}\u{FC0D}\u{FC0E}\u{FC0F}\u{FC10}\u{FC11}\u{FC12}\u{FC13}\u{FC14}\u{FC15}\u{FC16}\u{FC17}\u{FC18}\u{FC19}\u{FC1A}\u{FC1B}\u{FC1C}\u{FC1D}\u{FC1E}\u{FC1F}\u{FC20}\u{FC21}\u{FC22}\u{FC23}\u{FC24}\u{FC25}\u{FC26}\u{FC27}\u{FC28}\u{FC29}\u{FC2A}\u{FC2B}\u{FC2C}\u{FC2D}\u{FC2E}\u{FC2F}\u{FC30}\u{FC31}\u{FC32}\u{FC33}\u{FC34}\u{FC35}\u{FC36}\u{FC37}\u{FC38}\u{FC39}\u{FC3A}\u{FC3B}\u{FC3C}\u{FC3D}\u{FC3E}\u{FC3F}\u{FC40}\u{FC41}\u{FC42}\u{FC43}\u{FC44}\u{FC45}\u{FC46}\u{FC47}\u{FC48}\u{FC49}\u{FC4A}\u{FC4B}\u{FC4C}\u{FC4D}\u{FC4E}\u{FC4F}\u{FC50}\u{FC51}\u{FC52}\u{FC53}\u{FC54}\u{FC55}\u{FC56}\u{FC57}\u{FC58}\u{FC59}\u{FC5A}\u{FC5E}\u{FC5F}\u{FC60}\u{FC61}\u{FC62}\u{FC64}\u{FC65}\u{FC66}\u{FC67}\u{FC6A}\u{FC6B}\u{FC6C}\u{FC6D}\u{FC6E}\u{FC6F}\u{FC70}\u{FC71}\u{FC72}\u{FC73}\u{FC74}\u{FC75}\u{FC76}\u{FC77}\u{FC78}\u{FC79}\u{FC7A}\u{FC7B}\u{FC7C}\u{FC7D}\u{FC7E}\u{FC7F}\u{FC80}\u{FC81}\u{FC82}\u{FC83}\u{FC84}\u{FC85}\u{FC86}\u{FC87}\u{FC88}\u{FC89}\u{FC8A}\u{FC8B}\u{FC8C}\u{FC8D}\u{FC8E}\u{FC8F}\u{FC91}\u{FC92}\u{FC93}\u{FC94}\u{FC95}\u{FC96}\u{FC97}\u{FC98}\u{FC99}\u{FC9A}\u{FC9B}\u{FC9C}\u{FC9D}\u{FC9E}\u{FC9F}\u{FCA0}\u{FCA1}\u{FCA2}\u{FCA3}\u{FCA4}\u{FCA5}\u{FCE5}\u{FCA7}\u{FCA8}\u{FCA9}\u{FCAA}\u{FCAB}\u{FCAC}\u{FCAD}\u{FCAE}\u{FCAF}\u{FCB0}\u{FCB1}\u{FCB2}\u{FCB3}\u{FCB4}\u{FCB5}\u{FCB6}\u{FCB7}\u{FCB8}\u{FCB9}\u{FCBA}\u{FCBB}\u{FCBC}\u{FCBD}\u{FCBE}\u{FCBF}\u{FCC0}\u{FCC1}\u{FCC2}\u{FCC3}\u{FCC4}\u{FCC5}\u{FCC6}\u{FCC7}\u{FCC8}\u{FCC9}\u{FCCA}\u{FCCB}\u{FCCC}\u{FCCD}\u{FCCE}\u{FCCF}\u{FCD0}\u{FCD1}\u{FCD2}\u{FCD3}\u{FCD4}\u{FCD5}\u{FCD6}\u{FCD7}\u{FCD8}\u{FCDA}\u{FCDB}\u{FCDC}\u{FCDD}\u{FCDE}\u{FCDF}\u{FCE0}\u{FCE1}\u{FCE2}\u{FCE3}\u{FCE4}\u{FCE6}\u{FCE7}\u{FCE8}\u{FCE9}\u{FCEA}\u{FCEB}\u{FCEC}\u{FCED}\u{FCEE}\u{FCEF}\u{FCF0}\u{FCF1}\u{FCF5}\u{FCF6}\u{FCF7}\u{FCF8}\u{FCF9}\u{FCFA}\u{FCFB}\u{FCFC}\u{FCFD}\u{FCFE}\u{FCFF}\u{FD00}\u{FD01}\u{FD02}\u{FD03}\u{FD04}\u{FD05}\u{FD06}\u{FD07}\u{FD08}\u{FD09}\u{FD0A}\u{FD0B}\u{FD0C}\u{FD0D}\u{FD0E}\u{FD0F}\u{FD10}\u{FD11}\u{FD12}\u{FD13}\u{FD14}\u{FD15}\u{FD16}\u{FD17}\u{FD18}\u{FD19}\u{FD1A}\u{FD1B}\u{FD1C}\u{FD1D}\u{FD1E}\u{FD1F}\u{FD20}\u{FD21}\u{FD22}\u{FD23}\u{FD24}\u{FD25}\u{FD26}\u{FD27}\u{FD28}\u{FD29}\u{FD2A}\u{FD2B}\u{FD2C}\u{FD2D}\u{FD2E}\u{FD2F}\u{FD30}\u{FD31}\u{FD32}\u{FD33}\u{FD34}\u{FD35}\u{FD36}\u{FD37}\u{FD38}\u{FD39}\u{FD3A}\u{FD3B}\u{FD3C}\u{FD3D}\u{FD50}\u{FD51}\u{FD52}\u{FD53}\u{FD54}\u{FD55}\u{FD56}\u{FD57}\u{FD58}\u{FD59}\u{FD5A}\u{FD5B}\u{FD5C}\u{FD5D}\u{FD5E}\u{FD5F}\u{FD60}\u{FD61}\u{FD62}\u{FD63}\u{FD64}\u{FD65}\u{FD66}\u{FD67}\u{FD68}\u{FD69}\u{FD6A}\u{FD6B}\u{FD6C}\u{FD6D}\u{FD6E}\u{FD6F}\u{FD70}\u{FD71}\u{FD72}\u{FD73}\u{FD74}\u{FD75}\u{FD76}\u{FD77}\u{FD78}\u{FD79}\u{FD7A}\u{FD7B}\u{FD7C}\u{FD7D}\u{FD7E}\u{FD7F}\u{FD80}\u{FD81}\u{FD82}\u{FD83}\u{FD84}\u{FD80}\u{FD86}\u{FD87}\u{FD88}\u{FD89}\u{FD8A}\u{FD8B}\u{FD8C}\u{FD8D}\u{FD8E}\u{FD8F}\u{FD92}\u{FD93}\u{FD94}\u{FD95}\u{FD96}\u{FD97}\u{FD98}\u{FD99}\u{FD9A}\u{FD9B}\u{FD9C}\u{FD9D}\u{FD9E}\u{FD9F}\u{FDA0}\u{FDA1}\u{FDA2}\u{FDA3}\u{FDA4}\u{FDA5}\u{FDA6}\u{FDA7}\u{FDA8}\u{FDA9}\u{FDAA}\u{FDAB}\u{FDAC}\u{FDAD}\u{FDAE}\u{FDAF}\u{FDB0}\u{FDB1}\u{FDB2}\u{FDB3}\u{FDB4}\u{FDB5}\u{FDB6}\u{FDB7}\u{FDB8}\u{FDB9}\u{FDBA}\u{FDBB}\u{FDBC}\u{FDBD}\u{FDBE}\u{FDBF}\u{FDC0}\u{FDC1}\u{FDC2}\u{FDC3}\u{FDC4}\u{FDC5}\u{FDC6}\u{FDC7}\u{FDF2}\u{FDF3}\u{FDF4}\u{FDF5}\u{FDF6}\u{FDFA}\u{FDF7}\u{FDF8}\u{FDF9}\u{FDFB}\u{FDFC}\u{FDFD}()<>[]{}\u{2768}\u{2769}\u{276A}\u{276B}\u{276C}\u{276D}\u{276E}\u{276F}\u{2770}\u{2771}\u{2772}\u{2773}\u{2774}\u{2775}\u{27C5}\u{27C6}\u{27E6}\u{27E7}\u{27E8}\u{27E9}\u{27EA}\u{27EB}\u{27EC}\u{27ED}\u{27EE}\u{27EF}\u{2985}\u{2986}\u{298B}\u{298C}\u{298D}\u{298E}\u{2991}\u{2992}\u{2997}\u{2998}\u{29FC}\u{29FD}\u{3008}\u{3009}\u{300A}\u{300B}\u{300C}\u{300D}\u{300E}\u{300F}\u{3010}\u{3011}\u{3014}\u{3015}\u{3016}\u{3017}\u{3018}\u{3019}\u{301A}\u{301B}\u{FF1C}\u{FF1E}"@
}

/// The characters that go with an Arabic run on either side: line breaks
/// and neutral symbols.
pub open spec fn natural_chars() -> Seq<char> {
    "\u{D}\u{A} !*+-.:=|~\"'#$%&"@
}

/// The pattern of the runs that a right-to-left reading turns around: a
/// stretch of Arabic and neutral characters holding some Arabic character,
/// or the neutral characters that end the text.
pub open spec fn rtl_pattern() -> Seq<char> {
    "(["@ + regex_escaped(full_arabic()) + regex_escaped(natural_chars()) + "]*["@ + regex_escaped(
        full_arabic(),
    ) + "]["@ + regex_escaped(full_arabic()) + regex_escaped(natural_chars()) + "]*)|(["@
        + regex_escaped(natural_chars()) + "]*$)"@
}

/// Builds the pattern of right-to-left runs.
fn rtl_pattern_exec() -> (p: String)
    ensures
        p@ == rtl_pattern(),
{
    let full = fix_for_regex_chars(&str_chars("\u{671}\u{67B}\u{67E}\u{680}\u{67A}\u{67F}\u{679}\u{6A4}\u{6A6}\u{684}\u{683}\u{686}\u{687}\u{68D}\u{68C}\u{68E}\u{688}\u{698}\u{691}\u{6A9}\u{6AF}\u{6B3}\u{6B1}\u{6BA}\u{6BB}\u{6C0}\u{6C1}\u{6BE}\u{6D2}\u{6D3}\u{6AD}\u{6C7}\u{6C6}\u{6C8}\u{6CB}\u{6C5}\u{6C9}\u{6D0}\u{6CC}\u{621}\u{622}\u{623}\u{624}\u{625}\u{626}\u{627}\u{628}\u{629}\u{62A}\u{62B}\u{62C}\u{62D}\u{62E}\u{62F}\u{630}\u{631}\u{632}\u{633}\u{634}\u{635}\u{636}\u{637}\u{638}\u{639}\u{63A}\u{641}\u{642}\u{643}\u{644}\u{645}\u{646}\u{647}\u{648}\u{649}\u{64A}\u{640}\u{61F}\u{60C}\u{61B}\u{640}\u{FE80}\u{FE81}\u{FE82}\u{FE83}\u{FE84}\u{FE85}\u{FE86}\u{FE87}\u{FE88}\u{FE89}\u{FE8A}\u{FE8B}\u{FE8C}\u{FE8D}\u{FE8E}\u{FE8F}\u{FE90}\u{FE91}\u{FE92}\u{FE93}\u{FE94}\u{FE95}\u{FE96}\u{FE97}\u{FE98}\u{FE99}\u{FE9A}\u{FE9B}\u{FE9C}\u{FE9D}\u{FE9E}\u{FE9F}\u{FEA0}\u{FEA1}\u{FEA2}\u{FEA3}\u{FEA4}\u{FEA5}\u{FEA6}\u{FEA7}\u{FEA8}\u{FEA9}\u{FEAA}\u{FEAB}\u{FEAC}\u{FEAD}\u{FEAE}\u{FEAF}\u{FEB0}\u{FEB1}\u{FEB2}\u{FEB3}\u{FEB4}\u{FEB5}\u{FEB6}\u{FEB7}\u{FEB8}\u{FEB9}\u{FEBA}\u{FEBB}\u{FEBC}\u{FEBD}\u{FEBE}\u{FEBF}\u{FEC0}\u{FEC1}\u{FEC2}\u{FEC3}\u{FEC4}\u{FEC5}\u{FEC6}\u{FEC7}\u{FEC8}\u{FEC9}\u{FECA}\u{FECB}\u{FECC}\u{FECD}\u{FECE}\u{FECF}\u{FED0}\u{FED1}\u{FED2}\u{FED3}\u{FED4}\u{FED5}\u{FED6}\u{FED7}\u{FED8}\u{FED9}\u{FEDA}\u{FEDB}\u{FEDC}\u{FEDD}\u{FEDE}\u{FEDF}\u{FEE0}\u{FEE1}\u{FEE2}\u{FEE3}\u{FEE4}\u{FEE5}\u{FEE6}\u{FEE7}\u{FEE8}\u{FEE9}\u{FEEA}\u{FEEB}\u{FEEC}\u{FEED}\u{FEEE}\u{FEEF}\u{FEF0}\u{FEF1}\u{FEF2}\u{FEF3}\u{FEF4}\u{FEF5}\u{FEF6}\u{FEF7}\u{FEF8}\u{FEF9}\u{FEFA}\u{FEFB}\u{FEFC}\u{FB50}\u{FB51}\u{FB51}\u{FB50}\u{FB54}\u{FB55}\u{FB53}\u{FB52}\u{FB58}\u{FB59}\u{FB57}\u{FB56}\u{FB5C}\u{FB5D}\u{FB5B}\u{FB5A}\u{FB60}\u{FB61}\u{FB5F}\u{FB5E}\u{FB64}\u{FB65}\u{FB63}\u{FB62}\u{FB68}\u{FB69}\u{FB67}\u{FB66}\u{FB6C}\u{FB6D}\u{FB6B}\u{FB6A}\u{FB70}\u{FB71}\u{FB6F}\u{FB6E}\u{FB74}\u{FB75}\u{FB73}\u{FB72}\u{FB78}\u{FB79}\u{FB77}\u{FB76}\u{FB7C}\u{FB7D}\u{FB7B}\u{FB7A}\u{FB80}\u{FB81}\u{FB7F}\u{FB7E}\u{FB82}\u{FB83}\u{FB83}\u{FB82}\u{FB84}\u{FB85}\u{FB85}\u{FB84}\u{FB86}\u{FB87}\u{FB87}\u{FB86}\u{FB88}\u{FB89}\u{FB89}\u{FB88}\u{FB8A}\u{FB8B}\u{FB8B}\u{FB8A}\u{FB8C}\u{FB8D}\u{FB8D}\u{FB8C}\u{FB90}\u{FB91}\u{FB8F}\u{FB8E}\u{FB94}\u{FB95}\u{FB93}\u{FB92}\u{FB98}\u{FB99}\u{FB97}\u{FB96}\u{FB9C}\u{FB9D}\u{FB9B}\u{FB9A}\u{FBE8}\u{FBE9}\u{FB9F}\u{FB9E}\u{FBA2}\u{FBA3}\u{FBA1}\u{FBA0}\u{FBA4}\u{FBA5}\u{FBA5}\u{FBA4}\u{FBA8}\u{FBA9}\u{FBA7}\u{FBA6}\u{FBAC}\u{FBAD}\u{FBAB}\u{FBAA}\u{FBAE}\u{FBAF}\u{FBAF}\u{FBAE}\u{FBB0}\u{FBB1}\u{FBB1}\u{FBB0}\u{FBD5}\u{FBD6}\u{FBD4}\u{FBD3}\u{FBD7}\u{FBD8}\u{FBD8}\u{FBD7}\u{FBD9}\u{FBDA}\u{FBDA}\u{FBD9}\u{FBDB}\u{FBDC}\u{FBDC}\u{FBDB}\u{FBDE}\u{FBDF}\u{FBDF}\u{FBDE}\u{FBE0}\u{FBE1}\u{FBE1}\u{FBE0}\u{FBE2}\u{FBE3}\u{FBE3}\u{FBE2}\u{FBE6}\u{FBE7}\u{FBE5}\u{FBE4}\u{FBFE}\u{FBFF}\u{FBFD}\u{FBFC}\u{64B}\u{64E}\u{64C}\u{64F}\u{64D}\u{650}\u{651}\u{652}\u{FC5E}\u{FC5F}\u{FC60}\u{FC61}\u{FC62}\u{FC63}\u{FCF2}\u{FCF3}\u{FCF4}\u{FD3C}\u{FD3D}\u{FE70}\u{FE71}\u{FE72}\u{FE74}\u{FE76}\u{FE77}\u{FE78}\u{FE79}\u{FE7A}\u{FE7B}\u{FE7C}\u{FE7D}\u{FE7E}\u{FE7F}\u{FEF5}\u{FEF6}\u{FEF7}\u{FEF8}\u{FEF9}\u{FEFA}\u{FEFB}\u{FEFC}\u{FBEA}\u{FBEB}\u{FBEC}\u{FBED}\u{FBEE}\u{FBEF}\u{FC04}\u{FC69}\u{FBF8}\u{FC03}\u{FC68}\u{FC00}\u{FC01}\u{FC02}\u{FC05}\u{FC06}\u{FC07}\u{FC08}\u{FC09}\u{FC0A}\u{FC0B}\u{FC0C}\u{FC0D}\u{FC0E}\u{FC0F}\u{FC10}\u{FC11}\u{FC12}\u{FC13}\u{FC14}\u{FC15}\u{FC16}\u{FC17}\u{FC18}\u{FC19}\u{FC1A}\u{FC1B}\u{FC1C}\u{FC1D}\u{FC1E}\u{FC1F}\u{FC20}\u{FC21}\u{FC22}\u{FC23}\u{FC24}\u{FC25}\u{FC26}\u{FC27}\u{FC28}\u{FC29}\u{FC2A}\u{FC2B}\u{FC2C}\u{FC2D}\u{FC2E}\u{FC2F}\u{FC30}\u{FC31}\u{FC32}\u{FC33}\u{FC34}\u{FC35}\u{FC36}\u{FC37}\u{FC38}\u{FC39}\u{FC3A}\u{FC3B}\u{FC3C}\u{FC3D}\u{FC3E}\u{FC3F}\u{FC40}\u{FC41}\u{FC42}\u{FC43}\u{FC44}\u{FC45}\u{FC46}\u{FC47}\u{FC48}\u{FC49}\u{FC4A}\u{FC4B}\u{FC4C}\u{FC4D}\u{FC4E}\u{FC4F}\u{FC50}\u{FC51}\u{FC52}\u{FC53}\u{FC54}\u{FC55}\u{FC56}\u{FC57}\u{FC58}\u{FC59}\u{FC5A}\u{FC5E}\u{FC5F}\u{FC60}\u{FC61}\u{FC62}\u{FC64}\u{FC65}\u{FC66}\u{FC67}\u{FC6A}\u{FC6B}\u{FC6C}\u{FC6D}\u{FC6E}\u{FC6F}\u{FC70}\u{FC71}\u{FC72}\u{FC73}\u{FC74}\u{FC75}\u{FC76}\u{FC77}\u{FC78}\u{FC79}\u{FC7A}\u{FC7B}\u{FC7C}\u{FC7D}\u{FC7E}\u{FC7F}\u{FC80}\u{FC81}\u{FC82}\u{FC83}\u{FC84}\u{FC85}\u{FC86}\u{FC87}\u{FC88}\u{FC89}\u{FC8A}\u{FC8B}\u{FC8C}\u{FC8D}\u{FC8E}\u{FC8F}\u{FC91}\u{FC92}\u{FC93}\u{FC94}\u{FC95}\u{FC96}\u{FC97}\u{FC98}\u{FC99}\u{FC9A}\u{FC9B}\u{FC9C}\u{FC9D}\u{FC9E}\u{FC9F}\u{FCA0}\u{FCA1}\u{FCA2}\u{FCA3}\u{FCA4}\u{FCA5}\u{FCE5}\u{FCA7}\u{FCA8}\u{FCA9}\u{FCAA}\u{FCAB}\u{FCAC}\u{FCAD}\u{FCAE}\u{FCAF}\u{FCB0}\u{FCB1}\u{FCB2}\u{FCB3}\u{FCB4}\u{FCB5}\u{FCB6}\u{FCB7}\u{FCB8}\u{FCB9}\u{FCBA}\u{FCBB}\u{FCBC}\u{FCBD}\u{FCBE}\u{FCBF}\u{FCC0}\u{FCC1}\u{FCC2}\u{FCC3}\u{FCC4}\u{FCC5}\u{FCC6}\u{FCC7}\u{FCC8}\u{FCC9}\u{FCCA}\u{FCCB}\u{FCCC}\u{FCCD}\u{FCCE}\u{FCCF}\u{FCD0}\u{FCD1}\u{FCD2}\u{FCD3}\u{FCD4}\u{FCD5}\u{FCD6}\u{FCD7}\u{FCD8}\u{FCDA}\u{FCDB}\u{FCDC}\u{FCDD}\u{FCDE}\u{FCDF}\u{FCE0}\u{FCE1}\u{FCE2}\u{FCE3}\u{FCE4}\u{FCE6}\u{FCE7}\u{FCE8}\u{FCE9}\u{FCEA}\u{FCEB}\u{FCEC}\u{FCED}\u{FCEE}\u{FCEF}\u{FCF0}\u{FCF1}\u{FCF5}\u{FCF6}\u{FCF7}\u{FCF8}\u{FCF9}\u{FCFA}\u{FCFB}\u{FCFC}\u{FCFD}\u{FCFE}\u{FCFF}\u{FD00}\u{FD01}\u{FD02}\u{FD03}\u{FD04}\u{FD05}\u{FD06}\u{FD07}\u{FD08}\u{FD09}\u{FD0A}\u{FD0B}\u{FD0C}\u{FD0D}\u{FD0E}\u{FD0F}\u{FD10}\u{FD11}\u{FD12}\u{FD13}\u{FD14}\u{FD15}\u{FD16}\u{FD17}\u{FD18}\u{FD19}\u{FD1A}\u{FD1B}\u{FD1C}\u{FD1D}\u{FD1E}\u{FD1F}\u{FD20}\u{FD21}\u{FD22}\u{FD23}\u{FD24}\u{FD25}\u{FD26}\u{FD27}\u{FD28}\u{FD29}\u{FD2A}\u{FD2B}\u{FD2C}\u{FD2D}\u{FD2E}\u{FD2F}\u{FD30}\u{FD31}\u{FD32}\u{FD33}\u{FD34}\u{FD35}\u{FD36}\u{FD37}\u{FD38}\u{FD39}\u{FD3A}\u{FD3B}\u{FD3C}\u{FD3D}\u{FD50}\u{FD51}\u{FD52}\u{FD53}\u{FD54}\u{FD55}\u{FD56}\u{FD57}\u{FD58}\u{FD59}\u{FD5A}\u{FD5B}\u{FD5C}\u{FD5D}\u{FD5E}\u{FD5F}\u{FD60}\u{FD61}\u{FD62}\u{FD63}\u{FD64}\u{FD65}\u{FD66}\u{FD67}\u{FD68}\u{FD69}\u{FD6A}\u{FD6B}\u{FD6C}\u{FD6D}\u{FD6E}\u{FD6F}\u{FD70}\u{FD71}\u{FD72}\u{FD73}\u{FD74}\u{FD75}\u{FD76}\u{FD77}\u{FD78}\u{FD79}\u{FD7A}\u{FD7B}\u{FD7C}\u{FD7D}\u{FD7E}\u{FD7F}\u{FD80}\u{FD81}\u{FD82}\u{FD83}\u{FD84}\u{FD80}\u{FD86}\u{FD87}\u{FD88}\u{FD89}\u{FD8A}\u{FD8B}\u{FD8C}\u{FD8D}\u{FD8E}\u{FD8F}\u{FD92}\u{FD93}\u{FD94}\u{FD95}\u{FD96}\u{FD97}\u{FD98}\u{FD99}\u{FD9A}\u{FD9B}\u{FD9C}\u{FD9D}\u{FD9E}\u{FD9F}\u{FDA0}\u{FDA1}\u{FDA2}\u{FDA3}\u{FDA4}\u{FDA5}\u{FDA6}\u{FDA7}\u{FDA8}\u{FDA9}\u{FDAA}\u{FDAB}\u{FDAC}\u{FDAD}\u{FDAE}\u{FDAF}\u{FDB0}\u{FDB1}\u{FDB2}\u{FDB3}\u{FDB4}\u{FDB5}\u{FDB6}\u{FDB7}\u{FDB8}\u{FDB9}\u{FDBA}\u{FDBB}\u{FDBC}\u{FDBD}\u{FDBE}\u{FDBF}\u{FDC0}\u{FDC1}\u{FDC2}\u{FDC3}\u{FDC4}\u{FDC5}\u{FDC6}\u{FDC7}\u{FDF2}\u{FDF3}\u{FDF4}\u{FDF5}\u{FDF6}\u{FDFA}\u{FDF7}\u{FDF8}\u{FDF9}\u{FDFB}\u{FDFC}\u{FDFD}()<>[]{}\u{2768}\u{2769}\u{276A}\u{276B}\u{276C}\u{276D}\u{276E}\u{276F}\u{2770}\u{2771}\u{2772}\u{2773}\u{2774}\u{2775}\u{27C5}\u{27C6}\u{27E6}\u{27E7}\u{27E8}\u{27E9}\u{27EA}\u{27EB}\u{27EC}\u{27ED}\u{27EE}\u{27EF}\u{2985}\u{2986}\u{298B}\u{298C}\u{298D}\u{298E}\u{2991}\u{2992}\u{2997}\u{2998}\u{29FC}\u{29FD}\u{3008}\u{3009}\u{300A}\u{300B}\u{300C}\u{300D}\u{300E}\u{300F}\u{3010}\u{3011}\u{3014}\u{3015}\u{3016}\u{3017}\u{3018}\u{3019}\u{301A}\u{301B}\u{FF1C}\u{FF1E}"));
    let neutral = fix_for_regex_chars(&str_chars("\u{D}\u{A} !*+-.:=|~\"'#$%&"));
    let mut p = str_chars("([");
    crate::text::push_all(&mut p, &full);
    crate::text::push_all(&mut p, &neutral);
    crate::text::push_all(&mut p, &str_chars("]*["));
    crate::text::push_all(&mut p, &full);
    crate::text::push_all(&mut p, &str_chars("]["));
    crate::text::push_all(&mut p, &full);
    crate::text::push_all(&mut p, &neutral);
    crate::text::push_all(&mut p, &str_chars("]*)|(["));
    crate::text::push_all(&mut p, &neutral);
    crate::text::push_all(&mut p, &str_chars("]*$)"));
    string_from_chars(&p)
}

/// The character spans of the matches.
pub open spec fn match_spans(t: Seq<char>, ms: Seq<Seq<Option<(usize, usize)>>>) -> Seq<(int, int)> {
    ms.map_values(
        |m: Seq<Option<(usize, usize)>>|
            (char_index_of(t, m[0].unwrap().0 as int), char_index_of(t, m[0].unwrap().1 as int)),
    )
}

/// The text from `last` on with each run turned around and put, together
/// with the text before it, in front of what follows.
pub open spec fn reassembled(t: Seq<char>, ms: Seq<(int, int)>, last: int) -> Seq<char>
    decreases ms.len(),
{
    if ms.len() == 0 {
        t.subrange(last, t.len() as int)
    } else {
        reassembled(t, ms.drop_first(), ms[0].1) + t.subrange(ms[0].0, ms[0].1).reverse()
            + t.subrange(last, ms[0].0)
    }
}

/// The runs, and the text from `last` on reassembled around them.
fn reassemble(t: &Vec<char>, ms: &Vec<(usize, usize)>) -> (r: Vec<char>)
    requires
        forall|k: int| 0 <= k < ms@.len() ==> (#[trigger] ms@[k]).0 <= ms@[k].1 <= t@.len(),
        forall|k: int| 0 < k < ms@.len() ==> ms@[k - 1].1 <= (#[trigger] ms@[k]).0,
    ensures
        r@ == reassembled(t@, span_views(ms@), 0),
{
    let ghost all = span_views(ms@);
    let mut acc: Vec<char> = Vec::new();
    let mut last: usize = 0;
    let mut k: usize = 0;
    assert(all.skip(0) =~= all);
    assert(reassembled(t@, all, 0) + acc@ =~= reassembled(t@, all, 0));
    while k < ms.len()
        invariant
            k <= ms@.len(),
            all == span_views(ms@),
            forall|j: int| 0 <= j < ms@.len() ==> (#[trigger] ms@[j]).0 <= ms@[j].1 <= t@.len(),
            forall|j: int| 0 < j < ms@.len() ==> ms@[j - 1].1 <= (#[trigger] ms@[j]).0,
            k == 0 ==> last == 0,
            k > 0 ==> last == ms@[k - 1].1,
            last <= t@.len(),
            reassembled(t@, all.skip(k as int), last as int) + acc@ == reassembled(t@, all, 0),
        decreases ms@.len() - k,
    {
        let (s, e) = ms[k];
        let mut piece = reverse_chars(&crate::text::slice_chars(t, s, e));
        crate::text::push_all(&mut piece, &crate::text::slice_chars(t, last, s));
        let ghost rest = all.skip(k as int);
        assert(rest.drop_first() =~= all.skip(k + 1));
        assert(rest[0] == (s as int, e as int));
        let ghost before = acc@;
        let mut next = piece;
        crate::text::push_all(&mut next, &acc);
        acc = next;
        assert(reassembled(t@, rest, last as int) == reassembled(t@, all.skip(k + 1), e as int)
            + (t@.subrange(s as int, e as int).reverse() + t@.subrange(last as int, s as int)));
        assert(reassembled(t@, all.skip(k + 1), e as int) + acc@ =~= reassembled(t@, rest, last as int)
            + before);
        last = e;
        k += 1;
    }
    assert(all.skip(k as int) =~= Seq::<(int, int)>::empty());
    let mut r = crate::text::slice_chars(t, last, t.len());
    crate::text::push_all(&mut r, &acc);
    r
}

/// Spans with integer ends.
pub open spec fn span_views(ms: Seq<(usize, usize)>) -> Seq<(int, int)> {
    ms.map_values(|m: (usize, usize)| (m.0 as int, m.1 as int))
}

/// What reversing gives with the matches found: each match turned around
/// and put, with the text before it, in front of what follows, the pieces
/// so taken in reverse order, and the brackets mirrored.
pub open spec fn runs_reversed(t: Seq<char>, ms: Seq<Seq<Option<(usize, usize)>>>) -> Seq<char> {
    mirrored(reassembled(t, match_spans(t, ms), 0))
}

/// The matches lie in the text as the search places them.
#[verifier::opaque]
spec fn placed(t: Seq<char>, ms: Seq<Seq<Option<(usize, usize)>>>) -> bool {
    well_placed(t, ms)
}

/// A match found in the text: its group 0 lies on character boundaries,
/// its character span is ordered and within the text, and it starts no
/// earlier than the match before it ends.
proof fn lemma_placed_match(t: Seq<char>, ms: Seq<Seq<Option<(usize, usize)>>>, i: int)
    requires
        placed(t, ms),
        0 <= i < ms.len(),
    ensures
        ms[i].len() >= 1,
        ms[i][0] is Some,
        is_char_offset(t, ms[i][0].unwrap().0 as int),
        is_char_offset(t, ms[i][0].unwrap().1 as int),
        match_spans(t, ms)[i].0 <= match_spans(t, ms)[i].1 <= t.len(),
        i > 0 ==> match_spans(t, ms)[i - 1].1 <= match_spans(t, ms)[i].0,
{
    reveal(placed);
    let m = ms[i][0].unwrap();
    lemma_char_index_of_mono(t, m.0 as int, m.1 as int);
    let k = char_index_of(t, m.1 as int);
    assert(0 <= k <= t.len());
    if i > 0 {
        assert(ms[i - 1].len() >= 1 && ms[i - 1][0] is Some);
        let p = ms[i - 1][0].unwrap();
        assert(p.1 <= m.0);
        lemma_char_index_of_mono(t, p.1 as int, m.0 as int);
    }
}

/// The character spans of matches the search placed lie in the text, each
/// ordered, one after another.
pub proof fn lemma_match_spans_ordered(t: Seq<char>, ms: Seq<Seq<Option<(usize, usize)>>>)
    requires
        well_placed(t, ms),
    ensures
        match_spans(t, ms).len() == ms.len(),
        forall|k: int|
            0 <= k < ms.len() ==> 0 <= (#[trigger] match_spans(t, ms)[k]).0 <= match_spans(t, ms)[k].1
                <= t.len(),
        forall|k: int|
            0 < k < ms.len() ==> match_spans(t, ms)[k - 1].1 <= (#[trigger] match_spans(t, ms)[k]).0,
{
    reveal(placed);
    assert forall|k: int| 0 <= k < ms.len() implies 0 <= (#[trigger] match_spans(t, ms)[k]).0
        <= match_spans(t, ms)[k].1 <= t.len() by {
        lemma_placed_match(t, ms, k);
        let m = ms[k][0].unwrap();
        let j = choose|j: int| 0 <= j <= t.len() && #[trigger] crate::offsets::utf8_len(t.take(j)) == m.0 as int;
        assert(0 <= char_index_of(t, m.0 as int));
    }
    assert forall|k: int| 0 < k < ms.len() implies match_spans(t, ms)[k - 1].1 <= (#[trigger] match_spans(
        t,
        ms,
    )[k]).0 by {
        lemma_placed_match(t, ms, k);
    }
}

/// Turns the matched runs around, puts the pieces in reverse order, and
/// mirrors the brackets.
pub fn reverse_runs(text: &str, ms: &Vec<Vec<Option<(usize, usize)>>>) -> (r: String)
    requires
        well_placed(text@, group_views(ms@)),
    ensures
        r@ == runs_reversed(text@, group_views(ms@)),
{
    let t = str_chars(text);
    let ghost msv = group_views(ms@);
    let ghost want = match_spans(t@, msv);
    let mut sp: Vec<(usize, usize)> = Vec::new();
    let mut i: usize = 0;
    proof {
        reveal(placed);
    }
    while i < ms.len()
        invariant
            t@ == text@,
            msv == group_views(ms@),
            want == match_spans(t@, msv),
            placed(t@, msv),
            i <= ms@.len(),
            want.len() == ms@.len(),
            sp@.len() == i,
            span_views(sp@) == want.take(i as int),
            forall|k: int| 0 <= k < sp@.len() ==> (#[trigger] sp@[k]).0 <= sp@[k].1 <= t@.len(),
            forall|k: int| 0 < k < sp@.len() ==> sp@[k - 1].1 <= (#[trigger] sp@[k]).0,
        decreases ms@.len() - i,
    {
        assert(msv[i as int] == ms@[i as int]@);
        proof {
            lemma_placed_match(t@, msv, i as int);
        }
        let (b0, b1) = match ms[i][0] {
            Some(x) => x,
            None => (0, 0),
        };
        let s0 = char_index(&t, b0);
        let s1 = char_index(&t, b1);
        proof {
            if i > 0 {
                assert(span_views(sp@)[i - 1] == want.take(i as int)[i - 1]);
                assert(span_views(sp@)[i - 1] == (sp@[i - 1].0 as int, sp@[i - 1].1 as int));
                assert(sp@[i - 1].1 == want[i - 1].1);
            }
        }
        let ghost before = span_views(sp@);
        sp.push((s0, s1));
        assert(span_views(sp@) =~= before.push((s0 as int, s1 as int)));
        assert(want.take(i + 1) =~= want.take(i as int).push(want[i as int]));
        i += 1;
    }
    assert(want.take(i as int) =~= want);
    let joined = reassemble(&t, &sp);
    string_from_chars(&reverse_brackets_chars(&joined))
}

/// Whether the run pattern can be searched for in the text.
pub open spec fn rtl_searchable(t: Seq<char>) -> bool {
    regex_search(rtl_pattern(), t) is Some
}

/// Turns the runs of right-to-left text around, puts the pieces in reverse
/// order, and mirrors the brackets: a line stored in reading order comes out
/// in display order, and back.
pub fn reverse_arabic(text: &str) -> (r: String)
    requires
        rtl_searchable(text@),
    ensures
        r@ == runs_reversed(text@, regex_search(rtl_pattern(), text@).unwrap()),
{
    let p = rtl_pattern_exec();
    match regex_captures(p.as_str(), text) {
        Some(ms) => reverse_runs(text, &ms),
        None => String::new(),
    }
}

/// The text reversed as `reverse_arabic` does, or nothing when the run
/// pattern cannot be searched for.
pub fn try_reverse_arabic(text: &str) -> (r: Option<String>)
    ensures
        r is Some <==> rtl_searchable(text@),
        r matches Some(s) ==> s@ == runs_reversed(text@, regex_search(rtl_pattern(), text@).unwrap()),
{
    let p = rtl_pattern_exec();
    match regex_captures(p.as_str(), text) {
        Some(_) => Some(reverse_arabic(text)),
        None => None,
    }
}

} // verus!
