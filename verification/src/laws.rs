//! Properties that hold across the library's operations: what one call
//! undoes of another, and what completing a table keeps.
use vstd::prelude::*;
use vstd::utf8::{encode_utf8, is_ascii_chars, is_ascii_chars_encode_utf8};
use crate::arabic::{frozen, unfrozen, frozen_char, form_index, mirrored, mirror_char,
    without_marks, offset_prefix, insert_clamped, compressed, uncompressed, base_before, base_from};
use crate::convert::{hex_decoded, upper_hex, upper_hex_digit, hex_digits_value, radix16, code_unit,
    unicode_encoded, in_basic_plane, unicode_chunks_ok, unicode_decoded, unicode_chunk, unit_value,
    is_scalar_code};
use crate::offsets::{utf8_len, is_char_offset, char_index_of, lemma_char_index_of};
use crate::text::repeat;
use crate::numbers::parsed_isize;
use crate::maps::{keys_unique, has_key, lookup, insert_entry, copy_key, complete_forms,
    lemma_insert_entry, key_index, lemma_key_index};
use crate::outside::{hex_lower, lower_hex_digit, hex_pairs, hex_digit_value};
use crate::tables::{spec_presentation_forms, spec_letter_of_form, spec_mirrored_bracket,
    spec_is_haraka, shaped_letters, spec_ligature_letters, spec_connects, spec_connects_both};
use crate::utils::{swapped, insert_desc, sort_desc};
use crate::cipher::{is_alnum, is_space, alnum_end, word_end, tbl_at, tbl_first, tbl_pairs, hex_entries,
    tbl_table, tbl_lines, lemma_runs_bounded, lemma_tbl_first};
use crate::text::{join, split, split_from, matches_at};

verus! {

// ---------------------------------------------------------------- reversing

/// Reversing a text twice gives it back.
pub proof fn lemma_reverse_text_twice(t: Seq<char>)
    ensures
        t.reverse().reverse() == t,
{
    assert(t.reverse().reverse() =~= t);
}

/// Each bracket's mirror is a bracket that mirrors back to it.
proof fn lemma_mirror_pair(c: char)
    ensures
        spec_mirrored_bracket(c) matches Some(m) ==> m != '\0' && spec_mirrored_bracket(m) == Some(c),
{
}

/// Turning the brackets of a text without U+0000 around twice gives it
/// back.
pub proof fn lemma_reverse_brackets_twice(t: Seq<char>)
    requires
        forall|i: int| 0 <= i < t.len() ==> t[i] != '\0',
    ensures
        mirrored(mirrored(t)) == t,
{
    assert forall|i: int| 0 <= i < t.len() implies mirror_char(mirror_char(t[i])) == t[i] by {
        lemma_mirror_pair(t[i]);
    }
    assert(mirrored(mirrored(t)) =~= t);
}

// ---------------------------------------------------------------- shaping

/// Each presentation form of a letter belongs to that letter.
#[verifier::rlimit(100)]
pub(crate) proof fn lemma_form_letter(c: char)
    ensures
        spec_presentation_forms(c) matches Some(f) ==> {
            &&& spec_letter_of_form(f.0) == Some(c)
            &&& spec_letter_of_form(f.1) == Some(c)
            &&& spec_letter_of_form(f.2) == Some(c)
            &&& spec_letter_of_form(f.3) == Some(c)
        },
{
}

/// Writing a text's letters in their presentation forms and then back as
/// letters gives the text back, when the text holds no presentation form.
pub proof fn lemma_unfreeze_freeze(t: Seq<char>)
    requires
        forall|i: int| 0 <= i < t.len() ==> spec_letter_of_form(#[trigger] t[i]) is None,
    ensures
        unfrozen(frozen(t)) == t,
{
    assert forall|i: int| 0 <= i < t.len() implies (match spec_letter_of_form(
        #[trigger] frozen(t)[i],
    ) {
        Some(c) => c,
        None => frozen(t)[i],
    }) == t[i] by {
        lemma_form_letter(t[i]);
        assert(frozen(t)[i] == frozen_char(t, i));
        let k = form_index(t, i);
        assert(0 <= k < 4);
    }
    assert(unfrozen(frozen(t)) =~= t);
}

/// Freezing keeps the length, leaves every character without presentation
/// forms as it is, and writes a letter that has them in the form its
/// neighbours call for: marks are looked past; the letter joins the one
/// before when that one joins on both sides and this one joins back, and
/// joins the one after when that one joins back; isolated, final (joined
/// before only), initial (joined after only), or medial (joined on both
/// sides).
pub proof fn lemma_freeze_forms(t: Seq<char>, i: int)
    requires
        0 <= i < t.len(),
    ensures
        frozen(t).len() == t.len(),
        spec_presentation_forms(t[i]) is None ==> frozen(t)[i] == t[i],
        spec_presentation_forms(t[i]) matches Some(f) ==> {
            let before = spec_connects_both(base_before(t, i)) && spec_connects(t[i]);
            let after = spec_connects(base_from(t, i + 1));
            frozen(t)[i] == if before && after {
                f.3
            } else if after {
                f.2
            } else if before {
                f.1
            } else {
                f.0
            }
        },
{
    assert(frozen(t)[i] == frozen_char(t, i));
}

// ---------------------------------------------------------------- marks

/// Deleting the marks leaves no mark.
pub proof fn lemma_del_harakat_leaves_no_mark(t: Seq<char>)
    ensures
        forall|i: int| 0 <= i < without_marks(t).len() ==> !spec_is_haraka(#[trigger] without_marks(t)[i]),
{
    broadcast use vstd::seq_lib::group_filter_ensures;

}

/// The marks of the first `i` characters put back at their own positions
/// give the text up to `i`, then the rest of it without marks.
proof fn lemma_offset_zero_prefix(t: Seq<char>, i: nat)
    requires
        i <= t.len(),
    ensures
        offset_prefix(t, 0, i) == t.take(i as int) + without_marks(t.skip(i as int)),
    decreases i,
{
    let p = |c: char| !spec_is_haraka(c);
    if i == 0 {
        assert(t.skip(0) =~= t);
        assert(t.take(0) =~= Seq::<char>::empty());
        assert(Seq::<char>::empty() + without_marks(t) =~= without_marks(t));
    } else {
        let j = (i - 1) as nat;
        lemma_offset_zero_prefix(t, j);
        let c = t[j as int];
        assert(t.skip(j as int) =~= seq![c] + t.skip(i as int));
        t.skip(i as int).lemma_filter_prepend(c, p);
        assert(without_marks(t.skip(j as int)) == (if p(c) {
            seq![c]
        } else {
            Seq::empty()
        }) + without_marks(t.skip(i as int)));
        let before = offset_prefix(t, 0, j);
        if spec_is_haraka(c) {
            assert(before =~= t.take(j as int) + without_marks(t.skip(i as int)));
            assert(insert_clamped(before, j as int, c) =~= t.take(i as int) + without_marks(
                t.skip(i as int),
            ));
        } else {
            assert(before =~= t.take(i as int) + without_marks(t.skip(i as int)));
        }
    }
}

/// Moving the marks by no position gives the text back.
pub proof fn lemma_offset_harakat_zero(t: Seq<char>)
    ensures
        offset_prefix(t, 0, t.len()) == t,
{
    lemma_offset_zero_prefix(t, t.len());
    assert(t.skip(t.len() as int) =~= Seq::<char>::empty());
    assert(without_marks(Seq::<char>::empty()) =~= Seq::<char>::empty()) by {
        reveal(Seq::filter);
    }
    assert(t.take(t.len() as int) + Seq::<char>::empty() =~= t);
}

// ---------------------------------------------------------------- hexadecimal

/// The hexadecimal digits of bytes are ASCII.
proof fn lemma_hex_lower_ascii(b: Seq<u8>)
    ensures
        is_ascii_chars(hex_lower(b)),
    decreases b.len(),
{
    if b.len() > 0 {
        lemma_hex_lower_ascii(b.drop_last());
        let x = b.last();
        let two = seq![lower_hex_digit(x as int / 16), lower_hex_digit(x as int % 16)];
        assert(hex_lower(b) == hex_lower(b.drop_last()) + two);
        assert forall|i: int| 0 <= i < hex_lower(b).len() implies '\0' <= #[trigger] hex_lower(b)[i]
            <= '\u{7f}' by {
            if i < hex_lower(b.drop_last()).len() {
                assert(hex_lower(b)[i] == hex_lower(b.drop_last())[i]);
            }
        }
    }
}

/// A hexadecimal digit's code reads back as its value.
proof fn lemma_digit_value(n: int)
    requires
        0 <= n < 16,
    ensures
        hex_digit_value(lower_hex_digit(n) as u8) == Some(n as u8),
{
}

/// Reading back the hexadecimal digits of bytes gives the bytes.
proof fn lemma_hex_pairs_of_digits(b: Seq<u8>)
    ensures
        hex_pairs(encode_utf8(hex_lower(b))) == Some(b),
    decreases b.len(),
{
    if b.len() == 0 {
        assert(hex_lower(b) =~= Seq::<char>::empty());
        assert(encode_utf8(Seq::<char>::empty()) =~= Seq::<u8>::empty());
    } else {
        let b0 = b.drop_last();
        let x = b.last();
        lemma_hex_pairs_of_digits(b0);
        let d1 = lower_hex_digit(x as int / 16);
        let d2 = lower_hex_digit(x as int % 16);
        let two = seq![d1, d2];
        assert(hex_lower(b) == hex_lower(b0) + two);
        crate::offsets::lemma_encode_utf8_concat(hex_lower(b0), two);
        assert(is_ascii_chars(two));
        is_ascii_chars_encode_utf8(two);
        let e = encode_utf8(hex_lower(b));
        let e0 = encode_utf8(hex_lower(b0));
        let et = encode_utf8(two);
        assert(e == e0 + et);
        assert(et.len() == 2);
        assert(et[0] == d1 as u8);
        assert(et[1] == d2 as u8);
        assert(e.subrange(0, e.len() - 2) =~= e0);
        assert(e[e.len() - 2] == d1 as u8);
        assert(e[e.len() - 1] == d2 as u8);
        lemma_digit_value(x as int / 16);
        lemma_digit_value(x as int % 16);
        assert(b0.push(((x as int / 16) as u8 * 16 + (x as int % 16) as u8) as u8) =~= b);
    }
}

/// Reading back the hexadecimal digits of a text's UTF-8 encoding gives
/// the text.
pub proof fn lemma_decode_encode_hex(t: Seq<char>)
    ensures
        hex_decoded(hex_lower(encode_utf8(t))) == t,
{
    lemma_hex_pairs_of_digits(encode_utf8(t));
    vstd::utf8::encode_utf8_valid_utf8(t);
    vstd::utf8::encode_utf8_decode_utf8(t);
}

// ---------------------------------------------------------------- tables

/// No value occurs twice.
pub open spec fn values_unique(es: Seq<(Seq<char>, Seq<char>)>) -> bool {
    forall|i: int, j: int| 0 <= i < j < es.len() ==> es[i].1 != es[j].1
}

/// Each entry turned around.
pub open spec fn flipped(es: Seq<(Seq<char>, Seq<char>)>) -> Seq<(Seq<char>, Seq<char>)> {
    es.map_values(|e: (Seq<char>, Seq<char>)| (e.1, e.0))
}

/// Swapping a table whose values are unique turns each entry around.
pub proof fn lemma_swapped_flips(es: Seq<(Seq<char>, Seq<char>)>)
    requires
        values_unique(es),
    ensures
        swapped(es) == flipped(es),
    decreases es.len(),
{
    if es.len() > 0 {
        let e0 = es.drop_last();
        assert(values_unique(e0));
        lemma_swapped_flips(e0);
        let x = es.last();
        if has_key(flipped(e0), x.1) {
            let j = choose|j: int| 0 <= j < flipped(e0).len() && flipped(e0)[j].0 == x.1;
            assert(es[j].1 == es[es.len() - 1].1);
        }
        assert(flipped(e0).push((x.1, x.0)) =~= flipped(es));
    }
}

/// Swapping keys and values of a table whose values are unique gives a
/// table of the same length whose keys are unique, holding `k` under `v`
/// exactly when the table held `v` under `k`.
pub proof fn lemma_swap_lookup(es: Seq<(Seq<char>, Seq<char>)>)
    requires
        keys_unique(es),
        values_unique(es),
    ensures
        swapped(es).len() == es.len(),
        keys_unique(swapped(es)),
        forall|k: Seq<char>, v: Seq<char>|
            #[trigger] lookup(swapped(es), v) == Some(k) <==> #[trigger] lookup(es, k) == Some(v),
{
    lemma_swapped_flips(es);
    let f = flipped(es);
    assert(keys_unique(f)) by {
        assert forall|i: int, j: int| 0 <= i < j < f.len() implies f[i].0 != f[j].0 by {}
    }
    assert forall|k: Seq<char>, v: Seq<char>|
        #[trigger] lookup(f, v) == Some(k) <==> #[trigger] lookup(es, k) == Some(v) by {
        if lookup(f, v) == Some(k) {
            let i = crate::maps::key_index(f, v);
            assert(f[i] == (v, k));
            lemma_key_index(es, i);
        }
        if lookup(es, k) == Some(v) {
            let i = crate::maps::key_index(es, k);
            assert(es[i] == (k, v));
            lemma_key_index(f, i);
        }
    }
}

/// Swapping keys and values twice gives back a table whose values are
/// unique.
pub proof fn lemma_swap_twice(es: Seq<(Seq<char>, Seq<char>)>)
    requires
        keys_unique(es),
        values_unique(es),
    ensures
        swapped(swapped(es)) == es,
{
    lemma_swapped_flips(es);
    let f = flipped(es);
    assert forall|i: int, j: int| 0 <= i < j < f.len() implies f[i].1 != f[j].1 by {
        assert(es[i].0 != es[j].0);
    }
    lemma_swapped_flips(f);
    assert(flipped(f) =~= es);
}

/// Giving an absent key a value keeps every entry that was there.
proof fn lemma_copy_keeps<K, V>(m: Seq<(K, V)>, to: K, from: K)
    requires
        keys_unique(m),
    ensures
        keys_unique(copy_key(m, to, from)),
        forall|k: K| k != to ==> lookup(copy_key(m, to, from), k) == lookup(m, k),
        forall|k: K| #[trigger] has_key(copy_key(m, to, from), k) <==> (k == to || has_key(m, k)),
{
    lemma_insert_entry(m, to, lookup(m, from).unwrap());
}

/// Filling in a letter's missing forms keeps every entry the table had.
pub proof fn lemma_complete_forms_keeps<K, V>(m: Seq<(K, V)>, k0: K, k1: K, k2: K, k3: K)
    requires
        keys_unique(m),
    ensures
        keys_unique(complete_forms(m, k0, k1, k2, k3)),
        forall|k: K| has_key(m, k) ==> lookup(complete_forms(m, k0, k1, k2, k3), k) == lookup(m, k),
        forall|k: K| has_key(m, k) ==> has_key(complete_forms(m, k0, k1, k2, k3), k),
{
    let v0 = has_key(m, k0);
    let v1 = has_key(m, k1);
    let v2 = has_key(m, k2);
    let v3 = has_key(m, k3);
    if (v0 && v1 && v2 && v3) || !(v0 || v1 || v2 || v3) {
    } else {
        let m1 = if !v1 && v0 {
            lemma_copy_keeps(m, k1, k0);
            copy_key(m, k1, k0)
        } else if !v0 && v1 {
            lemma_copy_keeps(m, k0, k1);
            copy_key(m, k0, k1)
        } else {
            m
        };
        assert(forall|k: K| has_key(m, k) ==> lookup(m1, k) == lookup(m, k) && has_key(m1, k));
        let v1a = v1 || v0;
        let v0a = v0 || v1;
        let m2 = if !v3 && v2 {
            lemma_copy_keeps(m1, k3, k2);
            copy_key(m1, k3, k2)
        } else if !v2 && v3 {
            lemma_copy_keeps(m1, k2, k3);
            copy_key(m1, k2, k3)
        } else {
            m1
        };
        assert(forall|k: K| has_key(m, k) ==> lookup(m2, k) == lookup(m, k) && has_key(m2, k));
        let v3a = v3 || v2;
        let v2a = v2 || v3;
        let m3 = if !v1a && v2a {
            lemma_copy_keeps(m2, k1, k2);
            copy_key(m2, k1, k2)
        } else if !v2a && v1a {
            lemma_copy_keeps(m2, k2, k1);
            copy_key(m2, k2, k1)
        } else {
            m2
        };
        assert(forall|k: K| has_key(m, k) ==> lookup(m3, k) == lookup(m, k) && has_key(m3, k));
        if !v0a && v3a {
            lemma_copy_keeps(m3, k0, k3);
        } else if !v3a && v0a {
            lemma_copy_keeps(m3, k3, k0);
        }
    }
}

/// The four keys are all present or all absent.
pub open spec fn all_or_none<K, V>(m: Seq<(K, V)>, k0: K, k1: K, k2: K, k3: K) -> bool {
    ||| (has_key(m, k0) && has_key(m, k1) && has_key(m, k2) && has_key(m, k3))
    ||| (!has_key(m, k0) && !has_key(m, k1) && !has_key(m, k2) && !has_key(m, k3))
}

/// Filling in a letter's forms leaves them all present or all absent and
/// adds no key but theirs.
proof fn lemma_complete_forms_keys<K, V>(m: Seq<(K, V)>, k0: K, k1: K, k2: K, k3: K)
    requires
        keys_unique(m),
    ensures
        keys_unique(complete_forms(m, k0, k1, k2, k3)),
        all_or_none(complete_forms(m, k0, k1, k2, k3), k0, k1, k2, k3),
        forall|k: K|
            #[trigger] has_key(complete_forms(m, k0, k1, k2, k3), k) <==> (has_key(m, k) || ((k == k0
                || k == k1 || k == k2 || k == k3) && (has_key(m, k0) || has_key(m, k1) || has_key(m, k2)
                || has_key(m, k3)))),
{
    let v0 = has_key(m, k0);
    let v1 = has_key(m, k1);
    let v2 = has_key(m, k2);
    let v3 = has_key(m, k3);
    if (v0 && v1 && v2 && v3) || !(v0 || v1 || v2 || v3) {
    } else {
        let m1 = if !v1 && v0 {
            lemma_copy_keeps(m, k1, k0);
            copy_key(m, k1, k0)
        } else if !v0 && v1 {
            lemma_copy_keeps(m, k0, k1);
            copy_key(m, k0, k1)
        } else {
            m
        };
        let v1a = v1 || v0;
        let v0a = v0 || v1;
        assert(keys_unique(m1));
        assert(forall|k: K| #[trigger] has_key(m1, k) <==> (has_key(m, k) || (v0a && (k == k0 || k == k1))));
        let m2 = if !v3 && v2 {
            lemma_copy_keeps(m1, k3, k2);
            copy_key(m1, k3, k2)
        } else if !v2 && v3 {
            lemma_copy_keeps(m1, k2, k3);
            copy_key(m1, k2, k3)
        } else {
            m1
        };
        let v3a = v3 || v2;
        let v2a = v2 || v3;
        assert(keys_unique(m2));
        assert(forall|k: K| #[trigger] has_key(m2, k) <==> (has_key(m, k) || (v0a && (k == k0 || k == k1)) || (v2a && (k == k2 || k == k3))));
        let m3 = if !v1a && v2a {
            lemma_copy_keeps(m2, k1, k2);
            copy_key(m2, k1, k2)
        } else if !v2a && v1a {
            lemma_copy_keeps(m2, k2, k1);
            copy_key(m2, k2, k1)
        } else {
            m2
        };
        assert(keys_unique(m3));
        assert(forall|k: K| #[trigger] has_key(m3, k) <==> (has_key(m, k) || (v0a && (k == k0 || k == k1)) || (v2a && (k == k2 || k == k3)) || (!v1a && v2a && k == k1) || (!v2a && v1a && k == k2)));
        if !v0a && v3a {
            lemma_copy_keeps(m3, k0, k3);
        } else if !v3a && v0a {
            lemma_copy_keeps(m3, k3, k0);
        }
    }
}

/// A letter of the table has all its forms or none.
pub open spec fn letter_whole(m: Seq<(Seq<char>, Seq<char>)>, c: char) -> bool {
    match spec_presentation_forms(c) {
        Some(f) => all_or_none(
            m,
            crate::cipher::one(f.0),
            crate::cipher::one(f.1),
            crate::cipher::one(f.2),
            crate::cipher::one(f.3),
        ),
        None => true,
    }
}

/// Forms of different letters are different texts.
proof fn lemma_forms_apart(c: char, d: char, i: int, j: int)
    requires
        c != d,
        spec_presentation_forms(c) is Some,
        spec_presentation_forms(d) is Some,
        0 <= i < 4,
        0 <= j < 4,
    ensures
        crate::cipher::form_texts(spec_presentation_forms(c).unwrap())[i] != crate::cipher::form_texts(
            spec_presentation_forms(d).unwrap(),
        )[j],
{
    lemma_form_letter(c);
    lemma_form_letter(d);
    let a = crate::cipher::form_texts(spec_presentation_forms(c).unwrap())[i];
    let b = crate::cipher::form_texts(spec_presentation_forms(d).unwrap())[j];
    if a == b {
        assert(a[0] == b[0]);
        assert(i == 0 || i == 1 || i == 2 || i == 3);
        assert(j == 0 || j == 1 || j == 2 || j == 3);
    }
}

/// After completing the first `n` letters, each of them has all its forms
/// or none.
#[verifier::rlimit(80)]
proof fn lemma_completed_upto_whole(m: Seq<(Seq<char>, Seq<char>)>, n: int)
    requires
        keys_unique(m),
        0 <= n <= shaped_letters().len(),
    ensures
        keys_unique(crate::cipher::completed_upto(m, n)),
        forall|j: int| 0 <= j < n ==> letter_whole(crate::cipher::completed_upto(m, n), #[trigger] shaped_letters()[j]),
    decreases n,
{
    if n > 0 {
        lemma_completed_upto_whole(m, n - 1);
        let before = crate::cipher::completed_upto(m, n - 1);
        let c = shaped_letters()[n - 1];
        match spec_presentation_forms(c) {
            Some(f) => {
                let ks = crate::cipher::form_texts(f);
                lemma_complete_forms_keys(before, ks[0], ks[1], ks[2], ks[3]);
                let r = crate::cipher::completed_upto(m, n);
                assert(r == complete_forms(before, ks[0], ks[1], ks[2], ks[3]));
                assert forall|j: int| 0 <= j < n implies letter_whole(r, #[trigger] shaped_letters()[j]) by {
                    let d = shaped_letters()[j];
                    if j < n - 1 && d != c {
                        assert(letter_whole(before, d));
                        match spec_presentation_forms(d) {
                            Some(h) => {
                                let hs = crate::cipher::form_texts(h);
                                assert forall|x: int| 0 <= x < 4 implies (has_key(r, #[trigger] hs[x]) <==> has_key(before, hs[x])) by {
                                    lemma_forms_apart(d, c, x, 0);
                                    lemma_forms_apart(d, c, x, 1);
                                    lemma_forms_apart(d, c, x, 2);
                                    lemma_forms_apart(d, c, x, 3);
                                }
                                assert(has_key(r, hs[0]) == has_key(before, hs[0]));
                                assert(has_key(r, hs[1]) == has_key(before, hs[1]));
                                assert(has_key(r, hs[2]) == has_key(before, hs[2]));
                                assert(has_key(r, hs[3]) == has_key(before, hs[3]));
                            },
                            None => {},
                        }
                    }
                }
            },
            None => {},
        }
    }
}

/// Completing a table each of whose letters has all its forms or none
/// changes nothing.
proof fn lemma_completed_upto_fixed(m: Seq<(Seq<char>, Seq<char>)>, n: int)
    requires
        forall|j: int| 0 <= j < shaped_letters().len() ==> letter_whole(m, #[trigger] shaped_letters()[j]),
        0 <= n <= shaped_letters().len(),
    ensures
        crate::cipher::completed_upto(m, n) == m,
    decreases n,
{
    if n > 0 {
        lemma_completed_upto_fixed(m, n - 1);
        assert(letter_whole(m, shaped_letters()[n - 1]));
    }
}

/// Completing a ciphering table a second time changes nothing.
pub proof fn lemma_complete_cipher_twice(m: Seq<(Seq<char>, Seq<char>)>)
    requires
        keys_unique(m),
    ensures
        crate::cipher::completed(crate::cipher::completed(m)) == crate::cipher::completed(m),
{
    let n = shaped_letters().len() as int;
    lemma_completed_upto_whole(m, n);
    lemma_completed_upto_fixed(crate::cipher::completed(m), n);
}

/// Completing the first `n` letters of a ciphering table keeps every entry
/// it had.
proof fn lemma_completed_upto_keeps(m: Seq<(Seq<char>, Seq<char>)>, n: int)
    requires
        keys_unique(m),
    ensures
        keys_unique(crate::cipher::completed_upto(m, n)),
        forall|k: Seq<char>|
            has_key(m, k) ==> lookup(crate::cipher::completed_upto(m, n), k) == lookup(m, k)
                && has_key(crate::cipher::completed_upto(m, n), k),
    decreases n,
{
    if n > 0 {
        lemma_completed_upto_keeps(m, n - 1);
        let before = crate::cipher::completed_upto(m, n - 1);
        match spec_presentation_forms(shaped_letters()[n - 1]) {
            Some(f) => {
                lemma_complete_forms_keeps(
                    before,
                    crate::cipher::one(f.0),
                    crate::cipher::one(f.1),
                    crate::cipher::one(f.2),
                    crate::cipher::one(f.3),
                );
            },
            None => {},
        }
    }
}

/// Completing a ciphering table's presentation forms only adds entries:
/// every key it had keeps its value.
pub proof fn lemma_complete_cipher_keeps(m: Seq<(Seq<char>, Seq<char>)>)
    requires
        keys_unique(m),
    ensures
        keys_unique(crate::cipher::completed(m)),
        forall|k: Seq<char>|
            has_key(m, k) ==> lookup(crate::cipher::completed(m), k) == lookup(m, k),
{
    lemma_completed_upto_keeps(m, shaped_letters().len() as int);
}

/// Each entry's key and value carried over by the given functions.
pub open spec fn mapped<K, V, K2, V2>(m: Seq<(K, V)>, kf: spec_fn(K) -> K2, vf: spec_fn(V) -> V2) -> Seq<(K2, V2)> {
    m.map_values(|e: (K, V)| (kf(e.0), vf(e.1)))
}

/// A function that takes different keys to different keys.
pub open spec fn injective<K, K2>(kf: spec_fn(K) -> K2) -> bool {
    forall|a: K, b: K| #[trigger] kf(a) == #[trigger] kf(b) ==> a == b
}

/// Carrying a table over keeps its keys apart and its lookups.
proof fn lemma_mapped_lookup<K, V, K2, V2>(m: Seq<(K, V)>, kf: spec_fn(K) -> K2, vf: spec_fn(V) -> V2, k: K)
    requires
        keys_unique(m),
        injective(kf),
    ensures
        keys_unique(mapped(m, kf, vf)),
        has_key(mapped(m, kf, vf), kf(k)) <==> has_key(m, k),
        has_key(m, k) ==> key_index(mapped(m, kf, vf), kf(k)) == key_index(m, k),
        has_key(m, k) ==> lookup(mapped(m, kf, vf), kf(k)) == Some(vf(lookup(m, k).unwrap())),
{
    let mm = mapped(m, kf, vf);
    assert forall|i: int, j: int| 0 <= i < j < mm.len() implies mm[i].0 != mm[j].0 by {
        assert(m[i].0 != m[j].0);
    }
    if has_key(mm, kf(k)) {
        let i = choose|i: int| 0 <= i < mm.len() && mm[i].0 == kf(k);
        assert(m[i].0 == k);
    }
    if has_key(m, k) {
        let i = key_index(m, k);
        lemma_key_index(m, i);
        assert(mm[i].0 == kf(k));
        lemma_key_index(mm, i);
    }
}

/// Giving a key a value commutes with carrying the table over.
proof fn lemma_mapped_copy<K, V, K2, V2>(
    m: Seq<(K, V)>,
    kf: spec_fn(K) -> K2,
    vf: spec_fn(V) -> V2,
    to: K,
    from: K,
)
    requires
        keys_unique(m),
        injective(kf),
        has_key(m, from),
    ensures
        copy_key(mapped(m, kf, vf), kf(to), kf(from)) == mapped(copy_key(m, to, from), kf, vf),
{
    let mm = mapped(m, kf, vf);
    lemma_mapped_lookup(m, kf, vf, from);
    lemma_mapped_lookup(m, kf, vf, to);
    let v = lookup(m, from).unwrap();
    if has_key(m, to) {
        let i = key_index(m, to);
        assert(mapped(m.update(i, (to, v)), kf, vf) =~= mm.update(i, (kf(to), vf(v))));
    } else {
        assert(mapped(m.push((to, v)), kf, vf) =~= mm.push((kf(to), vf(v))));
    }
}

/// Filling in a letter's forms commutes with carrying the table over.
#[verifier::rlimit(40)]
proof fn lemma_mapped_complete<K, V, K2, V2>(
    m: Seq<(K, V)>,
    kf: spec_fn(K) -> K2,
    vf: spec_fn(V) -> V2,
    k0: K,
    k1: K,
    k2: K,
    k3: K,
)
    requires
        keys_unique(m),
        injective(kf),
    ensures
        complete_forms(mapped(m, kf, vf), kf(k0), kf(k1), kf(k2), kf(k3)) == mapped(
            complete_forms(m, k0, k1, k2, k3),
            kf,
            vf,
        ),
{
    lemma_mapped_lookup(m, kf, vf, k0);
    lemma_mapped_lookup(m, kf, vf, k1);
    lemma_mapped_lookup(m, kf, vf, k2);
    lemma_mapped_lookup(m, kf, vf, k3);
    let v0 = has_key(m, k0);
    let v1 = has_key(m, k1);
    let v2 = has_key(m, k2);
    let v3 = has_key(m, k3);
    if (v0 && v1 && v2 && v3) || !(v0 || v1 || v2 || v3) {
    } else {
        let m1 = if !v1 && v0 {
            lemma_copy_keeps(m, k1, k0);
            lemma_mapped_copy(m, kf, vf, k1, k0);
            copy_key(m, k1, k0)
        } else if !v0 && v1 {
            lemma_copy_keeps(m, k0, k1);
            lemma_mapped_copy(m, kf, vf, k0, k1);
            copy_key(m, k0, k1)
        } else {
            m
        };
        let v1a = v1 || v0;
        let v0a = v0 || v1;
        assert(keys_unique(m1));
        assert(v0a ==> has_key(m1, k0));
        assert(v1a ==> has_key(m1, k1));
        assert(v2 ==> has_key(m1, k2));
        assert(v3 ==> has_key(m1, k3));
        let m2 = if !v3 && v2 {
            lemma_copy_keeps(m1, k3, k2);
            lemma_mapped_copy(m1, kf, vf, k3, k2);
            copy_key(m1, k3, k2)
        } else if !v2 && v3 {
            lemma_copy_keeps(m1, k2, k3);
            lemma_mapped_copy(m1, kf, vf, k2, k3);
            copy_key(m1, k2, k3)
        } else {
            m1
        };
        let v3a = v3 || v2;
        let v2a = v2 || v3;
        assert(keys_unique(m2));
        assert(v0a ==> has_key(m2, k0));
        assert(v1a ==> has_key(m2, k1));
        assert(v2a ==> has_key(m2, k2));
        assert(v3a ==> has_key(m2, k3));
        let m3 = if !v1a && v2a {
            lemma_copy_keeps(m2, k1, k2);
            lemma_mapped_copy(m2, kf, vf, k1, k2);
            copy_key(m2, k1, k2)
        } else if !v2a && v1a {
            lemma_copy_keeps(m2, k2, k1);
            lemma_mapped_copy(m2, kf, vf, k2, k1);
            copy_key(m2, k2, k1)
        } else {
            m2
        };
        assert(keys_unique(m3));
        assert(v0a ==> has_key(m3, k0));
        assert(v3a ==> has_key(m3, k3));
        if !v0a && v3a {
            lemma_mapped_copy(m3, kf, vf, k0, k3);
        } else if !v3a && v0a {
            lemma_mapped_copy(m3, kf, vf, k3, k0);
        }
    }
}

/// A font as the ciphering table with the same keys, each glyph's metrics
/// written as a text by `g`.
pub open spec fn font_as_cipher(
    fm: Seq<(char, Seq<isize>)>,
    g: spec_fn(Seq<isize>) -> Seq<char>,
) -> Seq<(Seq<char>, Seq<char>)> {
    mapped(fm, |c: char| crate::cipher::one(c), g)
}

/// Completing the first `n` letters of a font and of the matching ciphering
/// table fill in the same forms from the same sources.
proof fn lemma_font_cipher_upto(fm: Seq<(char, Seq<isize>)>, g: spec_fn(Seq<isize>) -> Seq<char>, n: int)
    requires
        keys_unique(fm),
    ensures
        crate::cipher::completed_upto(font_as_cipher(fm, g), n) == font_as_cipher(
            crate::font::font_completed_upto(fm, n),
            g,
        ),
    decreases n,
{
    let kf = |c: char| crate::cipher::one(c);
    assert(injective(kf)) by {
        assert forall|a: char, b: char| #[trigger] kf(a) == #[trigger] kf(b) implies a == b by {
            assert(kf(a)[0] == a && kf(b)[0] == b);
        }
    }
    if n > 0 {
        lemma_font_cipher_upto(fm, g, n - 1);
        lemma_font_completed_upto_keeps(fm, n - 1);
        let before = crate::font::font_completed_upto(fm, n - 1);
        match spec_presentation_forms(shaped_letters()[n - 1]) {
            Some(f) => {
                lemma_mapped_complete(before, kf, g, f.0, f.1, f.2, f.3);
            },
            None => {},
        }
    }
}

/// Completing a font fills in the same forms, each from the same source
/// form, as completing the ciphering table with the same keys and, for
/// values, any text written from the metrics.
pub proof fn lemma_font_cipher_complete(fm: Seq<(char, Seq<isize>)>, g: spec_fn(Seq<isize>) -> Seq<char>)
    requires
        keys_unique(fm),
    ensures
        crate::cipher::completed(font_as_cipher(fm, g)) == font_as_cipher(crate::font::font_completed(fm), g),
{
    lemma_font_cipher_upto(fm, g, shaped_letters().len() as int);
}

/// Completing the first `n` letters of a font keeps every glyph it had.
proof fn lemma_font_completed_upto_keeps(m: Seq<(char, Seq<isize>)>, n: int)
    requires
        keys_unique(m),
    ensures
        keys_unique(crate::font::font_completed_upto(m, n)),
        forall|k: char|
            has_key(m, k) ==> lookup(crate::font::font_completed_upto(m, n), k) == lookup(m, k)
                && has_key(crate::font::font_completed_upto(m, n), k),
    decreases n,
{
    if n > 0 {
        lemma_font_completed_upto_keeps(m, n - 1);
        let before = crate::font::font_completed_upto(m, n - 1);
        match spec_presentation_forms(shaped_letters()[n - 1]) {
            Some(f) => {
                lemma_complete_forms_keeps(before, f.0, f.1, f.2, f.3);
            },
            None => {},
        }
    }
}

/// Completing a font's presentation forms only adds glyphs: every glyph it
/// had keeps its metrics.
pub proof fn lemma_complete_font_keeps(m: Seq<(char, Seq<isize>)>)
    requires
        keys_unique(m),
    ensures
        keys_unique(crate::font::font_completed(m)),
        forall|k: char| has_key(m, k) ==> lookup(crate::font::font_completed(m), k) == lookup(m, k),
{
    lemma_font_completed_upto_keeps(m, shaped_letters().len() as int);
}

// ---------------------------------------------------------------- tbl tables

/// A run of letters and digits from `s` ends at `e` when it holds only
/// letters and digits and stops at the end or at another character.
proof fn lemma_alnum_end_at(t: Seq<char>, s: int, e: int)
    requires
        0 <= s <= e <= t.len(),
        forall|i: int| s <= i < e ==> is_alnum(#[trigger] t[i]),
        e == t.len() || !is_alnum(t[e]),
    ensures
        alnum_end(t, s) == e,
    decreases e - s,
{
    if s < e {
        lemma_alnum_end_at(t, s + 1, e);
    }
}

/// A run of non-space characters from `s` ends at `e` when it holds no
/// space and stops at the end or at a space.
proof fn lemma_word_end_at(t: Seq<char>, s: int, e: int)
    requires
        0 <= s <= e <= t.len(),
        forall|i: int| s <= i < e ==> !is_space(#[trigger] t[i]),
        e == t.len() || is_space(t[e]),
    ensures
        word_end(t, s) == e,
    decreases e - s,
{
    if s < e {
        lemma_word_end_at(t, s + 1, e);
    }
}

/// Runs measured in a text from `q` on are those of the text that starts
/// there, moved by `q`.
proof fn lemma_runs_shift(t: Seq<char>, q: int, s: int)
    requires
        0 <= q <= s <= t.len(),
    ensures
        alnum_end(t, s) == q + alnum_end(t.skip(q), s - q),
        word_end(t, s) == q + word_end(t.skip(q), s - q),
    decreases t.len() - s,
{
    if s < t.len() {
        lemma_runs_shift(t, q, s + 1);
        assert(t.skip(q)[s - q] == t[s]);
    }
}

/// An entry found from `p` on is the one found in the text from `q` on,
/// moved by `q`.
proof fn lemma_tbl_first_shift(t: Seq<char>, q: int, p: int)
    requires
        0 <= q <= p <= t.len(),
    ensures
        tbl_first(t, p) matches Some(m) ==> tbl_first(t.skip(q), p - q) == Some(
            (m.0 - q, m.1 - q, m.2 - q),
        ),
        tbl_first(t, p) is None ==> tbl_first(t.skip(q), p - q) is None,
    decreases t.len() - p,
{
    let u = t.skip(q);
    if p < t.len() {
        lemma_runs_shift(t, q, p);
        let r = alnum_end(t, p);
        lemma_runs_bounded(t, p);
        if r + 1 < t.len() {
            assert(u[r - q] == t[r]);
            assert(u[r + 1 - q] == t[r + 1]);
            lemma_runs_shift(t, q, r + 1);
        }
        lemma_tbl_first_shift(t, q, p + 1);
    }
}

/// The entries read from `p` on are those read from the text that starts at
/// `q`, from `p - q` on.
proof fn lemma_tbl_pairs_shift(t: Seq<char>, q: int, p: int)
    requires
        0 <= q <= p <= t.len(),
    ensures
        tbl_pairs(t, p) == tbl_pairs(t.skip(q), p - q),
    decreases t.len() - p,
{
    let u = t.skip(q);
    if p < t.len() {
        lemma_tbl_first_shift(t, q, p);
        lemma_tbl_first(t, p);
        match tbl_first(t, p) {
            Some(m) => {
                lemma_tbl_pairs_shift(t, q, m.2);
                assert(t.subrange(m.0, m.1) =~= u.subrange(m.0 - q, m.1 - q));
                assert(t.subrange(m.1 + 1, m.2) =~= u.subrange(m.1 + 1 - q, m.2 - q));
            },
            None => {},
        }
    }
}

/// The hexadecimal digits of bytes are letters and digits.
proof fn lemma_hex_lower_alnum(b: Seq<u8>)
    ensures
        forall|i: int| 0 <= i < hex_lower(b).len() ==> is_alnum(#[trigger] hex_lower(b)[i]),
    decreases b.len(),
{
    if b.len() > 0 {
        lemma_hex_lower_alnum(b.drop_last());
        let x = b.last();
        let two = seq![lower_hex_digit(x as int / 16), lower_hex_digit(x as int % 16)];
        assert(hex_lower(b) == hex_lower(b.drop_last()) + two);
        assert forall|i: int| 0 <= i < hex_lower(b).len() implies is_alnum(
            #[trigger] hex_lower(b)[i],
        ) by {
            if i < hex_lower(b.drop_last()).len() {
                assert(hex_lower(b)[i] == hex_lower(b.drop_last())[i]);
            }
        }
    }
}

/// A key that a `.tbl` line can hold: not empty, and without white space.
pub open spec fn tbl_key_ok(k: Seq<char>) -> bool {
    k.len() >= 1 && forall|j: int| 0 <= j < k.len() ==> !is_space(#[trigger] k[j])
}

/// The (digits, key) pairs that a table's `.tbl` lines hold.
pub open spec fn tbl_line_pairs(m: Seq<(Seq<char>, Seq<char>)>) -> Seq<(Seq<char>, Seq<char>)> {
    m.map_values(|e: (Seq<char>, Seq<char>)| (hex_lower(encode_utf8(e.1)), e.0))
}

/// Reading the lines of a table's `.tbl` text finds each line's digits and
/// key, in order.
proof fn lemma_tbl_pairs_of_lines(m: Seq<(Seq<char>, Seq<char>)>)
    requires
        forall|i: int| 0 <= i < m.len() ==> tbl_key_ok(#[trigger] m[i].0),
    ensures
        tbl_pairs(join(tbl_lines(m), seq!['\n']), 0) == tbl_line_pairs(m),
    decreases m.len(),
{
    let nl = seq!['\n'];
    let t = join(tbl_lines(m), nl);
    if m.len() == 0 {
        assert(tbl_lines(m) =~= Seq::<Seq<char>>::empty());
        assert(tbl_line_pairs(m) =~= Seq::<(Seq<char>, Seq<char>)>::empty());
    } else {
        let e = m[0];
        assert(tbl_key_ok(e.0));
        let d = hex_lower(encode_utf8(e.1));
        let line = d + seq!['='] + e.0;
        assert(tbl_lines(m)[0] == line);
        let rest = m.drop_first();
        assert(tbl_lines(m) =~= seq![line] + tbl_lines(rest));
        let tail_text = join(tbl_lines(rest), nl);
        if m.len() == 1 {
            assert(tbl_lines(m) =~= seq![line]);
            assert(t == line);
        } else {
            crate::text::lemma_join_prepend(line, tbl_lines(rest), nl);
            assert(t == line + nl + tail_text);
        }
        let dl = d.len() as int;
        let ll = line.len() as int;
        assert(t.subrange(0, ll) =~= line);
        assert(m.len() > 1 ==> t[ll] == '\n');
        assert(m.len() == 1 ==> t.len() == ll);
        lemma_hex_lower_alnum(encode_utf8(e.1));
        assert forall|i: int| 0 <= i < dl implies is_alnum(#[trigger] t[i]) by {
            assert(t[i] == line[i]);
            assert(line[i] == d[i]);
        }
        assert(t[dl] == '=');
        lemma_alnum_end_at(t, 0, dl);
        assert(t[dl + 1] == e.0[0]);
        assert forall|i: int| dl + 1 <= i < ll implies !is_space(#[trigger] t[i]) by {
            assert(t[i] == line[i]);
            assert(line[i] == e.0[i - dl - 1]);
        }
        lemma_word_end_at(t, dl + 1, ll);
        assert(tbl_at(t, 0) == Some((0int, dl, ll)));
        assert(tbl_first(t, 0) == Some((0int, dl, ll)));
        assert(t.subrange(0, dl) =~= d);
        assert(t.subrange(dl + 1, ll) =~= e.0);
        assert(tbl_pairs(t, 0) == seq![(d, e.0)] + tbl_pairs(t, ll));
        assert(tbl_line_pairs(m) =~= seq![(d, e.0)] + tbl_line_pairs(rest));
        if m.len() == 1 {
            assert(tbl_pairs(t, ll) =~= Seq::<(Seq<char>, Seq<char>)>::empty());
        } else {
            assert forall|i: int| 0 <= i < rest.len() implies tbl_key_ok(#[trigger] rest[i].0) by {
                assert(rest[i] == m[i + 1]);
            }
            lemma_tbl_pairs_of_lines(rest);
            // The line break after the first line starts no entry.
            assert(alnum_end(t, ll) == ll);
            assert(tbl_at(t, ll) is None);
            assert(tbl_first(t, ll) == tbl_first(t, ll + 1));
            lemma_tbl_pairs_shift(t, ll + 1, ll + 1);
            assert(t.skip(ll + 1) =~= tail_text);
            if ll + 1 < t.len() {
                assert(tbl_pairs(t, ll) == tbl_pairs(t, ll + 1));
            } else {
                assert(tbl_pairs(t, ll) =~= Seq::<(Seq<char>, Seq<char>)>::empty());
                assert(tbl_pairs(t, ll + 1) =~= Seq::<(Seq<char>, Seq<char>)>::empty());
            }
        }
    }
}

/// Decoding the digits of a table's lines, key by key, gives the table.
proof fn lemma_hex_entries_of_lines(m: Seq<(Seq<char>, Seq<char>)>)
    requires
        keys_unique(m),
    ensures
        hex_entries(tbl_line_pairs(m)) == m,
    decreases m.len(),
{
    if m.len() > 0 {
        let m0 = m.drop_last();
        assert(keys_unique(m0));
        lemma_hex_entries_of_lines(m0);
        assert(tbl_line_pairs(m).drop_last() =~= tbl_line_pairs(m0));
        let x = m.last();
        lemma_decode_encode_hex(x.1);
        if has_key(m0, x.0) {
            let j = choose|j: int| 0 <= j < m0.len() && m0[j].0 == x.0;
            assert(m[j].0 == m[m.len() - 1].0);
        }
        assert(m0.push(x) =~= m);
    }
}

/// A table whose keys are not empty and hold no white space reads back from
/// its `.tbl` text as it was.
pub proof fn lemma_tbl_roundtrip(m: Seq<(Seq<char>, Seq<char>)>)
    requires
        keys_unique(m),
        forall|i: int| 0 <= i < m.len() ==> tbl_key_ok(#[trigger] m[i].0),
    ensures
        tbl_table(join(tbl_lines(m), seq!['\n'])) == m,
{
    lemma_tbl_pairs_of_lines(m);
    lemma_hex_entries_of_lines(m);
}

// ---------------------------------------------------------------- code units

/// An upper-case hexadecimal digit reads back as its value.
proof fn lemma_upper_digit_value(m: int)
    requires
        0 <= m < 16,
    ensures
        crate::convert::hex_char_value(upper_hex_digit(m)) == Some(m),
        '\0' <= upper_hex_digit(m) <= '\u{7f}',
        upper_hex_digit(m) != '+',
{
    if m < 10 {
        assert(upper_hex_digit(m) as int == 48 + m);
    } else {
        assert(upper_hex_digit(m) as int == 55 + m);
    }
}

/// The upper-case hexadecimal digits of a number read back as it, and are
/// ASCII digits.
proof fn lemma_upper_hex_value(n: nat)
    ensures
        hex_digits_value(upper_hex(n)) == Some(n as int),
        is_ascii_chars(upper_hex(n)),
        upper_hex(n)[0] != '+',
    decreases n,
{
    if n >= 16 {
        lemma_upper_hex_value(n / 16);
        lemma_upper_digit_value((n % 16) as int);
        let d = upper_hex(n / 16);
        let x = upper_hex_digit((n % 16) as int);
        assert(upper_hex(n) == d + seq![x]);
        assert((d + seq![x]).drop_last() =~= d);
        assert(hex_digits_value(upper_hex(n)) == Some((n / 16) as int * 16 + (n % 16) as int));
        assert((n / 16) as int * 16 + (n % 16) as int == n) by (nonlinear_arith);
        assert forall|i: int| 0 <= i < upper_hex(n).len() implies '\0' <= #[trigger] upper_hex(n)[i]
            <= '\u{7f}' by {
            if i < d.len() {
                assert(upper_hex(n)[i] == d[i]);
            }
        }
        assert(upper_hex(n)[0] == d[0]);
    } else {
        lemma_upper_digit_value(n as int);
        assert(upper_hex(n) =~= seq![upper_hex_digit(n as int)]);
        assert(seq![upper_hex_digit(n as int)].drop_last() =~= Seq::<char>::empty());
        assert(hex_digits_value(Seq::<char>::empty()) == Some(0int));
        assert(hex_digits_value(upper_hex(n)) == Some(0 * 16 + n as int));
    }
}

/// Leading zeros do not change the value of hexadecimal digits.
proof fn lemma_zeros_value(z: nat, d: Seq<char>)
    requires
        hex_digits_value(d) is Some,
    ensures
        hex_digits_value(repeat(seq!['0'], z) + d) == hex_digits_value(d),
    decreases d.len(), z,
{
    if d.len() == 0 {
        if z > 0 {
            lemma_zeros_value((z - 1) as nat, d);
            assert(repeat(seq!['0'], z) + d =~= repeat(seq!['0'], (z - 1) as nat) + seq!['0']);
            assert((repeat(seq!['0'], (z - 1) as nat) + seq!['0']).drop_last() =~= repeat(
                seq!['0'],
                (z - 1) as nat,
            ) + d);
        } else {
            assert(repeat(seq!['0'], z) + d =~= d);
        }
    } else {
        lemma_zeros_value(z, d.drop_last());
        assert((repeat(seq!['0'], z) + d).drop_last() =~= repeat(seq!['0'], z) + d.drop_last());
    }
}

/// `n` copies of an ASCII character are ASCII, `n` long.
proof fn lemma_repeat_zero(n: nat)
    ensures
        repeat(seq!['0'], n).len() == n,
        forall|i: int| 0 <= i < n ==> #[trigger] repeat(seq!['0'], n)[i] == '0',
    decreases n,
{
    if n > 0 {
        lemma_repeat_zero((n - 1) as nat);
    }
}

/// The four digits of a character of the basic plane read back as its
/// code.
proof fn lemma_code_unit_value(c: char)
    requires
        c as u32 <= 0xFFFF,
    ensures
        code_unit(c).len() == 4,
        is_ascii_chars(code_unit(c)),
        radix16(code_unit(c)) == Some(c as u32),
{
    lemma_upper_hex_value(c as nat);
    crate::convert::lemma_upper_hex_len(c as nat);
    let h = upper_hex(c as nat);
    let z = (4 - h.len()) as nat;
    lemma_repeat_zero(z);
    lemma_zeros_value(z, h);
    let u = code_unit(c);
    assert(u == repeat(seq!['0'], z) + h);
    assert forall|i: int| 0 <= i < u.len() implies '\0' <= #[trigger] u[i] <= '\u{7f}' by {
        if i < z {
            assert(u[i] == '0');
        } else {
            assert(u[i] == h[i - z]);
        }
    }
    if z > 0 {
        assert(u[0] == '0');
    } else {
        assert(u[0] == h[0]);
    }
}

/// The code units of a text of the basic plane: four ASCII characters per
/// character, the `k`th four being the code of the `k`th character.
proof fn lemma_units_layout(t: Seq<char>)
    requires
        in_basic_plane(t),
    ensures
        unicode_encoded(t).len() == 4 * t.len(),
        is_ascii_chars(unicode_encoded(t)),
        forall|k: int|
            0 <= k < t.len() ==> unicode_encoded(t).subrange(4 * k, 4 * k + 4) == code_unit(
                #[trigger] t[k],
            ),
    decreases t.len(),
{
    if t.len() > 0 {
        let t0 = t.drop_last();
        assert(in_basic_plane(t0)) by {
            assert forall|i: int| 0 <= i < t0.len() implies (#[trigger] t0[i]) as u32 <= 0xFFFF by {
                assert(t0[i] == t[i]);
            }
        }
        lemma_units_layout(t0);
        assert(t.last() as u32 <= 0xFFFF);
        lemma_code_unit_value(t.last());
        let u0 = unicode_encoded(t0);
        let u = unicode_encoded(t);
        assert(u == u0 + code_unit(t.last()));
        assert forall|i: int| 0 <= i < u.len() implies '\0' <= #[trigger] u[i] <= '\u{7f}' by {
            if i < u0.len() {
                assert(u[i] == u0[i]);
            } else {
                assert(u[i] == code_unit(t.last())[i - u0.len()]);
            }
        }
        assert forall|k: int| 0 <= k < t.len() implies u.subrange(4 * k, 4 * k + 4) == code_unit(
            #[trigger] t[k],
        ) by {
            if k < t0.len() {
                assert(t0[k] == t[k]);
                assert(u.subrange(4 * k, 4 * k + 4) =~= u0.subrange(4 * k, 4 * k + 4));
            } else {
                assert(u.subrange(4 * k, 4 * k + 4) =~= code_unit(t.last()));
            }
        }
    }
}

/// In an ASCII text, every index is a byte offset and falls at itself.
proof fn lemma_ascii_offsets(u: Seq<char>, b: int)
    requires
        is_ascii_chars(u),
        0 <= b <= u.len(),
    ensures
        is_char_offset(u, b),
        char_index_of(u, b) == b,
{
    let p = u.take(b);
    assert(is_ascii_chars(p)) by {
        assert forall|i: int| 0 <= i < p.len() implies '\0' <= #[trigger] p[i] <= '\u{7f}' by {
            assert(p[i] == u[i]);
        }
    }
    is_ascii_chars_encode_utf8(p);
    lemma_char_index_of(u, b, b);
}

/// Writing a text of the basic plane as code units and reading them back
/// gives the text, and the units can be read.
pub proof fn lemma_unicode_roundtrip(t: Seq<char>)
    requires
        in_basic_plane(t),
    ensures
        unicode_chunks_ok(unicode_encoded(t)),
        unicode_decoded(unicode_encoded(t)) == t,
{
    lemma_units_layout(t);
    let u = unicode_encoded(t);
    is_ascii_chars_encode_utf8(u);
    assert(utf8_len(u) == u.len());
    assert forall|k: int| 0 <= k < utf8_len(u) / 4 implies unicode_chunk(u, k) == code_unit(
        #[trigger] t[k],
    ) && is_char_offset(u, 4 * k) by {
        lemma_ascii_offsets(u, 4 * k);
        lemma_ascii_offsets(u, 4 * k + 4);
    }
    assert forall|k: int| 0 <= k < utf8_len(u) / 4 implies is_char_offset(u, #[trigger] (4 * k)) by {
        assert(unicode_chunk(u, k) == code_unit(t[k]));
    }
    assert forall|k: int| 0 <= k < utf8_len(u) / 4 implies is_scalar_code(
        unit_value(#[trigger] unicode_chunk(u, k)),
    ) by {
        assert(unicode_chunk(u, k) == code_unit(t[k]));
        lemma_code_unit_value(t[k]);
        vstd::utf8::char_is_scalar(t[k]);
    }
    assert forall|k: int| 0 <= k < t.len() implies (unit_value(unicode_chunk(u, k)) as char) == t[k] by {
        assert(unicode_chunk(u, k) == code_unit(t[k]));
        lemma_code_unit_value(t[k]);
        vstd::utf8::char_u32_cast(t[k], t[k] as u32);
    }
    assert(unicode_decoded(u) =~= t);
}

// ---------------------------------------------------------------- sorting

/// The keys run from greatest to least.
pub open spec fn sorted_desc<T>(s: Seq<T>, key: spec_fn(T) -> int) -> bool {
    forall|i: int, j: int| 0 <= i < j < s.len() ==> key(s[i]) >= key(s[j])
}

/// Putting an element into a sorted sequence keeps it sorted and adds the
/// element.
proof fn lemma_insert_desc_sorted<T>(s: Seq<T>, x: T, key: spec_fn(T) -> int)
    requires
        sorted_desc(s, key),
    ensures
        sorted_desc(insert_desc(s, x, key), key),
        insert_desc(s, x, key).to_multiset() == s.to_multiset().insert(x),
        forall|y: T| #[trigger] insert_desc(s, x, key).contains(y) ==> s.contains(y) || y == x,
    decreases s.len(),
{
    broadcast use vstd::seq_lib::group_to_multiset_ensures;

    if s.len() == 0 {
        assert(insert_desc(s, x, key) == seq![x]);
        assert(seq![x] =~= Seq::<T>::empty().push(x));
    } else if key(s.last()) >= key(x) {
        let r = s.push(x);
        assert forall|y: T| r.contains(y) implies s.contains(y) || y == x by {
            let k = choose|k: int| 0 <= k < r.len() && r[k] == y;
            if k < s.len() {
                assert(s[k] == y);
            }
        }
    } else {
        let s0 = s.drop_last();
        assert(sorted_desc(s0, key));
        lemma_insert_desc_sorted(s0, x, key);
        let r0 = insert_desc(s0, x, key);
        let r = r0.push(s.last());
        assert forall|i: int, j: int| 0 <= i < j < r.len() implies key(r[i]) >= key(r[j]) by {
            if j == r.len() - 1 {
                assert(r0.contains(r[i]));
                if s0.contains(r[i]) {
                    let k = choose|k: int| 0 <= k < s0.len() && s0[k] == r[i];
                    assert(s[k] == r[i]);
                }
            }
        }
        assert forall|y: T| r.contains(y) implies s.contains(y) || y == x by {
            let k = choose|k: int| 0 <= k < r.len() && r[k] == y;
            if k < r0.len() {
                assert(r0.contains(y));
                if s0.contains(y) {
                    let m = choose|m: int| 0 <= m < s0.len() && s0[m] == y;
                    assert(s[m] == y);
                }
            } else {
                assert(s[s.len() - 1] == y);
            }
        }
        assert(s0.push(s.last()) =~= s);
    }
}

/// Sorting by decreasing key orders the keys from greatest to least and
/// keeps every element, as many times as it occurs.
pub proof fn lemma_sort_desc<T>(s: Seq<T>, key: spec_fn(T) -> int)
    ensures
        sorted_desc(sort_desc(s, key), key),
        sort_desc(s, key).to_multiset() == s.to_multiset(),
    decreases s.len(),
{
    broadcast use vstd::seq_lib::group_to_multiset_ensures;

    if s.len() == 0 {
        assert(sort_desc(s, key) =~= s);
    } else {
        lemma_sort_desc(s.drop_last(), key);
        lemma_insert_desc_sorted(sort_desc(s.drop_last(), key), s.last(), key);
        assert(s.drop_last().push(s.last()) =~= s);
    }
}

// ---------------------------------------------------------------- sheets

/// Decimal digits read back as their number.
proof fn lemma_decimal_value(n: nat)
    ensures
        crate::numbers::dec_digits_value(crate::numbers::decimal(n)) == Some(n as int),
        crate::numbers::decimal(n).len() >= 1,
        '0' <= crate::numbers::decimal(n)[0] <= '9',
    decreases n,
{
    let d = crate::numbers::decimal(n);
    if n >= 10 {
        lemma_decimal_value(n / 10);
        let p = crate::numbers::decimal(n / 10);
        let x = (48 + n % 10) as char;
        assert(d == p + seq![x]);
        assert((p + seq![x]).drop_last() =~= p);
        assert(x as int == 48 + n % 10);
        assert((n / 10) as int * 10 + (n % 10) as int == n) by (nonlinear_arith);
        assert(d[0] == p[0]);
    } else {
        let x = (48 + n) as char;
        assert(d =~= seq![x]);
        assert(seq![x].drop_last() =~= Seq::<char>::empty());
        assert(x as int == 48 + n);
        assert(crate::numbers::dec_digits_value(Seq::<char>::empty()) == Some(0int));
    }
}

/// An offset written in decimal reads back as itself.
proof fn lemma_decimal_parses(n: nat)
    requires
        n <= isize::MAX,
    ensures
        parsed_isize(crate::numbers::decimal(n)) == Some(n as isize),
{
    lemma_decimal_value(n);
}

/// A sheet row left untranslated: its translation is its original text,
/// which is there in the bytes at its offset.
pub open spec fn untranslated_row(bytes: Seq<u8>, row: Seq<Seq<char>>) -> bool {
    &&& row.len() >= 3
    &&& row[1] == row[2]
    &&& exists|o: nat|
        #![trigger crate::numbers::decimal(o)]
        row[0] == crate::numbers::decimal(o) && o + utf8_len(row[1]) <= bytes.len() && bytes.subrange(
            o as int,
            (o + utf8_len(row[1])) as int,
        ) == encode_utf8(row[1])
}

/// Putting back a sheet whose rows are all left untranslated changes no
/// byte.
pub proof fn lemma_untranslated_sheet(bytes: Seq<u8>, rows: Seq<Seq<Seq<char>>>)
    requires
        bytes.len() <= isize::MAX,
        forall|i: int| 1 <= i < rows.len() ==> untranslated_row(bytes, #[trigger] rows[i]),
    ensures
        crate::sheet::entered(bytes, rows) == Some(bytes),
{
    lemma_untranslated_upto(bytes, rows, rows.len() as int);
}

/// The first `n` rows of such a sheet leave the bytes as they were.
proof fn lemma_untranslated_upto(bytes: Seq<u8>, rows: Seq<Seq<Seq<char>>>, n: int)
    requires
        bytes.len() <= isize::MAX,
        n <= rows.len(),
        forall|i: int| 1 <= i < rows.len() ==> untranslated_row(bytes, #[trigger] rows[i]),
    ensures
        crate::sheet::entered_upto(bytes, rows, n) == Some((bytes, 0int)),
    decreases n,
{
    if n > 1 {
        lemma_untranslated_upto(bytes, rows, n - 1);
        let row = rows[n - 1];
        assert(untranslated_row(bytes, row));
        let o = choose|o: nat|
            #![trigger crate::numbers::decimal(o)]
            row[0] == crate::numbers::decimal(o) && o + utf8_len(row[1]) <= bytes.len()
                && bytes.subrange(o as int, (o + utf8_len(row[1])) as int) == encode_utf8(row[1]);
        lemma_decimal_value(o);
        lemma_decimal_parses(o);
        let k = utf8_len(row[1]) as int;
        assert(bytes.subrange(0, o as int) + encode_utf8(row[2]) + bytes.subrange(
            o + k,
            bytes.len() as int,
        ) =~= bytes);
    }
}

// ---------------------------------------------------------------- act tables

/// The text does not hold the character.
pub open spec fn lacks(s: Seq<char>, c: char) -> bool {
    forall|j: int| 0 <= j < s.len() ==> s[j] != c
}

/// A scan over a stretch without the separator character goes on as from
/// its end.
proof fn lemma_split_scan(t: Seq<char>, c: char, start: int, i: int, k: int)
    requires
        0 <= start <= i <= k <= t.len(),
        forall|j: int| i <= j < k ==> t[j] != c,
    ensures
        split_from(t, seq![c], start, i) == split_from(t, seq![c], start, k),
    decreases k - i,
{
    if i < k {
        assert(!matches_at(t, seq![c], i)) by {
            if matches_at(t, seq![c], i) {
                assert(t.subrange(i, i + 1)[0] == t[i]);
            }
        }
        lemma_split_scan(t, c, start, i + 1, k);
    }
}

/// A scan from `q` on is the scan of the text that starts at `q`.
proof fn lemma_split_shift(t: Seq<char>, c: char, q: int, start: int, i: int)
    requires
        0 <= q <= start <= i,
        start <= t.len(),
    ensures
        split_from(t, seq![c], start, i) == split_from(t.skip(q), seq![c], start - q, i - q),
    decreases t.len() - i,
{
    let u = t.skip(q);
    let sep = seq![c];
    if i >= t.len() {
        assert(t.subrange(start, t.len() as int) =~= u.subrange(start - q, u.len() as int));
    } else {
        assert(matches_at(t, sep, i) == matches_at(u, sep, i - q)) by {
            assert(t.subrange(i, i + 1) =~= u.subrange(i - q, i - q + 1));
        }
        if matches_at(t, sep, i) {
            lemma_split_shift(t, c, q, i + 1, i + 1);
            assert(t.subrange(start, i) =~= u.subrange(start - q, i - q));
        } else {
            lemma_split_shift(t, c, q, start, i + 1);
        }
    }
}

/// Splitting text joined with a one-character separator that no piece holds
/// gives the pieces back.
pub(crate) proof fn lemma_split_join(ps: Seq<Seq<char>>, c: char)
    requires
        ps.len() >= 1,
        forall|i: int| 0 <= i < ps.len() ==> lacks(#[trigger] ps[i], c),
    ensures
        split(join(ps, seq![c]), seq![c]) == ps,
    decreases ps.len(),
{
    let sep = seq![c];
    let a = ps[0];
    assert(lacks(a, c));
    if ps.len() == 1 {
        assert(join(ps, sep) == a);
        lemma_split_scan(a, c, 0, 0, a.len() as int);
        assert(a.subrange(0, a.len() as int) =~= a);
        assert(split(a, sep) =~= seq![a]);
    } else {
        let rest = ps.drop_first();
        assert(ps =~= seq![a] + rest);
        assert forall|i: int| 0 <= i < rest.len() implies lacks(#[trigger] rest[i], c) by {
            assert(rest[i] == ps[i + 1]);
        }
        lemma_split_join(rest, c);
        crate::text::lemma_join_prepend(a, rest, sep);
        let t = join(ps, sep);
        let tail = join(rest, sep);
        assert(t == a + sep + tail);
        let al = a.len() as int;
        assert forall|j: int| 0 <= j < al implies t[j] != c by {
            assert(t[j] == a[j]);
        }
        lemma_split_scan(t, c, 0, 0, al);
        assert(matches_at(t, sep, al)) by {
            assert(t.subrange(al, al + 1) =~= sep);
        }
        assert(t.subrange(0, al) =~= a);
        lemma_split_shift(t, c, al + 1, al + 1, al + 1);
        assert(t.skip(al + 1) =~= tail);
        assert(split_from(t, sep, 0, 0) =~= seq![a] + split_from(tail, sep, 0, 0));
    }
}

/// Replacing CR LF changes nothing in a text without CR.
pub(crate) proof fn lemma_no_crlf(t: Seq<char>, i: int)
    requires
        0 <= i <= t.len(),
        lacks(t, '\r'),
    ensures
        crate::text::replace_from(t, seq!['\r', '\n'], seq!['\n'], i) == t.skip(i),
    decreases t.len() - i,
{
    if i < t.len() {
        assert(!matches_at(t, seq!['\r', '\n'], i)) by {
            if matches_at(t, seq!['\r', '\n'], i) {
                assert(t.subrange(i, i + 2)[0] == t[i]);
            }
        }
        lemma_no_crlf(t, i + 1);
        assert(seq![t[i]] + t.skip(i + 1) =~= t.skip(i));
    } else {
        assert(t.skip(i) =~= Seq::<char>::empty());
    }
}

/// Text that an `.act` cell can hold: no cell separator and no line break.
pub open spec fn act_cell_ok(s: Seq<char>) -> bool {
    lacks(s, '\u{2588}') && lacks(s, '\n') && lacks(s, '\r')
}

/// A key that stands for itself in an `.act` table: not empty, and not a
/// single letter that has presentation forms, nor one of those forms.
pub open spec fn plain_act_key(k: Seq<char>) -> bool {
    &&& k.len() >= 1
    &&& !(k.len() == 1 && (spec_presentation_forms(k[0]) is Some || spec_letter_of_form(k[0]) is Some))
}

/// No letter's forms are keys: grouping keeps every entry on its own.
proof fn lemma_grouped_plain(m: Seq<(Seq<char>, Seq<char>)>, n: int)
    requires
        forall|i: int| 0 <= i < m.len() ==> plain_act_key(#[trigger] m[i].0),
    ensures
        crate::cipher::grouped_upto(m, n) == (Seq::<(Seq<char>, Seq<Seq<char>>)>::empty(), m),
    decreases n,
{
    if n > 0 {
        lemma_grouped_plain(m, n - 1);
        let c = shaped_letters()[n - 1];
        match spec_presentation_forms(c) {
            Some(f) => {
                lemma_form_letter(c);
                let forms = crate::cipher::form_texts(f);
                assert forall|j: int| 0 <= j < 4 implies !has_key(m, #[trigger] forms[j]) by {
                    if has_key(m, forms[j]) {
                        let i = choose|i: int| 0 <= i < m.len() && m[i].0 == forms[j];
                        assert(plain_act_key(m[i].0));
                        assert(forms[j].len() == 1);
                        assert(spec_letter_of_form(forms[j][0]) is Some);
                    }
                }
                lemma_gather_absent(m, forms, 4);
                assert(forms.take(4) =~= forms);
            },
            None => {},
        }
    }
}

/// Gathering forms the table lacks gathers nothing.
pub(crate) proof fn lemma_gather_absent(m: Seq<(Seq<char>, Seq<char>)>, forms: Seq<Seq<char>>, n: int)
    requires
        0 <= n <= forms.len(),
        forall|j: int| 0 <= j < forms.len() ==> !has_key(m, #[trigger] forms[j]),
    ensures
        crate::cipher::gather_forms(m, forms.take(n)) == (Seq::<Seq<char>>::empty(), m),
    decreases n,
{
    if n > 0 {
        lemma_gather_absent(m, forms, n - 1);
        assert(forms.take(n).drop_last() =~= forms.take(n - 1));
        assert(forms.take(n).last() == forms[n - 1]);
    } else {
        assert(forms.take(0) =~= Seq::<Seq<char>>::empty());
    }
}

/// Putting each entry in with a one-value list, keys being unique.
proof fn lemma_lists_inserted_plain(m: Seq<(Seq<char>, Seq<char>)>)
    requires
        keys_unique(m),
    ensures
        crate::cipher::lists_inserted(Seq::empty(), m) == m.map_values(
            |e: (Seq<char>, Seq<char>)| (e.0, seq![e.1]),
        ),
    decreases m.len(),
{
    if m.len() > 0 {
        let m0 = m.drop_last();
        assert(keys_unique(m0));
        lemma_lists_inserted_plain(m0);
        let g0 = m0.map_values(|e: (Seq<char>, Seq<char>)| (e.0, seq![e.1]));
        if has_key(g0, m.last().0) {
            let j = choose|j: int| 0 <= j < g0.len() && g0[j].0 == m.last().0;
            assert(m[j].0 == m[m.len() - 1].0);
        }
        assert(g0.push((m.last().0, seq![m.last().1])) =~= m.map_values(
            |e: (Seq<char>, Seq<char>)| (e.0, seq![e.1]),
        ));
    }
}

/// The `.act` header line holds no line break and no cell separator.
pub(crate) proof fn lemma_act_header()
    ensures
        lacks(crate::cipher::act_header(), '\n'),
        lacks(crate::cipher::act_header(), '\r'),
        crate::cipher::act_header().len() >= 1,
{
    reveal_strlit("الحرف█منفصل█متصل بما قبله█متصل بما بعده█متصل من الجهتين");
}

/// The lines of a plain table's `.act` text read back as its entries, in
/// order, for the first `n` lines after the header.
proof fn lemma_act_upto_plain(
    m: Seq<(Seq<char>, Seq<char>)>,
    lines: Seq<Seq<char>>,
    n: int,
)
    requires
        keys_unique(m),
        forall|i: int| 0 <= i < m.len() ==> plain_act_key(#[trigger] m[i].0),
        forall|i: int| 0 <= i < m.len() ==> act_cell_ok(#[trigger] m[i].0) && act_cell_ok(m[i].1),
        lines.len() == m.len() + 1,
        forall|i: int|
            0 <= i < m.len() ==> lines[i + 1] == #[trigger] m[i].0 + seq!['\u{2588}'] + m[i].1,
        1 <= n <= lines.len(),
    ensures
        crate::cipher::act_upto(lines, n) == m.take(n - 1),
    decreases n,
{
    if n == 1 {
        assert(m.take(0) =~= Seq::<(Seq<char>, Seq<char>)>::empty());
    } else {
        lemma_act_upto_plain(m, lines, n - 1);
        let e = m[n - 2];
        assert(plain_act_key(e.0) && act_cell_ok(e.0) && act_cell_ok(e.1));
        let line = lines[n - 1];
        assert(line == e.0 + seq!['\u{2588}'] + e.1);
        let ps = seq![e.0, e.1];
        assert(join(ps, seq!['\u{2588}']) == line) by {
            assert(ps.drop_last() =~= seq![e.0]);
            assert(join(seq![e.0], seq!['\u{2588}']) == e.0);
            assert(ps.last() == e.1);
            assert(join(ps, seq!['\u{2588}']) == join(ps.drop_last(), seq!['\u{2588}']) + seq!['\u{2588}'] + ps.last());
        }
        assert forall|i: int| 0 <= i < ps.len() implies lacks(#[trigger] ps[i], '\u{2588}') by {}
        lemma_split_join(ps, '\u{2588}');
        let cols = split(line, crate::cipher::act_separator());
        assert(cols == ps);
        let table = crate::cipher::char_table(
            e.0,
            seq![
                crate::cipher::cell_or_empty(cols, 1),
                crate::cipher::cell_or_empty(cols, 2),
                crate::cipher::cell_or_empty(cols, 3),
                crate::cipher::cell_or_empty(cols, 4),
            ],
        );
        assert(table == seq![(e.0, e.1)]);
        let before = m.take(n - 2);
        assert(crate::cipher::inserted_all(before, table) == insert_entry(before, e.0, e.1)) by {
            assert(table.drop_last() =~= Seq::<(Seq<char>, Seq<char>)>::empty());
            assert(crate::cipher::inserted_all(before, Seq::<(Seq<char>, Seq<char>)>::empty()) == before);
            assert(table.last() == (e.0, e.1));
        }
        if has_key(before, e.0) {
            let j = choose|j: int| 0 <= j < before.len() && before[j].0 == e.0;
            assert(m[j].0 == m[n - 2].0);
        }
        assert(before.push(e) =~= m.take(n - 1));
    }
}

/// A table whose keys are plain (not letters with presentation forms, nor
/// their forms) and whose keys and values hold no cell separator or line
/// break reads back from its `.act` text as it was.
pub proof fn lemma_act_roundtrip_plain(m: Seq<(Seq<char>, Seq<char>)>)
    requires
        keys_unique(m),
        forall|i: int| 0 <= i < m.len() ==> plain_act_key(#[trigger] m[i].0),
        forall|i: int| 0 <= i < m.len() ==> act_cell_ok(#[trigger] m[i].0) && act_cell_ok(m[i].1),
    ensures
        crate::cipher::act_table(crate::cipher::act_text(m)) == m,
{
    let sep = seq!['\u{2588}'];
    let nl = seq!['\n'];
    lemma_grouped_plain(m, shaped_letters().len() as int);
    lemma_lists_inserted_plain(m);
    let g = crate::cipher::grouped(m);
    assert(g == m.map_values(|e: (Seq<char>, Seq<char>)| (e.0, seq![e.1])));
    let ls = crate::cipher::act_lines(g);
    assert forall|i: int| 0 <= i < m.len() implies #[trigger] ls[i] == m[i].0 + sep + m[i].1 by {
        assert(g[i] == (m[i].0, seq![m[i].1]));
        assert(join(seq![m[i].1], sep) == m[i].1);
    }
    lemma_act_header();
    let h = crate::cipher::act_header();
    let body = if m.len() == 0 {
        seq![Seq::<char>::empty()]
    } else {
        ls
    };
    let all = seq![h] + body;
    let t = crate::cipher::act_text(m);
    if m.len() == 0 {
        assert(g.len() == 0);
        assert(ls =~= Seq::<Seq<char>>::empty());
        assert(join(ls, nl) =~= Seq::<char>::empty());
        assert(t == h + nl + join(ls, nl));
        assert(all =~= seq![h, Seq::<char>::empty()]);
        assert(all.drop_last() =~= seq![h]);
        assert(join(seq![h], nl) == h);
        assert(join(all, nl) == join(all.drop_last(), nl) + nl + all.last());
        assert(join(all, nl) =~= t);
    } else {
        crate::text::lemma_join_prepend(h, ls, nl);
        assert(join(all, nl) == t);
    }
    assert forall|i: int| 0 <= i < all.len() implies lacks(#[trigger] all[i], '\n') && lacks(all[i], '\r') by {
        if i > 0 && m.len() > 0 {
            assert(all[i] == ls[i - 1]);
            assert(act_cell_ok(m[i - 1].0) && act_cell_ok(m[i - 1].1));
            let x = m[i - 1].0 + sep + m[i - 1].1;
            assert forall|j: int| 0 <= j < x.len() implies x[j] != '\n' && x[j] != '\r' by {
                if j < m[i - 1].0.len() {
                    assert(x[j] == m[i - 1].0[j]);
                } else if j > m[i - 1].0.len() {
                    assert(x[j] == m[i - 1].1[j - m[i - 1].0.len() - 1]);
                }
            }
        }
    }
    assert(lacks(t, '\r')) by {
        crate::text::lemma_join_split(t, nl);
        lemma_split_join(all, '\n');
        assert forall|j: int| 0 <= j < t.len() implies t[j] != '\r' by {
            lemma_join_lacks(all, nl, '\r', j);
        }
    }
    lemma_no_crlf(t, 0);
    assert(t.skip(0) =~= t);
    assert forall|i: int| 0 <= i < all.len() implies lacks(#[trigger] all[i], '\n') by {}
    lemma_split_join(all, '\n');
    let lines = crate::cipher::text_lines(t);
    assert(lines == all);
    if m.len() == 0 {
        assert(split(Seq::<char>::empty(), sep) =~= seq![Seq::<char>::empty()]) by {
            assert(Seq::<char>::empty().subrange(0, 0) =~= Seq::<char>::empty());
        }
        assert(lines[1] =~= Seq::<char>::empty());
        assert(split(lines[1], sep)[0].len() == 0);
        assert(crate::cipher::act_upto(lines, 1) =~= Seq::<(Seq<char>, Seq<char>)>::empty());
        assert(crate::cipher::act_upto(lines, 2) =~= Seq::<(Seq<char>, Seq<char>)>::empty());
        assert(m =~= Seq::<(Seq<char>, Seq<char>)>::empty());
    } else {
        assert forall|i: int| 0 <= i < m.len() implies lines[i + 1] == #[trigger] m[i].0 + sep + m[i].1 by {
            assert(lines[i + 1] == ls[i]);
        }
        lemma_act_upto_plain(m, lines, lines.len() as int);
        assert(m.take(m.len() as int) =~= m);
    }
}

/// A character that no piece holds and the separator lacks is not in the
/// joined text.
pub(crate) proof fn lemma_join_lacks(ps: Seq<Seq<char>>, sep: Seq<char>, c: char, j: int)
    requires
        forall|i: int| 0 <= i < ps.len() ==> lacks(#[trigger] ps[i], c),
        lacks(sep, c),
        0 <= j < join(ps, sep).len(),
    ensures
        join(ps, sep)[j] != c,
    decreases ps.len(),
{
    if ps.len() == 1 {
        assert(lacks(ps[0], c));
    } else if ps.len() > 1 {
        let p0 = ps.drop_last();
        assert forall|i: int| 0 <= i < p0.len() implies lacks(#[trigger] p0[i], c) by {
            assert(p0[i] == ps[i]);
        }
        let a = join(p0, sep);
        assert(join(ps, sep) == a + sep + ps.last());
        assert(lacks(ps[ps.len() - 1], c));
        if j < a.len() {
            lemma_join_lacks(p0, sep, c, j);
        } else if j < a.len() + sep.len() {
            assert(join(ps, sep)[j] == sep[j - a.len()]);
        } else {
            assert(join(ps, sep)[j] == ps.last()[j - a.len() - sep.len()]);
        }
    }
}

// ---------------------------------------------------------------- ligatures

/// The text holds no ligature character.
pub open spec fn no_ligature(t: Seq<char>) -> bool {
    forall|i: int| 0 <= i < t.len() ==> spec_ligature_letters(#[trigger] t[i]) is None
}

/// Every ligature stands for at least one letter.
#[verifier::rlimit(100)]
proof fn lemma_ligature_nonempty(c: char)
    ensures
        spec_ligature_letters(c) matches Some(p) ==> p.len() >= 1,
{
}

/// Writing out ligatures goes piece by piece.
proof fn lemma_uncompressed_concat(a: Seq<char>, b: Seq<char>)
    ensures
        uncompressed(a + b) == uncompressed(a) + uncompressed(b),
    decreases b.len(),
{
    if b.len() == 0 {
        assert(a + b =~= a);
        assert(uncompressed(a) + Seq::<char>::empty() =~= uncompressed(a));
    } else {
        lemma_uncompressed_concat(a, b.drop_last());
        assert((a + b).drop_last() =~= a + b.drop_last());
        assert((a + b).last() == b.last());
        let tail = match spec_ligature_letters(b.last()) {
            Some(v) => v,
            None => seq![b.last()],
        };
        assert(uncompressed(a) + uncompressed(b.drop_last()) + tail =~= uncompressed(a) + (uncompressed(
            b.drop_last(),
        ) + tail));
    }
}

/// Text without ligatures is its own written-out form.
proof fn lemma_uncompressed_plain(t: Seq<char>)
    requires
        no_ligature(t),
    ensures
        uncompressed(t) == t,
    decreases t.len(),
{
    if t.len() > 0 {
        let t0 = t.drop_last();
        assert forall|i: int| 0 <= i < t0.len() implies spec_ligature_letters(#[trigger] t0[i]) is None by {
            assert(t0[i] == t[i]);
        }
        lemma_uncompressed_plain(t0);
        assert(spec_ligature_letters(t[t.len() - 1]) is None);
        assert(t0 + seq![t.last()] =~= t);
    }
}

/// Replacing the letters of a ligature that stands for plain letters by the
/// ligature does not change the written-out text.
proof fn lemma_uncompressed_replace(s: Seq<char>, x: char, p: Seq<char>, i: int)
    requires
        spec_ligature_letters(x) == Some(p),
        p.len() >= 1,
        uncompressed(p) == p,
        0 <= i <= s.len(),
    ensures
        uncompressed(crate::text::replace_from(s, p, seq![x], i)) == uncompressed(s.skip(i)),
    decreases s.len() - i,
{
    let r = crate::text::replace_from(s, p, seq![x], i);
    if i >= s.len() {
        assert(s.skip(i) =~= Seq::<char>::empty());
        assert(r =~= Seq::<char>::empty());
    } else if matches_at(s, p, i) {
        lemma_uncompressed_replace(s, x, p, i + p.len());
        let rest = crate::text::replace_from(s, p, seq![x], i + p.len());
        assert(r == seq![x] + rest);
        lemma_uncompressed_concat(seq![x], rest);
        assert(seq![x].drop_last() =~= Seq::<char>::empty());
        assert(seq![x].last() == x);
        assert(uncompressed(Seq::<char>::empty()) == Seq::<char>::empty());
        assert(uncompressed(seq![x]) == uncompressed(Seq::<char>::empty()) + p);
        assert(uncompressed(seq![x]) =~= p);
        assert(s.skip(i) =~= p + s.skip(i + p.len()));
        lemma_uncompressed_concat(p, s.skip(i + p.len()));
    } else {
        lemma_uncompressed_replace(s, x, p, i + 1);
        let rest = crate::text::replace_from(s, p, seq![x], i + 1);
        assert(r == seq![s[i]] + rest);
        lemma_uncompressed_concat(seq![s[i]], rest);
        assert(s.skip(i) =~= seq![s[i]] + s.skip(i + 1));
        lemma_uncompressed_concat(seq![s[i]], s.skip(i + 1));
    }
}

/// Writing out the ligatures of a compressed text gives the text back,
/// when the text holds no ligature and each ligature used stands for
/// letters that are not ligatures themselves.
pub proof fn lemma_uncompress_compress(t: Seq<char>, ligatures: Seq<char>)
    requires
        no_ligature(t),
        forall|i: int|
            0 <= i < ligatures.len() ==> (spec_ligature_letters(#[trigger] ligatures[i]) matches Some(p)
                ==> no_ligature(p)),
    ensures
        uncompressed(compressed(t, ligatures)) == t,
    decreases ligatures.len(),
{
    if ligatures.len() == 0 {
        lemma_uncompressed_plain(t);
    } else {
        let l0 = ligatures.drop_last();
        assert forall|i: int| 0 <= i < l0.len() implies (spec_ligature_letters(#[trigger] l0[i]) matches Some(p)
            ==> no_ligature(p)) by {
            assert(l0[i] == ligatures[i]);
        }
        lemma_uncompress_compress(t, l0);
        let x = ligatures.last();
        let before = compressed(t, l0);
        match spec_ligature_letters(x) {
            Some(p) => {
                assert(spec_ligature_letters(ligatures[ligatures.len() - 1]) == Some(p));
                lemma_ligature_nonempty(x);
                lemma_uncompressed_plain(p);
                lemma_uncompressed_replace(before, x, p, 0);
                assert(before.skip(0) =~= before);
            },
            None => {},
        }
    }
}

// ---------------------------------------------------------------- ciphering

/// The text with one character put in for another wherever it occurs.
pub open spec fn char_swapped(t: Seq<char>, a: char, b: char) -> Seq<char> {
    t.map_values(|c: char| if c == a { b } else { c })
}

/// Replacing a one-character text by another puts the one character in
/// for the other.
proof fn lemma_replace_one_char(s: Seq<char>, a: char, b: char, i: int)
    requires
        0 <= i <= s.len(),
    ensures
        crate::text::replace_from(s, seq![a], seq![b], i) == char_swapped(s.skip(i), a, b),
    decreases s.len() - i,
{
    if i >= s.len() {
        assert(char_swapped(s.skip(i), a, b) =~= Seq::<char>::empty());
    } else {
        lemma_replace_one_char(s, a, b, i + 1);
        assert(matches_at(s, seq![a], i) <==> s[i] == a) by {
            if s[i] == a {
                assert(s.subrange(i, i + 1) =~= seq![a]);
            }
            if matches_at(s, seq![a], i) {
                assert(s.subrange(i, i + 1)[0] == s[i]);
            }
        }
        let x = if s[i] == a { b } else { s[i] };
        assert(seq![x] + char_swapped(s.skip(i + 1), a, b) =~= char_swapped(s.skip(i), a, b));
    }
}

/// The character a table of one-character keys puts in for `c`: the value
/// of the last entry whose key is `c`, or `c` itself.
pub open spec fn char_sub(ps: Seq<(Seq<char>, Seq<char>)>, c: char) -> char
    decreases ps.len(),
{
    if ps.len() == 0 {
        c
    } else if ps.last().0 == seq![c] {
        ps.last().1[0]
    } else {
        char_sub(ps.drop_last(), c)
    }
}

/// Every key and value is one character.
pub open spec fn single_chars(ps: Seq<(Seq<char>, Seq<char>)>) -> bool {
    forall|i: int| 0 <= i < ps.len() ==> (#[trigger] ps[i]).0.len() == 1 && ps[i].1.len() == 1
}

/// No key is also a value.
pub open spec fn keys_not_values(ps: Seq<(Seq<char>, Seq<char>)>) -> bool {
    forall|i: int, j: int| 0 <= i < ps.len() && 0 <= j < ps.len() ==> (#[trigger] ps[i]).0 != (#[trigger] ps[j]).1
}

/// A character that is no key is left as it is.
proof fn lemma_char_sub_none(ps: Seq<(Seq<char>, Seq<char>)>, c: char)
    requires
        forall|j: int| 0 <= j < ps.len() ==> (#[trigger] ps[j]).0 != seq![c],
    ensures
        char_sub(ps, c) == c,
    decreases ps.len(),
{
    if ps.len() > 0 {
        let p0 = ps.drop_last();
        assert(ps[ps.len() - 1].0 != seq![c]);
        assert forall|j: int| 0 <= j < p0.len() implies (#[trigger] p0[j]).0 != seq![c] by {
            assert(p0[j] == ps[j]);
        }
        lemma_char_sub_none(p0, c);
    }
}

/// A key's character gets the key's value.
proof fn lemma_char_sub_key(ps: Seq<(Seq<char>, Seq<char>)>, j: int, c: char)
    requires
        keys_unique(ps),
        0 <= j < ps.len(),
        ps[j].0 == seq![c],
    ensures
        char_sub(ps, c) == ps[j].1[0],
    decreases ps.len(),
{
    if j < ps.len() - 1 {
        let p0 = ps.drop_last();
        assert(ps[ps.len() - 1].0 != ps[j].0);
        assert(p0[j] == ps[j]);
        lemma_char_sub_key(p0, j, c);
    }
}

/// What a table puts in is the character itself or one of its values.
proof fn lemma_char_sub_range(ps: Seq<(Seq<char>, Seq<char>)>, c: char)
    requires
        single_chars(ps),
    ensures
        char_sub(ps, c) == c || exists|j: int| 0 <= j < ps.len() && ps[j].1 == seq![char_sub(ps, c)],
    decreases ps.len(),
{
    if ps.len() > 0 {
        let p0 = ps.drop_last();
        if ps.last().0 == seq![c] {
            let j = ps.len() - 1;
            assert(ps[j].1.len() == 1);
            assert(ps[j].1 =~= seq![ps[j].1[0]]);
        } else {
            assert(single_chars(p0)) by {
                assert forall|i: int| 0 <= i < p0.len() implies (#[trigger] p0[i]).0.len() == 1 && p0[i].1.len() == 1 by {
                    assert(p0[i] == ps[i]);
                }
            }
            lemma_char_sub_range(p0, c);
            if char_sub(p0, c) != c {
                let j = choose|j: int| 0 <= j < p0.len() && p0[j].1 == seq![char_sub(p0, c)];
                assert(ps[j] == p0[j]);
            }
        }
    }
}

/// Replacing, pair after pair, the one-character keys of a table whose
/// keys are apart from its values puts in each character's value.
proof fn lemma_replaced_all_chars(t: Seq<char>, ps: Seq<(Seq<char>, Seq<char>)>)
    requires
        keys_unique(ps),
        single_chars(ps),
        keys_not_values(ps),
    ensures
        crate::cipher::replaced_all(t, ps) == t.map_values(|c: char| char_sub(ps, c)),
    decreases ps.len(),
{
    if ps.len() == 0 {
        assert(t.map_values(|c: char| char_sub(ps, c)) =~= t);
    } else {
        let p0 = ps.drop_last();
        assert(keys_unique(p0));
        assert(single_chars(p0)) by {
            assert forall|i: int| 0 <= i < p0.len() implies (#[trigger] p0[i]).0.len() == 1 && p0[i].1.len() == 1 by {
                assert(p0[i] == ps[i]);
            }
        }
        assert(keys_not_values(p0)) by {
            assert forall|i: int, j: int| 0 <= i < p0.len() && 0 <= j < p0.len() implies (#[trigger] p0[i]).0 != (#[trigger] p0[j]).1 by {
                assert(p0[i] == ps[i] && p0[j] == ps[j]);
            }
        }
        lemma_replaced_all_chars(t, p0);
        let last = ps.len() - 1;
        let e = ps[last];
        let a = e.0[0];
        let b = e.1[0];
        assert(e.0 =~= seq![a]);
        assert(e.1 =~= seq![b]);
        let r0 = t.map_values(|c: char| char_sub(p0, c));
        lemma_replace_one_char(r0, a, b, 0);
        assert(r0.skip(0) =~= r0);
        assert(crate::cipher::replaced_all(t, ps) == crate::text::replace(r0, e.0, e.1));
        assert forall|i: int| 0 <= i < t.len() implies (if r0[i] == a { b } else { r0[i] }) == char_sub(ps, t[i]) by {
            let x = t[i];
            lemma_char_sub_range(p0, x);
            if x == a {
                assert forall|j: int| 0 <= j < p0.len() implies (#[trigger] p0[j]).0 != seq![x] by {
                    assert(p0[j] == ps[j]);
                    assert(ps[j].0 != ps[last].0);
                }
                lemma_char_sub_none(p0, x);
            } else {
                assert(ps.last().0 != seq![x]) by {
                    assert(seq![x][0] == x);
                }
                if char_sub(p0, x) != x {
                    let j = choose|j: int| 0 <= j < p0.len() && p0[j].1 == seq![char_sub(p0, x)];
                    assert(ps[j] == p0[j]);
                    assert(ps[last].0 != ps[j].1);
                }
            }
        }
        assert(char_swapped(r0, a, b) =~= t.map_values(|c: char| char_sub(ps, c)));
    }
}

/// Sorting elements whose keys are all equal keeps their order.
proof fn lemma_sort_equal_keys<T>(s: Seq<T>, key: spec_fn(T) -> int, n: int)
    requires
        forall|i: int| 0 <= i < s.len() ==> key(#[trigger] s[i]) == n,
    ensures
        sort_desc(s, key) == s,
    decreases s.len(),
{
    if s.len() > 0 {
        let s0 = s.drop_last();
        assert forall|i: int| 0 <= i < s0.len() implies key(#[trigger] s0[i]) == n by {
            assert(s0[i] == s[i]);
        }
        lemma_sort_equal_keys(s0, key, n);
        assert(key(s[s.len() - 1]) == n);
        if s0.len() == 0 {
            assert(s =~= seq![s.last()]);
        } else {
            assert(key(s0[s0.len() - 1]) == n);
            assert(s0.push(s.last()) =~= s);
        }
    }
}

/// A table of one-character keys and values, no key a value, sorted for
/// ciphering, is as it was.
proof fn lemma_cipher_order(m: Seq<(Seq<char>, Seq<char>)>)
    requires
        single_chars(m),
    ensures
        sort_desc(m, |e: (Seq<char>, Seq<char>)| crate::utils::key_length(e)) == m,
{
    lemma_sort_equal_keys(m, |e: (Seq<char>, Seq<char>)| crate::utils::key_length(e), 1);
}

/// Deciphering a ciphered text gives it back, when the table's keys and
/// values are single characters, no two keys share a value, no key is also
/// a value, and no character of the text is a value.
pub proof fn lemma_decipher_cipher(t: Seq<char>, m: Seq<(Seq<char>, Seq<char>)>)
    requires
        keys_unique(m),
        values_unique(m),
        single_chars(m),
        keys_not_values(m),
        forall|i: int, j: int| 0 <= i < t.len() && 0 <= j < m.len() ==> seq![#[trigger] t[i]] != (#[trigger] m[j]).1,
    ensures
        crate::cipher::ciphered(crate::cipher::ciphered(t, m, false), m, true) == t,
{
    let f = flipped(m);
    lemma_swapped_flips(m);
    assert(keys_unique(f)) by {
        assert forall|i: int, j: int| 0 <= i < j < f.len() implies f[i].0 != f[j].0 by {}
    }
    assert(single_chars(f));
    assert(keys_not_values(f)) by {
        assert forall|i: int, j: int| 0 <= i < f.len() && 0 <= j < f.len() implies (#[trigger] f[i]).0 != (#[trigger] f[j]).1 by {
            assert(m[j].0 != m[i].1);
        }
    }
    assert(!has_key(f, Seq::<char>::empty())) by {
        if has_key(f, Seq::<char>::empty()) {
            let i = choose|i: int| 0 <= i < f.len() && f[i].0 == Seq::<char>::empty();
            assert(f[i].0.len() == 1);
        }
    }
    assert(crate::cipher::cipher_table(m, true) == f);
    lemma_cipher_order(m);
    lemma_cipher_order(f);
    lemma_replaced_all_chars(t, m);
    let u = t.map_values(|c: char| char_sub(m, c));
    let c1 = crate::cipher::ciphered(t, m, false);
    assert(c1 == u) by {
        if m.len() == 0 || t.len() == 0 {
            if m.len() == 0 {
                assert(u =~= t);
            } else {
                assert(u =~= t);
            }
        }
    }
    lemma_replaced_all_chars(u, f);
    let w = u.map_values(|c: char| char_sub(f, c));
    assert forall|i: int| 0 <= i < t.len() implies w[i] == t[i] by {
        let x = t[i];
        if exists|j: int| 0 <= j < m.len() && m[j].0 == seq![x] {
            let j = choose|j: int| 0 <= j < m.len() && m[j].0 == seq![x];
            lemma_char_sub_key(m, j, x);
            let y = m[j].1[0];
            assert(m[j].1 =~= seq![y]);
            assert(f[j].0 == seq![y]);
            lemma_char_sub_key(f, j, y);
            assert(m[j].0[0] == x);
        } else {
            assert forall|j: int| 0 <= j < m.len() implies (#[trigger] m[j]).0 != seq![x] by {}
            lemma_char_sub_none(m, x);
            assert forall|j: int| 0 <= j < f.len() implies (#[trigger] f[j]).0 != seq![x] by {
                assert(seq![t[i]] != m[j].1);
            }
            lemma_char_sub_none(f, x);
        }
    }
    assert(w =~= t);
    if m.len() == 0 || u.len() == 0 {
        assert(u =~= t);
    }
}

// ---------------------------------------------------------------- right to left

/// Spans in order inside the text, the first starting no earlier than
/// `last`.
pub open spec fn spans_in_order(t: Seq<char>, sp: Seq<(int, int)>, last: int) -> bool {
    &&& 0 <= last <= t.len()
    &&& forall|k: int| 0 <= k < sp.len() ==> 0 <= (#[trigger] sp[k]).0 <= sp[k].1 <= t.len()
    &&& forall|k: int| 0 < k < sp.len() ==> sp[k - 1].1 <= (#[trigger] sp[k]).0
    &&& sp.len() > 0 ==> last <= sp[0].0
}

/// Reassembling takes every character from the text: none is made up.
#[verifier::rlimit(40)]
proof fn lemma_reassembled_chars(t: Seq<char>, sp: Seq<(int, int)>, last: int, c: char)
    requires
        spans_in_order(t, sp, last),
        forall|k: int| 0 <= k < t.len() ==> t[k] != c,
    ensures
        forall|j: int|
            0 <= j < crate::arabic::reassembled(t, sp, last).len() ==> crate::arabic::reassembled(t, sp, last)[j]
                != c,
    decreases sp.len(),
{
    let r = crate::arabic::reassembled(t, sp, last);
    if sp.len() == 0 {
        assert forall|j: int| 0 <= j < r.len() implies r[j] != c by {
            assert(r[j] == t[last + j]);
        }
    } else {
        let rest = sp.drop_first();
        assert(spans_in_order(t, rest, sp[0].1)) by {
            assert forall|k: int| 0 <= k < rest.len() implies 0 <= (#[trigger] rest[k]).0 <= rest[k].1 <= t.len() by {
                assert(rest[k] == sp[k + 1]);
            }
            assert forall|k: int| 0 < k < rest.len() implies rest[k - 1].1 <= (#[trigger] rest[k]).0 by {
                assert(rest[k] == sp[k + 1] && rest[k - 1] == sp[k]);
            }
            if rest.len() > 0 {
                assert(rest[0] == sp[1]);
            }
        }
        lemma_reassembled_chars(t, rest, sp[0].1, c);
        let a = crate::arabic::reassembled(t, rest, sp[0].1);
        let b = t.subrange(sp[0].0, sp[0].1).reverse();
        let d = t.subrange(last, sp[0].0);
        assert(r == a + b + d);
        assert forall|j: int| 0 <= j < r.len() implies r[j] != c by {
            if j < a.len() {
                assert(r[j] == a[j]);
            } else if j < a.len() + b.len() {
                let q = j - a.len();
                assert(r[j] == b[q]);
                assert(b[q] == t[sp[0].1 - 1 - q]);
            } else {
                let q = j - a.len() - b.len();
                assert(r[j] == d[q]);
                assert(d[q] == t[last + q]);
            }
        }
    }
}

/// Reversing the runs of a text mirrors every bracket after the pieces are
/// put back together: turning the brackets back gives the pieces as they
/// were reassembled, and the text keeps its length.
#[verifier::rlimit(40)]
pub proof fn lemma_reverse_runs_mirrors(t: Seq<char>, ms: Seq<Seq<Option<(usize, usize)>>>)
    requires
        crate::outside::well_placed(t, ms),
        forall|k: int| 0 <= k < t.len() ==> t[k] != '\0',
    ensures
        mirrored(crate::arabic::runs_reversed(t, ms)) == crate::arabic::reassembled(
            t,
            crate::arabic::match_spans(t, ms),
            0,
        ),
{
    let sp = crate::arabic::match_spans(t, ms);
    crate::arabic::lemma_match_spans_ordered(t, ms);
    assert(spans_in_order(t, sp, 0));
    lemma_reassembled_chars(t, sp, 0, '\0');
    let r = crate::arabic::reassembled(t, sp, 0);
    lemma_reverse_brackets_twice(r);
}

// ---------------------------------------------------------------- fonts

/// What holds of the glyphs of the first `n` lines: the height kept is at
/// least 0 and at least every glyph's height read, and is 0 or some
/// glyph's height; every glyph kept is one a line read.
#[verifier::rlimit(40)]
proof fn lemma_glyphs_tallest(t: Seq<char>, ms: Seq<Seq<Option<(usize, usize)>>>, n: int)
    requires
        0 <= n <= ms.len(),
    ensures
        crate::font::glyphs_upto(t, ms, n) matches Some((m, h)) ==> {
            &&& keys_unique(m)
            &&& h >= 0
            &&& forall|i: int|
                0 <= i < n ==> (crate::font::glyph_line(t, #[trigger] ms[i]) matches Some(g) ==> g.1[3] <= h)
            &&& (h == 0 || exists|i: int|
                0 <= i < n && (crate::font::glyph_line(t, #[trigger] ms[i]) matches Some(g) && g.1[3] == h))
            &&& forall|c: char|
                has_key(m, c) ==> exists|i: int|
                    0 <= i < n && crate::font::glyph_line(t, #[trigger] ms[i]) == Some((c, lookup(m, c).unwrap()))
        },
    decreases n,
{
    if n > 0 {
        lemma_glyphs_tallest(t, ms, n - 1);
        match crate::font::glyphs_upto(t, ms, n - 1) {
            Some((m0, h0)) => match crate::font::glyph_line(t, ms[n - 1]) {
                Some((c, v)) => {
                    lemma_insert_entry(m0, c, v);
                    let m = insert_entry(m0, c, v);
                    let h = if v[3] > h0 { v[3] } else { h0 };
                    assert(crate::font::glyphs_upto(t, ms, n) == Some((m, h)));
                    assert forall|i: int| 0 <= i < n implies (crate::font::glyph_line(t, #[trigger] ms[i]) matches Some(g) ==> g.1[3] <= h) by {}
                    if h != 0 {
                        if v[3] > h0 {
                            assert(crate::font::glyph_line(t, ms[n - 1]) matches Some(g) && g.1[3] == h);
                        } else {
                            let i = choose|i: int|
                                0 <= i < n - 1 && (crate::font::glyph_line(t, #[trigger] ms[i]) matches Some(g) && g.1[3] == h0);
                            assert(0 <= i < n && (crate::font::glyph_line(t, ms[i]) matches Some(g) && g.1[3] == h));
                        }
                    }
                    assert forall|d: char| has_key(m, d) implies exists|i: int|
                        0 <= i < n && crate::font::glyph_line(t, #[trigger] ms[i]) == Some((d, lookup(m, d).unwrap())) by {
                        if d == c {
                            assert(crate::font::glyph_line(t, ms[n - 1]) == Some((d, lookup(m, d).unwrap())));
                        } else {
                            let i = choose|i: int|
                                0 <= i < n - 1 && crate::font::glyph_line(t, #[trigger] ms[i]) == Some((d, lookup(m0, d).unwrap()));
                            assert(0 <= i < n && crate::font::glyph_line(t, ms[i]) == Some((d, lookup(m, d).unwrap())));
                        }
                    }
                },
                None => {},
            },
            None => {},
        }
    }
}

/// A font read from `.fnt` lines holds under U+0000 a line height that is
/// the greatest height of all glyphs read (0 when none is taller), with its
/// other fields 0: no glyph read, and so no glyph kept, is taller, and the
/// height is that of some glyph read unless it is 0.
#[verifier::rlimit(40)]
pub proof fn lemma_font_line_height(t: Seq<char>, ms: Seq<Seq<Option<(usize, usize)>>>)
    ensures
        crate::font::font_of_lines(t, ms) matches Some(r) ==> {
            &&& has_key(r, '\0')
            &&& lookup(r, '\0').unwrap().len() == 8
            &&& forall|j: int| 1 <= j < 8 ==> lookup(r, '\0').unwrap()[j] == 0
            &&& lookup(r, '\0').unwrap()[0] >= 0
            &&& forall|i: int|
                0 <= i < ms.len() ==> (crate::font::glyph_line(t, #[trigger] ms[i]) matches Some(g) ==> g.1[3]
                    <= lookup(r, '\0').unwrap()[0])
            &&& forall|c: char|
                c != '\0' && has_key(r, c) ==> lookup(r, c).unwrap()[3] <= lookup(r, '\0').unwrap()[0]
            &&& (lookup(r, '\0').unwrap()[0] == 0 || exists|i: int|
                0 <= i < ms.len() && (crate::font::glyph_line(t, #[trigger] ms[i]) matches Some(g) && g.1[3]
                    == lookup(r, '\0').unwrap()[0]))
        },
{
    lemma_glyphs_tallest(t, ms, ms.len() as int);
    match crate::font::glyphs_upto(t, ms, ms.len() as int) {
        Some((m, h)) => {
            lemma_insert_entry(m, '\0', crate::font::height_entry(h));
            let r = insert_entry(m, '\0', crate::font::height_entry(h));
            assert(lookup(r, '\0').unwrap() == crate::font::height_entry(h));
            assert forall|c: char| c != '\0' && has_key(r, c) implies lookup(r, c).unwrap()[3] <= h by {
                assert(has_key(m, c));
                let i = choose|i: int|
                    0 <= i < ms.len() && crate::font::glyph_line(t, #[trigger] ms[i]) == Some((c, lookup(m, c).unwrap()));
                assert(crate::font::glyph_line(t, ms[i]) matches Some(g) ==> g.1[3] <= h);
            }
        },
        None => {},
    }
}

} // verus!
