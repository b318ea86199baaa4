//! Reading back what `.act` tables write: a table whose letters have all
//! their presentation forms or none comes back as the same map.
use vstd::prelude::*;
use crate::cipher::{
    act_lines, act_separator, act_table, act_text, act_upto, cell_or_empty, char_table, form_step,
    form_texts, gather_forms, grouped, grouped_upto, inserted_all, lists_inserted, one, text_lines,
};
use crate::laws::{
    act_cell_ok, lacks, lemma_act_header, lemma_form_letter, lemma_gather_absent, lemma_join_lacks, lemma_no_crlf,
    lemma_split_join,
};
use crate::maps::{
    as_map, has_key, insert_entry, key_index, keys_unique, lemma_insert_entry, lemma_key_index, lookup,
    remove_entry,
};
use crate::tables::{shaped_letters, spec_letter_of_form, spec_presentation_forms};
use crate::text::{join, split};

verus! {

/// The presentation forms of a letter come in one of three shapes: four
/// different forms, two forms each used twice, or one form used four
/// times.
proof fn lemma_form_shape(c: char)
    ensures
        spec_presentation_forms(c) matches Some(f) ==> {
            ||| (f.0 != f.1 && f.0 != f.2 && f.0 != f.3 && f.1 != f.2 && f.1 != f.3 && f.2 != f.3)
            ||| (f.0 == f.2 && f.1 == f.3 && f.0 != f.1)
            ||| (f.0 == f.1 && f.1 == f.2 && f.2 == f.3)
        },
{
}

/// Inserting two runs of entries one after the other is inserting their
/// concatenation.
proof fn lemma_inserted_concat(
    m: Seq<(Seq<char>, Seq<char>)>,
    a: Seq<(Seq<char>, Seq<char>)>,
    b: Seq<(Seq<char>, Seq<char>)>,
)
    ensures
        inserted_all(inserted_all(m, a), b) == inserted_all(m, a + b),
    decreases b.len(),
{
    if b.len() == 0 {
        assert(a + b =~= a);
    } else {
        lemma_inserted_concat(m, a, b.drop_last());
        assert((a + b).drop_last() =~= a + b.drop_last());
        assert((a + b).last() == b.last());
    }
}

/// Every entry agrees with the table `m`.
pub open spec fn agrees(es: Seq<(Seq<char>, Seq<char>)>, m: Seq<(Seq<char>, Seq<char>)>) -> bool {
    forall|i: int| 0 <= i < es.len() ==> lookup(m, #[trigger] es[i].0) == Some(es[i].1)
}

/// Inserting entries that agree with `m` into nothing gives, for each key
/// they hold, the value `m` has.
proof fn lemma_inserted_agree(es: Seq<(Seq<char>, Seq<char>)>, m: Seq<(Seq<char>, Seq<char>)>)
    requires
        agrees(es, m),
    ensures
        keys_unique(inserted_all(Seq::empty(), es)),
        forall|k: Seq<char>| #[trigger] has_key(inserted_all(Seq::empty(), es), k) <==> has_key(es, k),
        forall|k: Seq<char>| has_key(es, k) ==> lookup(inserted_all(Seq::empty(), es), k) == lookup(m, k),
    decreases es.len(),
{
    let r = inserted_all(Seq::<(Seq<char>, Seq<char>)>::empty(), es);
    if es.len() == 0 {
    } else {
        let e0 = es.drop_last();
        assert(agrees(e0, m)) by {
            assert forall|i: int| 0 <= i < e0.len() implies lookup(m, #[trigger] e0[i].0) == Some(e0[i].1) by {
                assert(e0[i] == es[i]);
            }
        }
        lemma_inserted_agree(e0, m);
        let r0 = inserted_all(Seq::<(Seq<char>, Seq<char>)>::empty(), e0);
        let x = es.last();
        assert(lookup(m, es[es.len() - 1].0) == Some(es[es.len() - 1].1));
        lemma_insert_entry(r0, x.0, x.1);
        assert forall|k: Seq<char>| has_key(r, k) <==> has_key(es, k) by {
            if has_key(e0, k) {
                let j = choose|j: int| 0 <= j < e0.len() && e0[j].0 == k;
                assert(es[j].0 == k);
            }
            if has_key(es, k) && k != x.0 {
                let j = choose|j: int| 0 <= j < es.len() && es[j].0 == k;
                assert(j < es.len() - 1);
                assert(e0[j].0 == k);
            }
        }
        assert forall|k: Seq<char>| has_key(es, k) implies lookup(r, k) == lookup(m, k) by {
            if k != x.0 {
                let j = choose|j: int| 0 <= j < es.len() && es[j].0 == k;
                assert(j < es.len() - 1);
                assert(e0[j].0 == k);
            }
        }
    }
}

/// Entries that agree with `m` and hold every key of it give, inserted
/// into nothing, the map `m` is.
pub proof fn lemma_inserted_same_map(es: Seq<(Seq<char>, Seq<char>)>, m: Seq<(Seq<char>, Seq<char>)>)
    requires
        agrees(es, m),
        forall|k: Seq<char>| has_key(m, k) ==> has_key(es, k),
    ensures
        as_map(inserted_all(Seq::empty(), es)) == as_map(m),
{
    lemma_inserted_agree(es, m);
    let r = inserted_all(Seq::<(Seq<char>, Seq<char>)>::empty(), es);
    assert forall|k: Seq<char>| has_key(es, k) implies has_key(m, k) by {
        let j = choose|j: int| 0 <= j < es.len() && es[j].0 == k;
        assert(lookup(m, es[j].0) == Some(es[j].1));
    }
    assert(as_map(r) =~= as_map(m));
}

/// The form at position `j` differs from every form before it.
pub open spec fn first_at(ks: Seq<Seq<char>>, j: int) -> bool {
    forall|l: int| 0 <= l < j ==> ks[l] != ks[j]
}

/// A letter whose forms a table has all of or none of, and in which no
/// form's value is the text of a form that comes later and is new.
pub open spec fn letter_complete(m: Seq<(Seq<char>, Seq<char>)>, f: (char, char, char, char)) -> bool {
    let ks = form_texts(f);
    &&& ((forall|j: int| 0 <= j < 4 ==> has_key(m, #[trigger] ks[j])) || (forall|j: int|
        0 <= j < 4 ==> !has_key(m, #[trigger] ks[j])))
    &&& forall|i: int, j: int|
        0 <= i < j < 4 && first_at(ks, j) ==> lookup(m, #[trigger] ks[i]) != Some(#[trigger] ks[j])
}

/// The table that the `.act` line of a letter with these values reads back
/// as.
pub open spec fn group_table(c: char, vals: Seq<Seq<char>>) -> Seq<(Seq<char>, Seq<char>)> {
    char_table(
        one(c),
        seq![
            cell_or_empty(vals, 0),
            cell_or_empty(vals, 1),
            cell_or_empty(vals, 2),
            cell_or_empty(vals, 3),
        ],
    )
}

/// The entries of `rest` agree with `m`.
pub open spec fn within(rest: Seq<(Seq<char>, Seq<char>)>, m: Seq<(Seq<char>, Seq<char>)>) -> bool {
    forall|k: Seq<char>| has_key(rest, k) ==> lookup(rest, k) == lookup(m, k)
}

/// Taking a key out of a table that agrees with `m` keeps it agreeing.
proof fn lemma_remove_within(
    rest: Seq<(Seq<char>, Seq<char>)>,
    m: Seq<(Seq<char>, Seq<char>)>,
    k: Seq<char>,
)
    requires
        keys_unique(rest),
        within(rest, m),
    ensures
        keys_unique(remove_entry(rest, k)),
        within(remove_entry(rest, k), m),
        !has_key(remove_entry(rest, k), k),
        forall|k2: Seq<char>|
            k2 != k ==> (has_key(remove_entry(rest, k), k2) <==> has_key(rest, k2)),
{
    crate::maps::lemma_remove_entry(rest, k);
    let r = remove_entry(rest, k);
    assert forall|k2: Seq<char>| k2 != k implies (has_key(r, k2) <==> has_key(rest, k2)) by {
        if has_key(rest, k2) {
            assert(lookup(rest, k2) is Some);
            assert(lookup(r, k2) == lookup(rest, k2));
        }
        if has_key(r, k2) {
            assert(lookup(r, k2) is Some);
        }
    }
}

/// One-character texts are equal just when their characters are.
proof fn lemma_one_eq(a: char, b: char)
    ensures
        (one(a) == one(b)) <==> (a == b),
{
    if one(a) == one(b) {
        assert(one(a)[0] == one(b)[0]);
    }
}

/// What gathering a letter's forms, all present, gives, and what its line
/// reads back as.
pub open spec fn gather_ok(
    rest: Seq<(Seq<char>, Seq<char>)>,
    m: Seq<(Seq<char>, Seq<char>)>,
    c: char,
    f: (char, char, char, char),
) -> bool {
    let ks = form_texts(f);
    let (vals, rest2) = gather_forms(rest, ks);
    &&& vals.len() >= 1
    &&& forall|i: int|
        0 <= i < vals.len() ==> exists|j: int|
            0 <= j < 4 && lookup(m, #[trigger] ks[j]) == Some(#[trigger] vals[i])
    &&& keys_unique(rest2)
    &&& within(rest2, m)
    &&& forall|k: Seq<char>| #[trigger] has_key(rest2, k) <==> (has_key(rest, k) && !ks.contains(k))
    &&& agrees(group_table(c, vals), m)
    &&& forall|k: Seq<char>| #[trigger] has_key(group_table(c, vals), k) <==> ks.contains(k)
}

/// The premises of gathering a letter that the table has all forms of.
pub open spec fn gather_pre(
    rest: Seq<(Seq<char>, Seq<char>)>,
    m: Seq<(Seq<char>, Seq<char>)>,
    c: char,
    f: (char, char, char, char),
) -> bool {
    &&& keys_unique(rest)
    &&& within(rest, m)
    &&& spec_presentation_forms(c) == Some(f)
    &&& letter_complete(m, f)
    &&& forall|j: int| 0 <= j < 4 ==> has_key(rest, #[trigger] form_texts(f)[j])
}

/// The line of a letter with four different forms reads back as the four
/// forms with their values.
#[verifier::rlimit(60)]
proof fn lemma_table_four(c: char, f: (char, char, char, char), vals: Seq<Seq<char>>)
    requires
        spec_presentation_forms(c) == Some(f),
        f.0 != f.1 && f.0 != f.2 && f.0 != f.3 && f.1 != f.2 && f.1 != f.3 && f.2 != f.3,
        vals.len() == 4,
    ensures
        group_table(c, vals) == seq![
            (one(f.0), vals[0]),
            (one(f.1), vals[1]),
            (one(f.2), vals[2]),
            (one(f.3), vals[3]),
        ],
{
    let (k0, k1, k2, k3) = (one(f.0), one(f.1), one(f.2), one(f.3));
    lemma_one_eq(f.0, f.1);
    lemma_one_eq(f.0, f.2);
    lemma_one_eq(f.0, f.3);
    lemma_one_eq(f.1, f.2);
    lemma_one_eq(f.1, f.3);
    lemma_one_eq(f.2, f.3);
    let ee = Seq::<(Seq<char>, Seq<char>)>::empty();
    let t1 = form_step(ee, k0, vals[0]);
    assert(t1 =~= seq![(k0, vals[0])]);
    let t2 = form_step(t1, k1, vals[1]);
    assert(!has_key(t1, k1));
    assert(t2 =~= seq![(k0, vals[0]), (k1, vals[1])]);
    let t3 = form_step(t2, k2, vals[2]);
    assert(!has_key(t2, k2)) by {
        if has_key(t2, k2) {
            let i = choose|i: int| 0 <= i < t2.len() && t2[i].0 == k2;
            assert(i == 0 || i == 1);
        }
    }
    assert(t3 =~= seq![(k0, vals[0]), (k1, vals[1]), (k2, vals[2])]);
    let t4 = form_step(t3, k3, vals[3]);
    assert(!has_key(t3, k3)) by {
        if has_key(t3, k3) {
            let i = choose|i: int| 0 <= i < t3.len() && t3[i].0 == k3;
            assert(i == 0 || i == 1 || i == 2);
        }
    }
    assert(t4 =~= seq![(k0, vals[0]), (k1, vals[1]), (k2, vals[2]), (k3, vals[3])]);
    assert(one(c).len() == 1 && one(c)[0] == c);
    assert(cell_or_empty(vals, 0) == vals[0] && cell_or_empty(vals, 1) == vals[1]);
    assert(cell_or_empty(vals, 2) == vals[2] && cell_or_empty(vals, 3) == vals[3]);
}

/// One more form gathered: a form not among the values so far, that the
/// table left has, adds its value and leaves the table.
proof fn lemma_gather_push(
    rest: Seq<(Seq<char>, Seq<char>)>,
    forms: Seq<Seq<char>>,
    k: Seq<char>,
)
    requires
        !gather_forms(rest, forms).0.contains(k),
        has_key(gather_forms(rest, forms).1, k),
    ensures
        gather_forms(rest, forms.push(k)) == (
            gather_forms(rest, forms).0.push(lookup(gather_forms(rest, forms).1, k).unwrap()),
            remove_entry(gather_forms(rest, forms).1, k),
        ),
{
    assert(forms.push(k).drop_last() =~= forms);
}

/// A table that agrees with `m` and has a key holds `m`'s value for it.
proof fn lemma_within_value(r: Seq<(Seq<char>, Seq<char>)>, m: Seq<(Seq<char>, Seq<char>)>, k: Seq<char>)
    requires
        within(r, m),
        has_key(r, k),
    ensures
        lookup(r, k) == lookup(m, k),
        lookup(m, k) is Some,
{
    assert(lookup(r, k) is Some);
}

/// One more form gathered, as seen from `m`: a form the table left has and
/// that is not among the values so far adds `m`'s value for it and leaves
/// the table, which keeps agreeing with `m`.
proof fn lemma_gather_step(
    rest: Seq<(Seq<char>, Seq<char>)>,
    m: Seq<(Seq<char>, Seq<char>)>,
    forms: Seq<Seq<char>>,
    k: Seq<char>,
)
    requires
        keys_unique(gather_forms(rest, forms).1),
        within(gather_forms(rest, forms).1, m),
        has_key(gather_forms(rest, forms).1, k),
        !gather_forms(rest, forms).0.contains(k),
    ensures
        ({
            let (vals, r) = gather_forms(rest, forms);
            let (vals2, r2) = gather_forms(rest, forms.push(k));
            &&& vals2 == vals.push(lookup(m, k).unwrap())
            &&& r2 == remove_entry(r, k)
            &&& lookup(m, k) is Some
            &&& keys_unique(r2)
            &&& within(r2, m)
            &&& !has_key(r2, k)
            &&& forall|k2: Seq<char>| k2 != k ==> (has_key(r2, k2) <==> has_key(r, k2))
        }),
{
    let r = gather_forms(rest, forms).1;
    lemma_within_value(r, m, k);
    lemma_gather_push(rest, forms, k);
    lemma_remove_within(r, m, k);
}

/// Gathering the forms of a letter with four different forms.
#[verifier::rlimit(40)]
proof fn lemma_gather_four_forms(
    rest: Seq<(Seq<char>, Seq<char>)>,
    m: Seq<(Seq<char>, Seq<char>)>,
    f: (char, char, char, char),
)
    requires
        keys_unique(rest),
        within(rest, m),
        letter_complete(m, f),
        forall|j: int| 0 <= j < 4 ==> has_key(rest, #[trigger] form_texts(f)[j]),
        f.0 != f.1 && f.0 != f.2 && f.0 != f.3 && f.1 != f.2 && f.1 != f.3 && f.2 != f.3,
    ensures
        ({
            let ks = form_texts(f);
            let r = gather_forms(rest, ks);
            &&& r.0 == seq![
                lookup(m, ks[0]).unwrap(),
                lookup(m, ks[1]).unwrap(),
                lookup(m, ks[2]).unwrap(),
                lookup(m, ks[3]).unwrap(),
            ]
            &&& keys_unique(r.1)
            &&& within(r.1, m)
            &&& forall|k: Seq<char>| #[trigger] has_key(r.1, k) <==> (has_key(rest, k) && !ks.contains(k))
        }),
{
    let ks = form_texts(f);
    let k0 = ks[0];
    let k1 = ks[1];
    let k2 = ks[2];
    let k3 = ks[3];
    lemma_one_eq(f.0, f.1);
    lemma_one_eq(f.0, f.2);
    lemma_one_eq(f.0, f.3);
    lemma_one_eq(f.1, f.2);
    lemma_one_eq(f.1, f.3);
    lemma_one_eq(f.2, f.3);
    assert(k0 != k1 && k0 != k2 && k0 != k3 && k1 != k2 && k1 != k3 && k2 != k3);
    assert(has_key(rest, ks[0]) && has_key(rest, ks[1]) && has_key(rest, ks[2]) && has_key(rest, ks[3]));
    assert(first_at(ks, 1) && first_at(ks, 2) && first_at(ks, 3));
    assert(lookup(m, ks[0]) != Some(ks[1]));
    assert(lookup(m, ks[0]) != Some(ks[2]) && lookup(m, ks[1]) != Some(ks[2]));
    assert(lookup(m, ks[0]) != Some(ks[3]) && lookup(m, ks[1]) != Some(ks[3]) && lookup(m, ks[2]) != Some(ks[3]));
    let p0 = Seq::<Seq<char>>::empty();
    let p1 = p0.push(k0);
    let p2 = p1.push(k1);
    let p3 = p2.push(k2);
    let p4 = p3.push(k3);
    assert(ks =~= p4);
    assert(gather_forms(rest, p0) == (p0, rest));
    lemma_gather_step(rest, m, p0, k0);
    let v0 = lookup(m, k0).unwrap();
    assert(gather_forms(rest, p1).0 =~= seq![v0]);
    assert(!seq![v0].contains(k1)) by {
        assert(seq![v0][0] == v0);
    }
    lemma_gather_step(rest, m, p1, k1);
    let v1 = lookup(m, k1).unwrap();
    assert(gather_forms(rest, p2).0 =~= seq![v0, v1]);
    assert(!seq![v0, v1].contains(k2)) by {
        if seq![v0, v1].contains(k2) {
            let i = choose|i: int| 0 <= i < 2 && seq![v0, v1][i] == k2;
            assert(i == 0 || i == 1);
        }
    }
    lemma_gather_step(rest, m, p2, k2);
    let v2 = lookup(m, k2).unwrap();
    assert(gather_forms(rest, p3).0 =~= seq![v0, v1, v2]);
    assert(!seq![v0, v1, v2].contains(k3)) by {
        if seq![v0, v1, v2].contains(k3) {
            let i = choose|i: int| 0 <= i < 3 && seq![v0, v1, v2][i] == k3;
            assert(i == 0 || i == 1 || i == 2);
        }
    }
    lemma_gather_step(rest, m, p3, k3);
    let r4 = gather_forms(rest, p4).1;
    assert forall|k: Seq<char>| #[trigger] has_key(r4, k) <==> (has_key(rest, k) && !ks.contains(k)) by {
        if ks.contains(k) {
            let j = choose|j: int| 0 <= j < 4 && ks[j] == k;
            assert(j == 0 || j == 1 || j == 2 || j == 3);
        } else {
            assert(k != ks[0] && k != ks[1] && k != ks[2] && k != ks[3]);
        }
    }
}

/// Gathering a letter with four different forms.
#[verifier::rlimit(60)]
proof fn lemma_gather_four(
    rest: Seq<(Seq<char>, Seq<char>)>,
    m: Seq<(Seq<char>, Seq<char>)>,
    c: char,
    f: (char, char, char, char),
)
    requires
        gather_pre(rest, m, c, f),
        f.0 != f.1 && f.0 != f.2 && f.0 != f.3 && f.1 != f.2 && f.1 != f.3 && f.2 != f.3,
    ensures
        gather_ok(rest, m, c, f),
{
    let ks = form_texts(f);
    lemma_gather_four_forms(rest, m, f);
    let vals = gather_forms(rest, ks).0;
    assert(has_key(rest, ks[0]) && has_key(rest, ks[1]) && has_key(rest, ks[2]) && has_key(rest, ks[3]));
    lemma_within_value(rest, m, ks[0]);
    lemma_within_value(rest, m, ks[1]);
    lemma_within_value(rest, m, ks[2]);
    lemma_within_value(rest, m, ks[3]);
    assert(forall|i: int| 0 <= i < 4 ==> lookup(m, ks[i]) == Some(#[trigger] vals[i])) by {
        assert(lookup(m, ks[0]) == Some(vals[0]));
        assert(lookup(m, ks[1]) == Some(vals[1]));
        assert(lookup(m, ks[2]) == Some(vals[2]));
        assert(lookup(m, ks[3]) == Some(vals[3]));
    }
    assert forall|i: int| 0 <= i < vals.len() implies exists|j: int|
        0 <= j < 4 && lookup(m, #[trigger] ks[j]) == Some(#[trigger] vals[i]) by {
        assert(lookup(m, ks[i]) == Some(vals[i]));
    }
    lemma_table_four(c, f, vals);
    let t = group_table(c, vals);
    assert(forall|i: int| 0 <= i < 4 ==> (#[trigger] t[i]).0 == ks[i] && t[i].1 == vals[i]);
    assert(agrees(t, m));
    assert forall|k: Seq<char>| #[trigger] has_key(t, k) <==> ks.contains(k) by {
        if has_key(t, k) {
            let i = choose|i: int| 0 <= i < t.len() && t[i].0 == k;
            assert(ks[i] == k);
        }
        if ks.contains(k) {
            let j = choose|j: int| 0 <= j < 4 && ks[j] == k;
            assert(t[j].0 == k);
        }
    }
}

/// Gathering a letter with two forms, each used twice.
#[verifier::rlimit(60)]
proof fn lemma_gather_two(
    rest: Seq<(Seq<char>, Seq<char>)>,
    m: Seq<(Seq<char>, Seq<char>)>,
    c: char,
    f: (char, char, char, char),
)
    requires
        gather_pre(rest, m, c, f),
        f.0 == f.2 && f.1 == f.3 && f.0 != f.1,
    ensures
        gather_ok(rest, m, c, f),
{
    let ks = form_texts(f);
    let k0 = ks[0];
    let k1 = ks[1];
    let k2 = ks[2];
    let k3 = ks[3];
    lemma_one_eq(f.0, f.1);
    assert(k0 == k2 && k1 == k3 && k0 != k1);
    assert(has_key(rest, ks[0]) && has_key(rest, ks[1]));
    let v0 = lookup(m, k0).unwrap();
    let v1 = lookup(m, k1).unwrap();
    assert(first_at(ks, 1));
    assert(lookup(m, ks[0]) != Some(ks[1]));
    let e = Seq::<Seq<char>>::empty();
    let s1 = seq![k0];
    let s2 = seq![k0, k1];
    let s3 = seq![k0, k1, k2];
    assert(ks == seq![k0, k1, k2, k3]);
    assert(s1.drop_last() =~= e);
    assert(s2.drop_last() =~= s1);
    assert(s3.drop_last() =~= s2);
    assert(ks.drop_last() =~= s3);
    let r1 = remove_entry(rest, k0);
    lemma_remove_within(rest, m, k0);
    assert(gather_forms(rest, e) == (e, rest));
    assert(!e.contains(k0));
    assert(lookup(rest, k0) == Some(v0));
    assert(e.push(v0) =~= seq![v0]);
    assert(gather_forms(rest, s1) == (seq![v0], r1));
    let r2 = remove_entry(r1, k1);
    lemma_remove_within(r1, m, k1);
    assert(!seq![v0].contains(k1)) by {
        assert(seq![v0][0] == v0);
    }
    assert(gather_forms(rest, s2) == (seq![v0, v1], r2)) by {
        assert(seq![v0].push(v1) =~= seq![v0, v1]);
    }
    assert(!has_key(r2, k2));
    assert(gather_forms(rest, s3) == (seq![v0, v1], r2));
    assert(!has_key(r2, k3));
    let vals = seq![v0, v1];
    assert(gather_forms(rest, ks) == (vals, r2));
    assert forall|i: int| 0 <= i < vals.len() implies exists|j: int|
        0 <= j < 4 && lookup(m, #[trigger] ks[j]) == Some(#[trigger] vals[i]) by {
        assert(lookup(m, ks[i]) == Some(vals[i]));
    }
    assert forall|k: Seq<char>| #[trigger] has_key(r2, k) <==> (has_key(rest, k) && !ks.contains(k)) by {
        if ks.contains(k) {
            let j = choose|j: int| 0 <= j < 4 && ks[j] == k;
            assert(j == 0 || j == 1 || j == 2 || j == 3);
        } else {
            assert(k != ks[0] && k != ks[1]);
        }
    }
    let ee = Seq::<(Seq<char>, Seq<char>)>::empty();
    let t1 = form_step(ee, k0, v0);
    assert(t1 =~= seq![(k0, v0)]);
    let t2 = form_step(t1, k1, v1);
    assert(!has_key(t1, k1));
    assert(t2 =~= seq![(k0, v0), (k1, v1)]);
    assert(t2[0].0 == k0 && t2[1].0 == k1);
    assert(has_key(t2, k0) && has_key(t2, k1));
    let em = Seq::<char>::empty();
    assert(cell_or_empty(vals, 2) == em && cell_or_empty(vals, 3) == em);
    let t3 = form_step(t2, k2, em);
    assert(t3 == t2);
    let t4 = form_step(t3, k3, em);
    assert(t4 == t2);
    assert(one(c).len() == 1 && one(c)[0] == c);
    assert(group_table(c, vals) == t4);
    assert(agrees(t2, m));
    assert forall|k: Seq<char>| #[trigger] has_key(t2, k) <==> ks.contains(k) by {
        if has_key(t2, k) {
            let i = choose|i: int| 0 <= i < t2.len() && t2[i].0 == k;
            assert(ks[i] == k);
        }
        if ks.contains(k) {
            let j = choose|j: int| 0 <= j < 4 && ks[j] == k;
            if j == 0 || j == 2 {
                assert(t2[0].0 == k);
            } else {
                assert(t2[1].0 == k);
            }
        }
    }
}

/// Gathering a letter with one form used four times.
#[verifier::rlimit(60)]
proof fn lemma_gather_one(
    rest: Seq<(Seq<char>, Seq<char>)>,
    m: Seq<(Seq<char>, Seq<char>)>,
    c: char,
    f: (char, char, char, char),
)
    requires
        gather_pre(rest, m, c, f),
        f.0 == f.1 && f.1 == f.2 && f.2 == f.3,
    ensures
        gather_ok(rest, m, c, f),
{
    let ks = form_texts(f);
    let k0 = ks[0];
    let k1 = ks[1];
    let k2 = ks[2];
    let k3 = ks[3];
    assert(k0 == k1 && k1 == k2 && k2 == k3);
    assert(has_key(rest, ks[0]));
    let v0 = lookup(m, k0).unwrap();
    let e = Seq::<Seq<char>>::empty();
    let s1 = seq![k0];
    let s2 = seq![k0, k1];
    let s3 = seq![k0, k1, k2];
    assert(ks == seq![k0, k1, k2, k3]);
    assert(s1.drop_last() =~= e);
    assert(s2.drop_last() =~= s1);
    assert(s3.drop_last() =~= s2);
    assert(ks.drop_last() =~= s3);
    let r1 = remove_entry(rest, k0);
    lemma_remove_within(rest, m, k0);
    assert(gather_forms(rest, e) == (e, rest));
    assert(!e.contains(k0));
    assert(lookup(rest, k0) == Some(v0));
    assert(e.push(v0) =~= seq![v0]);
    assert(gather_forms(rest, s1) == (seq![v0], r1));
    assert(!has_key(r1, k1));
    assert(gather_forms(rest, s2) == (seq![v0], r1));
    assert(gather_forms(rest, s3) == (seq![v0], r1));
    let vals = seq![v0];
    assert(gather_forms(rest, ks) == (vals, r1));
    assert forall|i: int| 0 <= i < vals.len() implies exists|j: int|
        0 <= j < 4 && lookup(m, #[trigger] ks[j]) == Some(#[trigger] vals[i]) by {
        assert(lookup(m, ks[i]) == Some(vals[i]));
    }
    assert forall|k: Seq<char>| #[trigger] has_key(r1, k) <==> (has_key(rest, k) && !ks.contains(k)) by {
        if ks.contains(k) {
            let j = choose|j: int| 0 <= j < 4 && ks[j] == k;
            assert(j == 0 || j == 1 || j == 2 || j == 3);
        } else {
            assert(k != ks[0]);
        }
    }
    let ee = Seq::<(Seq<char>, Seq<char>)>::empty();
    let t1 = form_step(ee, k0, v0);
    assert(t1 =~= seq![(k0, v0)]);
    assert(t1[0].0 == k0);
    let em = Seq::<char>::empty();
    assert(cell_or_empty(vals, 1) == em && cell_or_empty(vals, 2) == em && cell_or_empty(vals, 3) == em);
    assert(has_key(t1, k0));
    assert(form_step(t1, k1, em) == t1);
    assert(one(c).len() == 1 && one(c)[0] == c);
    assert(group_table(c, vals) == t1);
    assert(agrees(t1, m));
    assert forall|k: Seq<char>| #[trigger] has_key(t1, k) <==> ks.contains(k) by {
        if has_key(t1, k) {
            let i = choose|i: int| 0 <= i < t1.len() && t1[i].0 == k;
            assert(ks[0] == k);
        }
        if ks.contains(k) {
            let j = choose|j: int| 0 <= j < 4 && ks[j] == k;
            assert(t1[0].0 == k);
        }
    }
}

/// Gathering the forms of a letter that a table has all of.
proof fn lemma_gather_letter(
    rest: Seq<(Seq<char>, Seq<char>)>,
    m: Seq<(Seq<char>, Seq<char>)>,
    c: char,
    f: (char, char, char, char),
)
    requires
        gather_pre(rest, m, c, f),
    ensures
        gather_ok(rest, m, c, f),
{
    lemma_form_shape(c);
    if f.0 != f.1 && f.0 != f.2 && f.0 != f.3 && f.1 != f.2 && f.1 != f.3 && f.2 != f.3 {
        lemma_gather_four(rest, m, c, f);
    } else if f.0 == f.2 && f.1 == f.3 && f.0 != f.1 {
        lemma_gather_two(rest, m, c, f);
    } else {
        lemma_gather_one(rest, m, c, f);
    }
}

/// The text `k` is one of the presentation forms of `c`.
pub open spec fn in_forms(c: char, k: Seq<char>) -> bool {
    spec_presentation_forms(c) matches Some(f) && form_texts(f).contains(k)
}

/// `k` is a form of one of the first `n` letters of the table.
pub open spec fn processed(k: Seq<char>, n: int) -> bool {
    exists|j: int| 0 <= j < n && #[trigger] in_forms(shaped_letters()[j], k)
}

/// `c` is among the first `n` letters of the table.
pub open spec fn letter_done(c: char, n: int) -> bool {
    exists|j: int| 0 <= j < n && shaped_letters()[j] == c
}

/// A table the `.act` format writes out and reads back: unique keys, none
/// empty, none a letter that has presentation forms; no cell separator or
/// line break in a key or value; each letter with all its forms or none.
pub open spec fn act_writable(m: Seq<(Seq<char>, Seq<char>)>) -> bool {
    &&& keys_unique(m)
    &&& forall|i: int| 0 <= i < m.len() ==> (#[trigger] m[i]).0.len() >= 1
    &&& forall|i: int| 0 <= i < m.len() ==> act_cell_ok((#[trigger] m[i]).0) && act_cell_ok(m[i].1)
    &&& forall|i: int|
        0 <= i < m.len() ==> !((#[trigger] m[i]).0.len() == 1 && spec_presentation_forms(m[i].0[0]) is Some)
    &&& forall|c: char|
        #[trigger] spec_presentation_forms(c) is Some ==> letter_complete(m, spec_presentation_forms(c).unwrap())
}

/// A letter's group as the grouping leaves it: a letter with forms, its
/// values taken from `m`, its line reading back as its forms with the
/// values `m` has for them.
#[verifier::opaque]
pub open spec fn entry_ok(e: (Seq<char>, Seq<Seq<char>>), m: Seq<(Seq<char>, Seq<char>)>) -> bool {
    &&& e.0.len() == 1
    &&& spec_presentation_forms(e.0[0]) is Some
    &&& e.1.len() >= 1
    &&& forall|i: int|
        0 <= i < e.1.len() ==> exists|k: Seq<char>| lookup(m, k) == Some(#[trigger] e.1[i])
    &&& agrees(group_table(e.0[0], e.1), m)
    &&& forall|k: Seq<char>| #[trigger] has_key(group_table(e.0[0], e.1), k) <==> in_forms(e.0[0], k)
}

/// What holds after grouping the first `n` letters.
pub open spec fn grouped_inv(m: Seq<(Seq<char>, Seq<char>)>, n: int) -> bool {
    let (g, rest) = grouped_upto(m, n);
    &&& keys_unique(rest)
    &&& within(rest, m)
    &&& forall|k: Seq<char>| #[trigger] has_key(rest, k) <==> (has_key(m, k) && !processed(k, n))
    &&& forall|i: int| 0 <= i < g.len() ==> entry_ok(#[trigger] g[i], m) && letter_done(g[i].0[0], n)
    &&& forall|k: Seq<char>|
        has_key(m, k) && processed(k, n) ==> exists|i: int|
            0 <= i < g.len() && #[trigger] in_forms(g[i].0[0], k)
}

/// Two letters share a form only when they are the same letter.
proof fn lemma_forms_disjoint(c: char, d: char, k: Seq<char>)
    requires
        in_forms(c, k),
        in_forms(d, k),
    ensures
        c == d,
{
    lemma_form_letter(c);
    lemma_form_letter(d);
    let f = spec_presentation_forms(c).unwrap();
    let h = spec_presentation_forms(d).unwrap();
    let i = choose|i: int| 0 <= i < 4 && form_texts(f)[i] == k;
    let j = choose|j: int| 0 <= j < 4 && form_texts(h)[j] == k;
    assert(k.len() == 1);
    let x = k[0];
    assert(form_texts(f)[i][0] == x && form_texts(h)[j][0] == x);
    assert(i == 0 || i == 1 || i == 2 || i == 3);
    assert(j == 0 || j == 1 || j == 2 || j == 3);
    assert(spec_letter_of_form(x) == Some(c));
    assert(spec_letter_of_form(x) == Some(d));
}

/// A letter's forms are the texts of its four forms.
proof fn lemma_in_forms(c: char, f: (char, char, char, char), k: Seq<char>)
    requires
        spec_presentation_forms(c) == Some(f),
    ensures
        in_forms(c, k) <==> form_texts(f).contains(k),
{
}

/// The forms of the first `n` letters are those of the first `n - 1` and
/// those of the `n`th.
proof fn lemma_processed_next(k: Seq<char>, n: int)
    requires
        1 <= n <= shaped_letters().len(),
    ensures
        processed(k, n) <==> (processed(k, n - 1) || in_forms(shaped_letters()[n - 1], k)),
{
    if processed(k, n) {
        let j = choose|j: int| 0 <= j < n && #[trigger] in_forms(shaped_letters()[j], k);
        if j < n - 1 {
            assert(0 <= j < n - 1 && in_forms(shaped_letters()[j], k));
        }
    }
    if processed(k, n - 1) {
        let j = choose|j: int| 0 <= j < n - 1 && #[trigger] in_forms(shaped_letters()[j], k);
        assert(0 <= j < n && in_forms(shaped_letters()[j], k));
    }
    if in_forms(shaped_letters()[n - 1], k) {
        assert(0 <= n - 1 < n && in_forms(shaped_letters()[n - 1], k));
    }
}

/// A letter counted among the first `n - 1` is among the first `n`.
proof fn lemma_done_next(d: char, n: int)
    requires
        letter_done(d, n - 1),
    ensures
        letter_done(d, n),
{
    let j = choose|j: int| 0 <= j < n - 1 && shaped_letters()[j] == d;
    assert(0 <= j < n && shaped_letters()[j] == d);
}

/// Grouping a letter that adds nothing keeps what held.
#[verifier::rlimit(40)]
proof fn lemma_grouped_same(m: Seq<(Seq<char>, Seq<char>)>, n: int)
    requires
        1 <= n <= shaped_letters().len(),
        grouped_inv(m, n - 1),
        grouped_upto(m, n) == grouped_upto(m, n - 1),
        forall|k: Seq<char>|
            #[trigger] in_forms(shaped_letters()[n - 1], k) ==> !has_key(m, k) || processed(k, n - 1),
    ensures
        grouped_inv(m, n),
{
    let (g, rest) = grouped_upto(m, n - 1);
    let c = shaped_letters()[n - 1];
    assert forall|k: Seq<char>| #[trigger] has_key(rest, k) <==> (has_key(m, k) && !processed(k, n)) by {
        lemma_processed_next(k, n);
    }
    assert forall|i: int| 0 <= i < g.len() implies entry_ok(#[trigger] g[i], m) && letter_done(g[i].0[0], n) by {
        lemma_done_next(g[i].0[0], n);
    }
    assert forall|k: Seq<char>| has_key(m, k) && processed(k, n) implies exists|i: int|
        0 <= i < g.len() && #[trigger] in_forms(g[i].0[0], k) by {
        lemma_processed_next(k, n);
    }
}

/// The group gathered for a letter whose forms the table has is a sound
/// group.
#[verifier::rlimit(40)]
proof fn lemma_new_entry(
    rest: Seq<(Seq<char>, Seq<char>)>,
    m: Seq<(Seq<char>, Seq<char>)>,
    c: char,
    f: (char, char, char, char),
)
    requires
        spec_presentation_forms(c) == Some(f),
        gather_ok(rest, m, c, f),
    ensures
        entry_ok((one(c), gather_forms(rest, form_texts(f)).0), m),
        one(c)[0] == c,
{
    reveal(entry_ok);
    let ks = form_texts(f);
    let vals = gather_forms(rest, ks).0;
    assert(one(c)[0] == c);
    assert forall|i: int| 0 <= i < vals.len() implies exists|k: Seq<char>|
        lookup(m, k) == Some(#[trigger] vals[i]) by {
        let j = choose|j: int| 0 <= j < 4 && lookup(m, #[trigger] ks[j]) == Some(#[trigger] vals[i]);
        assert(lookup(m, ks[j]) == Some(vals[i]));
    }
    assert forall|k: Seq<char>| #[trigger] has_key(group_table(c, vals), k) <==> in_forms(c, k) by {
        lemma_in_forms(c, f, k);
    }
}

/// Grouping a letter whose forms the table left has all of adds its group
/// and keeps what held.
#[verifier::rlimit(60)]
proof fn lemma_grouped_push(m: Seq<(Seq<char>, Seq<char>)>, n: int, f: (char, char, char, char))
    requires
        1 <= n <= shaped_letters().len(),
        grouped_inv(m, n - 1),
        spec_presentation_forms(shaped_letters()[n - 1]) == Some(f),
        !letter_done(shaped_letters()[n - 1], n - 1),
        gather_pre(grouped_upto(m, n - 1).1, m, shaped_letters()[n - 1], f),
        forall|k: Seq<char>| #[trigger] in_forms(shaped_letters()[n - 1], k) ==> !processed(k, n - 1),
    ensures
        grouped_inv(m, n),
{
    let (g, rest) = grouped_upto(m, n - 1);
    let c = shaped_letters()[n - 1];
    let ks = form_texts(f);
    lemma_gather_letter(rest, m, c, f);
    let (vals, rest2) = gather_forms(rest, ks);
    assert(!has_key(g, one(c))) by {
        if has_key(g, one(c)) {
            let i = choose|i: int| 0 <= i < g.len() && g[i].0 == one(c);
            assert(entry_ok(g[i], m) && letter_done(g[i].0[0], n - 1));
            assert(g[i].0[0] == c);
        }
    }
    let e = (one(c), vals);
    let g2 = g.push(e);
    assert(grouped_upto(m, n) == (g2, rest2)) by {
        assert(vals.len() >= 1);
        assert(insert_entry(g, one(c), vals) == g2);
    }
    assert forall|k: Seq<char>| #[trigger] has_key(rest2, k) <==> (has_key(m, k) && !processed(k, n)) by {
        lemma_processed_next(k, n);
        lemma_in_forms(c, f, k);
    }
    lemma_new_entry(rest, m, c, f);
    assert(letter_done(c, n)) by {
        assert(0 <= n - 1 < n && shaped_letters()[n - 1] == c);
    }
    assert forall|i: int| 0 <= i < g2.len() implies entry_ok(#[trigger] g2[i], m) && letter_done(g2[i].0[0], n) by {
        if i < g.len() {
            assert(g2[i] == g[i]);
            lemma_done_next(g[i].0[0], n);
        }
    }
    assert forall|k: Seq<char>| has_key(m, k) && processed(k, n) implies exists|i: int|
        0 <= i < g2.len() && #[trigger] in_forms(g2[i].0[0], k) by {
        lemma_processed_next(k, n);
        if processed(k, n - 1) {
            let i = choose|i: int| 0 <= i < g.len() && #[trigger] in_forms(g[i].0[0], k);
            assert(g2[i] == g[i]);
        } else {
            assert(in_forms(g2[g.len() as int].0[0], k));
        }
    }
    assert(keys_unique(rest2) && within(rest2, m));
    assert(grouped_upto(m, n).0 == g2 && grouped_upto(m, n).1 == rest2);
}

/// Grouping one more letter keeps what held.
#[verifier::rlimit(60)]
proof fn lemma_grouped_step(m: Seq<(Seq<char>, Seq<char>)>, n: int)
    requires
        act_writable(m),
        1 <= n <= shaped_letters().len(),
        grouped_inv(m, n - 1),
    ensures
        grouped_inv(m, n),
{
    let (g, rest) = grouped_upto(m, n - 1);
    let c = shaped_letters()[n - 1];
    match spec_presentation_forms(c) {
        None => {
            assert(grouped_upto(m, n) == (g, rest));
            lemma_grouped_same(m, n);
        },
        Some(f) => {
            let ks = form_texts(f);
            if letter_done(c, n - 1) {
                let j0 = choose|j: int| 0 <= j < n - 1 && shaped_letters()[j] == c;
                assert forall|k: Seq<char>| #[trigger] in_forms(c, k) implies processed(k, n - 1) by {
                    assert(in_forms(shaped_letters()[j0], k));
                }
                assert forall|j: int| 0 <= j < 4 implies !has_key(rest, #[trigger] ks[j]) by {
                    lemma_in_forms(c, f, ks[j]);
                    assert(processed(ks[j], n - 1));
                }
                lemma_gather_absent(rest, ks, 4);
                assert(ks.take(4) =~= ks);
                assert(grouped_upto(m, n) == (g, rest));
                lemma_grouped_same(m, n);
            } else {
                assert forall|k: Seq<char>| #[trigger] in_forms(c, k) implies !processed(k, n - 1) by {
                    if processed(k, n - 1) {
                        let j = choose|j: int| 0 <= j < n - 1 && #[trigger] in_forms(shaped_letters()[j], k);
                        lemma_forms_disjoint(c, shaped_letters()[j], k);
                        assert(letter_done(c, n - 1));
                    }
                }
                assert(spec_presentation_forms(c) is Some);
                assert(letter_complete(m, f));
                if has_key(m, ks[0]) {
                    assert forall|j: int| 0 <= j < 4 implies has_key(rest, #[trigger] ks[j]) by {
                        lemma_in_forms(c, f, ks[j]);
                    }
                    lemma_grouped_push(m, n, f);
                } else {
                    assert forall|j: int| 0 <= j < 4 implies !has_key(rest, #[trigger] ks[j]) by {
                        assert(!has_key(m, ks[j]));
                    }
                    lemma_gather_absent(rest, ks, 4);
                    assert(ks.take(4) =~= ks);
                    assert(grouped_upto(m, n) == (g, rest));
                    assert forall|k: Seq<char>| #[trigger] in_forms(c, k) implies !has_key(m, k) by {
                        lemma_in_forms(c, f, k);
                        if ks.contains(k) {
                            let j = choose|j: int| 0 <= j < 4 && ks[j] == k;
                            assert(!has_key(m, ks[j]));
                        }
                    }
                    lemma_grouped_same(m, n);
                }
            }
        },
    }
}

/// What holds after grouping every letter.
proof fn lemma_grouped_all(m: Seq<(Seq<char>, Seq<char>)>, n: int)
    requires
        act_writable(m),
        0 <= n <= shaped_letters().len(),
    ensures
        grouped_inv(m, n),
    decreases n,
{
    if n == 0 {
        assert forall|k: Seq<char>| !processed(k, 0) by {}
        assert(within(m, m));
    } else {
        lemma_grouped_all(m, n - 1);
        lemma_grouped_step(m, n);
    }
}

/// The table that an `.act` line of a key and its values reads back as.
pub open spec fn line_table(e: (Seq<char>, Seq<Seq<char>>)) -> Seq<(Seq<char>, Seq<char>)> {
    char_table(
        e.0,
        seq![cell_or_empty(e.1, 0), cell_or_empty(e.1, 1), cell_or_empty(e.1, 2), cell_or_empty(e.1, 3)],
    )
}

/// The tables of the lines, one after another.
pub open spec fn line_tables(s: Seq<(Seq<char>, Seq<Seq<char>>)>) -> Seq<(Seq<char>, Seq<char>)>
    decreases s.len(),
{
    if s.len() == 0 {
        Seq::empty()
    } else {
        line_tables(s.drop_last()) + line_table(s.last())
    }
}

/// Tables that each agree with `m` agree with it one after another.
proof fn lemma_line_tables_agree(s: Seq<(Seq<char>, Seq<Seq<char>>)>, m: Seq<(Seq<char>, Seq<char>)>)
    requires
        forall|i: int| 0 <= i < s.len() ==> agrees(line_table(#[trigger] s[i]), m),
    ensures
        agrees(line_tables(s), m),
    decreases s.len(),
{
    if s.len() > 0 {
        let s0 = s.drop_last();
        assert forall|i: int| 0 <= i < s0.len() implies agrees(line_table(#[trigger] s0[i]), m) by {
            assert(s0[i] == s[i]);
        }
        lemma_line_tables_agree(s0, m);
        let a = line_tables(s0);
        let b = line_table(s.last());
        assert(agrees(b, m)) by {
            assert(s[s.len() - 1] == s.last());
        }
        let t = a + b;
        assert forall|i: int| 0 <= i < t.len() implies lookup(m, #[trigger] t[i].0) == Some(t[i].1) by {
            if i < a.len() {
                assert(t[i] == a[i]);
            } else {
                assert(t[i] == b[i - a.len()]);
            }
        }
    }
}

/// A key of one line's table is a key of the tables together.
proof fn lemma_line_tables_has(s: Seq<(Seq<char>, Seq<Seq<char>>)>, i: int, k: Seq<char>)
    requires
        0 <= i < s.len(),
        has_key(line_table(s[i]), k),
    ensures
        has_key(line_tables(s), k),
    decreases s.len(),
{
    let s0 = s.drop_last();
    let a = line_tables(s0);
    let b = line_table(s.last());
    let t = a + b;
    if i == s.len() - 1 {
        let j = choose|j: int| 0 <= j < b.len() && b[j].0 == k;
        assert(t[a.len() + j] == b[j]);
    } else {
        assert(s0[i] == s[i]);
        lemma_line_tables_has(s0, i, k);
        let j = choose|j: int| 0 <= j < a.len() && a[j].0 == k;
        assert(t[j] == a[j]);
    }
}

/// Entries put in as one-value lists after groups whose keys they lack
/// come after the groups.
proof fn lemma_lists_inserted_append(g: Seq<(Seq<char>, Seq<Seq<char>>)>, es: Seq<(Seq<char>, Seq<char>)>)
    requires
        keys_unique(es),
        forall|i: int| 0 <= i < es.len() ==> !has_key(g, (#[trigger] es[i]).0),
    ensures
        lists_inserted(g, es) == g + es.map_values(|e: (Seq<char>, Seq<char>)| (e.0, seq![e.1])),
    decreases es.len(),
{
    if es.len() > 0 {
        let e0 = es.drop_last();
        assert forall|i: int| 0 <= i < e0.len() implies !has_key(g, (#[trigger] e0[i]).0) by {
            assert(e0[i] == es[i]);
        }
        lemma_lists_inserted_append(g, e0);
        let l = g + e0.map_values(|e: (Seq<char>, Seq<char>)| (e.0, seq![e.1]));
        let x = es.last();
        assert(!has_key(g, es[es.len() - 1].0));
        assert(!has_key(l, x.0)) by {
            if has_key(l, x.0) {
                let j = choose|j: int| 0 <= j < l.len() && l[j].0 == x.0;
                if j < g.len() {
                    assert(l[j] == g[j]);
                } else {
                    assert(l[j].0 == e0[j - g.len()].0);
                    assert(es[j - g.len()].0 == es[es.len() - 1].0);
                }
            }
        }
        assert(l.push((x.0, seq![x.1])) =~= g + es.map_values(|e: (Seq<char>, Seq<char>)| (e.0, seq![e.1])));
    }
}

/// A key and its values that an `.act` line holds as cells.
pub open spec fn line_ok(e: (Seq<char>, Seq<Seq<char>>)) -> bool {
    &&& e.0.len() >= 1
    &&& act_cell_ok(e.0)
    &&& e.1.len() >= 1
    &&& forall|j: int| 0 <= j < e.1.len() ==> act_cell_ok(#[trigger] e.1[j])
}

/// A value that `m` holds under some key is one of its values.
proof fn lemma_value_of(m: Seq<(Seq<char>, Seq<char>)>, k: Seq<char>, v: Seq<char>)
    requires
        act_writable(m),
        lookup(m, k) == Some(v),
    ensures
        act_cell_ok(v),
{
    let i = key_index(m, k);
    assert(m[i].1 == v);
}

/// A letter's group, as a line, holds its cells and reads back as its
/// forms with the values `m` has for them.
proof fn lemma_group_line(e: (Seq<char>, Seq<Seq<char>>), m: Seq<(Seq<char>, Seq<char>)>)
    requires
        act_writable(m),
        entry_ok(e, m),
    ensures
        line_ok(e),
        agrees(line_table(e), m),
        forall|k: Seq<char>| in_forms(e.0[0], k) ==> has_key(line_table(e), k),
        e.0.len() == 1 && spec_presentation_forms(e.0[0]) is Some,
{
    reveal(entry_ok);
    let c = e.0[0];
    assert(e.0 =~= one(c));
    assert(line_table(e) == group_table(c, e.1));
    assert(spec_presentation_forms('\u{2588}') is None);
    assert(spec_presentation_forms('\n') is None);
    assert(spec_presentation_forms('\r') is None);
    assert(act_cell_ok(e.0));
    assert forall|j: int| 0 <= j < e.1.len() implies act_cell_ok(#[trigger] e.1[j]) by {
        let k = choose|k: Seq<char>| lookup(m, k) == Some(e.1[j]);
        lemma_value_of(m, k, e.1[j]);
    }
}

/// An entry left over, as a line, holds its cells and reads back as itself.
proof fn lemma_rest_line(m: Seq<(Seq<char>, Seq<char>)>, k: Seq<char>, v: Seq<char>)
    requires
        act_writable(m),
        lookup(m, k) == Some(v),
    ensures
        line_ok((k, seq![v])),
        line_table((k, seq![v])) == seq![(k, v)],
        agrees(line_table((k, seq![v])), m),
        !(k.len() == 1 && spec_presentation_forms(k[0]) is Some),
{
    let i = key_index(m, k);
    assert(m[i] == (k, v));
    lemma_value_of(m, k, v);
    let e = (k, seq![v]);
    assert(cell_or_empty(e.1, 0) == v);
    assert(line_table(e) =~= seq![(k, v)]);
}

/// The lines of a table the `.act` format can write: each holds its cells,
/// reads back as entries of the table, and together they hold every key.
#[verifier::rlimit(40)]
proof fn lemma_grouped_lines(m: Seq<(Seq<char>, Seq<char>)>)
    requires
        act_writable(m),
    ensures
        forall|i: int| 0 <= i < grouped(m).len() ==> line_ok(#[trigger] grouped(m)[i]),
        forall|i: int| 0 <= i < grouped(m).len() ==> agrees(line_table(#[trigger] grouped(m)[i]), m),
        forall|k: Seq<char>| has_key(m, k) ==> has_key(line_tables(grouped(m)), k),
{
    let n = shaped_letters().len() as int;
    lemma_grouped_all(m, n);
    let (g, rest) = grouped_upto(m, n);
    assert forall|j: int| 0 <= j < rest.len() implies !has_key(g, (#[trigger] rest[j]).0) by {
        let k = rest[j].0;
        assert(has_key(rest, k));
        assert(has_key(m, k));
        let i = key_index(m, k);
        assert(m[i].0 == k);
        if has_key(g, k) {
            let x = choose|x: int| 0 <= x < g.len() && g[x].0 == k;
            lemma_group_line(g[x], m);
        }
    }
    lemma_lists_inserted_append(g, rest);
    let gg = grouped(m);
    assert(gg == g + rest.map_values(|e: (Seq<char>, Seq<char>)| (e.0, seq![e.1])));
    assert forall|j: int| 0 <= j < rest.len() implies lookup(m, (#[trigger] rest[j]).0) == Some(rest[j].1) by {
        lemma_key_index(rest, j);
        assert(has_key(rest, rest[j].0));
    }
    assert forall|i: int| 0 <= i < gg.len() implies line_ok(#[trigger] gg[i]) && agrees(line_table(gg[i]), m) by {
        if i < g.len() {
            assert(gg[i] == g[i]);
            lemma_group_line(g[i], m);
        } else {
            let j = i - g.len();
            assert(gg[i] == (rest[j].0, seq![rest[j].1]));
            lemma_rest_line(m, rest[j].0, rest[j].1);
        }
    }
    assert forall|k: Seq<char>| has_key(m, k) implies has_key(line_tables(gg), k) by {
        if has_key(rest, k) {
            let j = choose|j: int| 0 <= j < rest.len() && rest[j].0 == k;
            let i = g.len() + j;
            assert(gg[i] == (rest[j].0, seq![rest[j].1]));
            lemma_rest_line(m, rest[j].0, rest[j].1);
            assert(line_table(gg[i])[0].0 == k);
            lemma_line_tables_has(gg, i, k);
        } else {
            assert(processed(k, n));
            let i = choose|i: int| 0 <= i < g.len() && #[trigger] in_forms(g[i].0[0], k);
            assert(gg[i] == g[i]);
            lemma_group_line(g[i], m);
            lemma_line_tables_has(gg, i, k);
        }
    }
}

/// An `.act` line of a key and its values splits back into the key and
/// the values.
proof fn lemma_line_cells(e: (Seq<char>, Seq<Seq<char>>))
    requires
        line_ok(e),
    ensures
        split(e.0 + act_separator() + join(e.1, act_separator()), act_separator()) == seq![e.0] + e.1,
{
    let sep = act_separator();
    let ps = seq![e.0] + e.1;
    crate::text::lemma_join_prepend(e.0, e.1, sep);
    assert forall|i: int| 0 <= i < ps.len() implies lacks(#[trigger] ps[i], '\u{2588}') by {
        if i == 0 {
            assert(ps[i] == e.0);
        } else {
            assert(ps[i] == e.1[i - 1]);
        }
    }
    lemma_split_join(ps, '\u{2588}');
}

/// The `.act` lines after the header, up to the `n`th line, read back as
/// their tables one after another.
proof fn lemma_act_upto_lines(g: Seq<(Seq<char>, Seq<Seq<char>>)>, lines: Seq<Seq<char>>, n: int)
    requires
        forall|i: int| 0 <= i < g.len() ==> line_ok(#[trigger] g[i]),
        lines.len() == g.len() + 1,
        forall|i: int| 0 <= i < g.len() ==> lines[i + 1] == #[trigger] act_lines(g)[i],
        1 <= n <= lines.len(),
    ensures
        act_upto(lines, n) == inserted_all(Seq::empty(), line_tables(g.take(n - 1))),
    decreases n,
{
    let ee = Seq::<(Seq<char>, Seq<char>)>::empty();
    if n == 1 {
        assert(g.take(0) =~= Seq::<(Seq<char>, Seq<Seq<char>>)>::empty());
        assert(line_tables(g.take(0)) =~= ee);
    } else {
        lemma_act_upto_lines(g, lines, n - 1);
        let e = g[n - 2];
        let sep = act_separator();
        assert(lines[n - 1] == act_lines(g)[n - 2]);
        assert(lines[n - 1] == e.0 + sep + join(e.1, sep));
        lemma_line_cells(e);
        let cols = split(lines[n - 1], sep);
        assert(cols == seq![e.0] + e.1);
        assert(cols[0] == e.0);
        assert(cell_or_empty(cols, 1) == cell_or_empty(e.1, 0));
        assert(cell_or_empty(cols, 2) == cell_or_empty(e.1, 1));
        assert(cell_or_empty(cols, 3) == cell_or_empty(e.1, 2));
        assert(cell_or_empty(cols, 4) == cell_or_empty(e.1, 3));
        let before = line_tables(g.take(n - 2));
        lemma_inserted_concat(ee, before, line_table(e));
        assert(g.take(n - 1).drop_last() =~= g.take(n - 2));
        assert(g.take(n - 1).last() == e);
    }
}

/// Each `.act` line after the header holds no line break.
proof fn lemma_line_lacks(e: (Seq<char>, Seq<Seq<char>>), c: char)
    requires
        line_ok(e),
        c == '\n' || c == '\r',
    ensures
        lacks(e.0 + act_separator() + join(e.1, act_separator()), c),
{
    let sep = act_separator();
    let ps = seq![e.0] + e.1;
    crate::text::lemma_join_prepend(e.0, e.1, sep);
    assert forall|i: int| 0 <= i < ps.len() implies lacks(#[trigger] ps[i], c) by {
        if i == 0 {
            assert(ps[i] == e.0);
        } else {
            assert(ps[i] == e.1[i - 1]);
        }
    }
    let t = join(ps, sep);
    assert forall|j: int| 0 <= j < t.len() implies t[j] != c by {
        lemma_join_lacks(ps, sep, c, j);
    }
}

/// A table whose keys are not empty and are not letters that have
/// presentation forms, whose keys and values hold no cell separator or
/// line break, and whose letters have each all their presentation forms or
/// none, no form's value being the text of a later, different form of the
/// same letter, reads back from its `.act` text as the same map.
#[verifier::rlimit(40)]
pub proof fn lemma_act_roundtrip(m: Seq<(Seq<char>, Seq<char>)>)
    requires
        act_writable(m),
    ensures
        as_map(act_table(act_text(m))) == as_map(m),
{
    lemma_grouped_lines(m);
    let g = grouped(m);
    let nl = seq!['\n'];
    let ls = act_lines(g);
    lemma_act_header();
    let h = crate::cipher::act_header();
    let t = act_text(m);
    let es = line_tables(g);
    lemma_line_tables_agree(g, m);
    let body = if g.len() == 0 {
        seq![Seq::<char>::empty()]
    } else {
        ls
    };
    let all = seq![h] + body;
    if g.len() == 0 {
        assert(ls =~= Seq::<Seq<char>>::empty());
        assert(join(ls, nl) =~= Seq::<char>::empty());
        assert(t == h + nl + join(ls, nl));
        assert(all =~= seq![h, Seq::<char>::empty()]);
        assert(all.drop_last() =~= seq![h]);
        assert(join(seq![h], nl) == h);
        assert(join(all, nl) == join(all.drop_last(), nl) + nl + all.last());
        assert(join(all, nl) =~= t);
    } else {
        crate::text::lemma_join_prepend(h, ls, nl);
        assert(join(all, nl) == t);
    }
    assert forall|i: int| 0 <= i < all.len() implies lacks(#[trigger] all[i], '\n') && lacks(all[i], '\r') by {
        if i > 0 && g.len() > 0 {
            assert(all[i] == ls[i - 1]);
            lemma_line_lacks(g[i - 1], '\n');
            lemma_line_lacks(g[i - 1], '\r');
        }
    }
    assert(lacks(t, '\r')) by {
        assert forall|j: int| 0 <= j < t.len() implies t[j] != '\r' by {
            lemma_join_lacks(all, nl, '\r', j);
        }
    }
    lemma_no_crlf(t, 0);
    assert(t.skip(0) =~= t);
    lemma_split_join(all, '\n');
    let lines = text_lines(t);
    assert(lines == all);
    if g.len() == 0 {
        let sep = act_separator();
        assert(split(Seq::<char>::empty(), sep) =~= seq![Seq::<char>::empty()]) by {
            assert(Seq::<char>::empty().subrange(0, 0) =~= Seq::<char>::empty());
        }
        assert(lines[1] =~= Seq::<char>::empty());
        assert(split(lines[1], sep)[0].len() == 0);
        assert(act_upto(lines, 1) =~= Seq::<(Seq<char>, Seq<char>)>::empty());
        assert(act_upto(lines, 2) =~= Seq::<(Seq<char>, Seq<char>)>::empty());
        assert(es =~= Seq::<(Seq<char>, Seq<char>)>::empty());
        assert(act_table(t) == inserted_all(Seq::empty(), es));
    } else {
        assert forall|i: int| 0 <= i < g.len() implies lines[i + 1] == #[trigger] act_lines(g)[i] by {
            assert(lines[i + 1] == ls[i]);
        }
        lemma_act_upto_lines(g, lines, lines.len() as int);
        assert(g.take(g.len() as int) =~= g);
        assert(act_table(t) == inserted_all(Seq::empty(), es));
    }
    lemma_inserted_same_map(es, m);
}

} // verus!
