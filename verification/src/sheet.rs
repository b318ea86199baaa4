//! Translation sheets and text vectors: cutting text into pages, lines and
//! command-separated pieces and back; pulling strings out of binary files
//! into a sheet; writing a sheet; and putting translated strings back into
//! the bytes.
use vstd::prelude::*;
use crate::layout::{match_start, match_end};
use crate::offsets::{char_index_of, is_char_offset, span_chars, char_index, lemma_char_index_of_mono};
use crate::outside::{regex_captures, regex_search, group_views, well_placed, string_from_chars};
use crate::text::{str_chars, push_all, split, split_chars, join, join_chars, views, slice_chars};
use crate::utils::string_views;
use crate::numbers::parsed_isize;

verus! {

// ---------------------------------------------------------------- keeping matches

/// For each of the first `n` matches, the text before it (after the match
/// before) and the match itself.
pub open spec fn kept_pieces_upto(t: Seq<char>, ms: Seq<Seq<Option<(usize, usize)>>>, n: int) -> Seq<
    Seq<char>,
>
    decreases n,
{
    if n <= 0 {
        Seq::empty()
    } else {
        kept_pieces_upto(t, ms, n - 1) + seq![
            t.subrange(match_end(t, ms, n - 2), match_start(t, ms, n - 1)),
            t.subrange(match_start(t, ms, n - 1), match_end(t, ms, n - 1)),
        ]
    }
}

/// The text cut at the matches, the matches kept as pieces of their own:
/// text before a match, the match, and so on, then the text after the last
/// match.
pub open spec fn kept_pieces(t: Seq<char>, ms: Seq<Seq<Option<(usize, usize)>>>) -> Seq<Seq<char>> {
    kept_pieces_upto(t, ms, ms.len() as int) + seq![
        t.subrange(match_end(t, ms, ms.len() - 1), t.len() as int),
    ]
}

/// What `split_keep` makes of a text: nothing for an empty text; the text
/// cut at the matches of the pattern, keeping them; the whole text when the
/// pattern does not compile.
pub open spec fn split_kept(t: Seq<char>, pattern: Seq<char>) -> Seq<Seq<char>> {
    if t.len() == 0 {
        Seq::empty()
    } else {
        match regex_search(pattern, t) {
            Some(ms) => kept_pieces(t, ms),
            None => seq![t],
        }
    }
}

/// Cuts a text at the matches found in it, keeping the matches as pieces of
/// their own.
pub fn split_keep_matches(text: &str, ms: &Vec<Vec<Option<(usize, usize)>>>) -> (r: Vec<String>)
    requires
        well_placed(text@, group_views(ms@)),
    ensures
        string_views(r@) == kept_pieces(text@, group_views(ms@)),
{
    let t = str_chars(text);
    let ghost msv = group_views(ms@);
    let mut r: Vec<String> = Vec::new();
    let mut last: usize = 0;
    let mut i: usize = 0;
    proof {
        assert(t@.take(0) =~= Seq::<char>::empty());
        crate::offsets::lemma_char_index_of(t@, 0, 0);
    }
    assert(string_views(r@) =~= Seq::<Seq<char>>::empty());
    while i < ms.len()
        invariant
            t@ == text@,
            msv == group_views(ms@),
            well_placed(t@, msv),
            i <= ms@.len(),
            is_char_offset(t@, last as int),
            char_index_of(t@, last as int) == match_end(t@, msv, i - 1),
            i > 0 ==> last == msv[i - 1][0].unwrap().1,
            string_views(r@) == kept_pieces_upto(t@, msv, i as int),
        decreases ms@.len() - i,
    {
        let row = &ms[i];
        assert(msv[i as int] == row@);
        assert(msv[i as int][0] is Some);
        let sp = match row[0] {
            Some(sp) => sp,
            None => (0, 0),
        };
        assert(msv[i as int][0] == Some(sp));
        if i > 0 {
            assert(msv[i - 1][0].unwrap().1 <= msv[i as int][0].unwrap().0);
        }
        let before_piece = span_chars(&t, (last, sp.0));
        let found = span_chars(&t, sp);
        let ghost before = string_views(r@);
        let a = string_from_chars(&before_piece);
        let b = string_from_chars(&found);
        let ghost av = a@;
        let ghost bv = b@;
        r.push(a);
        r.push(b);
        assert(string_views(r@) =~= before + seq![av, bv]);
        last = sp.1;
        i += 1;
    }
    let k = char_index(&t, last);
    let ghost before = string_views(r@);
    let tail = string_from_chars(&slice_chars(&t, k, t.len()));
    let ghost tv = tail@;
    r.push(tail);
    assert(string_views(r@) =~= before + seq![tv]);
    r
}

/// Cuts a text at the matches of a pattern, keeping the matches as pieces
/// of their own; an empty text gives no piece, and a pattern that does not
/// compile leaves the text whole.
pub fn split_keep(text: &str, pattern: &str) -> (r: Vec<String>)
    ensures
        string_views(r@) == split_kept(text@, pattern@),
        join(string_views(r@), Seq::empty()) == text@,
{
    if str_chars(text).len() == 0 {
        let r: Vec<String> = Vec::new();
        assert(string_views(r@) =~= Seq::<Seq<char>>::empty());
        assert(text@ =~= Seq::<char>::empty());
        return r;
    }
    match regex_captures(pattern, text) {
        Some(ms) => {
            proof {
                lemma_split_keep_join(text@, group_views(ms@));
            }
            split_keep_matches(text, &ms)
        },
        None => {
            let mut r: Vec<String> = Vec::new();
            let s = string_from_chars(&str_chars(text));
            let ghost sv = s@;
            r.push(s);
            assert(string_views(r@) =~= seq![sv]);
            r
        },
    }
}

/// Joining pieces with nothing between them: one more piece adds its text.
pub proof fn lemma_join_nothing_push(ps: Seq<Seq<char>>, x: Seq<char>)
    ensures
        join(ps.push(x), Seq::empty()) == join(ps, Seq::empty()) + x,
{
    if ps.len() == 0 {
        assert(ps.push(x) =~= seq![x]);
        assert(join(ps, Seq::<char>::empty()) =~= Seq::<char>::empty());
        assert(x =~= Seq::<char>::empty() + x);
    } else {
        assert(ps.push(x).drop_last() =~= ps);
        assert(join(ps.push(x), Seq::<char>::empty()) =~= join(ps, Seq::<char>::empty()) + x);
    }
}

/// Match positions, as character indices, run forward through the text.
proof fn lemma_match_order(t: Seq<char>, ms: Seq<Seq<Option<(usize, usize)>>>, i: int)
    requires
        well_placed(t, ms),
        0 <= i < ms.len(),
    ensures
        0 <= match_end(t, ms, i - 1) <= match_start(t, ms, i) <= match_end(t, ms, i) <= t.len(),
{
    assert(ms[i].len() >= 1 && ms[i][0] is Some);
    let sp = ms[i][0].unwrap();
    assert(is_char_offset(t, sp.0 as int) && is_char_offset(t, sp.1 as int));
    lemma_char_index_of_mono(t, sp.0 as int, sp.1 as int);
    let k = char_index_of(t, sp.1 as int);
    assert(0 <= k <= t.len() && crate::offsets::utf8_len(t.take(k)) == sp.1);
    let k0 = char_index_of(t, sp.0 as int);
    assert(0 <= k0 <= t.len() && crate::offsets::utf8_len(t.take(k0)) == sp.0);
    if i > 0 {
        assert(ms[i - 1].len() >= 1 && ms[i - 1][0] is Some);
        let sp2 = ms[i - 1][0].unwrap();
        assert(sp2.1 <= sp.0);
        assert(is_char_offset(t, sp2.1 as int));
        lemma_char_index_of_mono(t, sp2.1 as int, sp.0 as int);
    }
}

/// The pieces of the first `n` matches, joined, are the text up to the end
/// of match `n - 1`.
#[verifier::rlimit(40)]
proof fn lemma_kept_upto_join(t: Seq<char>, ms: Seq<Seq<Option<(usize, usize)>>>, n: int)
    requires
        well_placed(t, ms),
        0 <= n <= ms.len(),
    ensures
        join(kept_pieces_upto(t, ms, n), Seq::empty()) == t.subrange(0, match_end(t, ms, n - 1)),
        0 <= match_end(t, ms, n - 1) <= t.len(),
    decreases n,
{
    if n == 0 {
        assert(kept_pieces_upto(t, ms, 0) =~= Seq::<Seq<char>>::empty());
        assert(t.subrange(0, 0) =~= Seq::<char>::empty());
    } else {
        lemma_kept_upto_join(t, ms, n - 1);
        lemma_match_order(t, ms, n - 1);
        let before = kept_pieces_upto(t, ms, n - 1);
        let a = t.subrange(match_end(t, ms, n - 2), match_start(t, ms, n - 1));
        let b = t.subrange(match_start(t, ms, n - 1), match_end(t, ms, n - 1));
        assert(kept_pieces_upto(t, ms, n) =~= before.push(a).push(b));
        lemma_join_nothing_push(before, a);
        lemma_join_nothing_push(before.push(a), b);
        assert(t.subrange(0, match_end(t, ms, n - 2)) + a + b =~= t.subrange(0, match_end(t, ms, n - 1)));
    }
}

/// Joining the pieces of a text cut at well-placed matches gives the text
/// back.
pub proof fn lemma_split_keep_join(t: Seq<char>, ms: Seq<Seq<Option<(usize, usize)>>>)
    requires
        well_placed(t, ms),
    ensures
        join(kept_pieces(t, ms), Seq::empty()) == t,
{
    lemma_kept_upto_join(t, ms, ms.len() as int);
    let rest = t.subrange(match_end(t, ms, ms.len() - 1), t.len() as int);
    lemma_join_nothing_push(kept_pieces_upto(t, ms, ms.len() as int), rest);
    assert(kept_pieces(t, ms) =~= kept_pieces_upto(t, ms, ms.len() as int).push(rest));
    assert(t.subrange(0, match_end(t, ms, ms.len() - 1)) + rest =~= t);
}

// ---------------------------------------------------------------- text vectors

/// The text of a list of pages of lines of pieces.
pub open spec fn vector_views(v: Seq<Vec<Vec<String>>>) -> Seq<Seq<Seq<Seq<char>>>> {
    v.map_values(|p: Vec<Vec<String>>| p@.map_values(|l: Vec<String>| string_views(l@)))
}

/// What `text_vector_from_string` makes of a text: its pages, each page's
/// lines, each line cut at the command pattern's matches, keeping them.
pub open spec fn text_vector(t: Seq<char>, page_com: Seq<char>, line_com: Seq<char>, coms: Seq<char>) -> Seq<
    Seq<Seq<Seq<char>>>,
> {
    split(t, page_com).map_values(
        |p: Seq<char>| split(p, line_com).map_values(|l: Seq<char>| split_kept(l, coms)),
    )
}

/// What `string_from_text_vector` makes of pages of lines of pieces: the
/// pieces of each line joined, the lines of each page joined by the line
/// command, the pages joined by the page command.
pub open spec fn vector_text(v: Seq<Seq<Seq<Seq<char>>>>, page_com: Seq<char>, line_com: Seq<char>) -> Seq<
    char,
> {
    join(
        v.map_values(
            |p: Seq<Seq<Seq<char>>>|
                join(p.map_values(|l: Seq<Seq<char>>| join(l, Seq::empty())), line_com),
        ),
        page_com,
    )
}

/// Cuts a text into pages at `page_com`, each page into lines at
/// `line_com`, and each line at the matches of `coms_pattern`, keeping the
/// matches.
pub fn text_vector_from_string(text: &str, page_com: &str, line_com: &str, coms_pattern: &str) -> (r:
    Vec<Vec<Vec<String>>>)
    ensures
        vector_views(r@) == text_vector(text@, page_com@, line_com@, coms_pattern@),
        vector_text(vector_views(r@), page_com@, line_com@) == text@,
{
    let pages = split_chars(&str_chars(text), &str_chars(page_com));
    let lc = str_chars(line_com);
    let ghost pv = views(pages@);
    let ghost want = text_vector(text@, page_com@, line_com@, coms_pattern@);
    let mut r: Vec<Vec<Vec<String>>> = Vec::new();
    let mut i: usize = 0;
    while i < pages.len()
        invariant
            i <= pages@.len(),
            pv == views(pages@),
            pv == split(text@, page_com@),
            lc@ == line_com@,
            want == text_vector(text@, page_com@, line_com@, coms_pattern@),
            vector_views(r@) == want.take(i as int),
            forall|k: int|
                0 <= k < i ==> join(
                    (#[trigger] want[k]).map_values(|l: Seq<Seq<char>>| join(l, Seq::empty())),
                    line_com@,
                ) == pv[k],
        decreases pages@.len() - i,
    {
        let lines = split_chars(&pages[i], &lc);
        let ghost lv = views(lines@);
        assert(pv[i as int] == pages@[i as int]@);
        let ghost want_page = want[i as int];
        assert(want_page == split(pv[i as int], line_com@).map_values(
            |l: Seq<char>| split_kept(l, coms_pattern@),
        ));
        let mut page: Vec<Vec<String>> = Vec::new();
        let mut j: usize = 0;
        while j < lines.len()
            invariant
                j <= lines@.len(),
                lv == views(lines@),
                lv == split(pv[i as int], line_com@),
                want_page == lv.map_values(|l: Seq<char>| split_kept(l, coms_pattern@)),
                page@.map_values(|l: Vec<String>| string_views(l@)) == want_page.take(j as int),
                forall|k: int| 0 <= k < j ==> join(#[trigger] want_page[k], Seq::empty()) == lv[k],
            decreases lines@.len() - j,
        {
            let s = string_from_chars(&lines[j]);
            assert(lv[j as int] == s@);
            let pieces = split_keep(s.as_str(), coms_pattern);
            let ghost before = page@.map_values(|l: Vec<String>| string_views(l@));
            let ghost pc = string_views(pieces@);
            page.push(pieces);
            assert(page@.map_values(|l: Vec<String>| string_views(l@)) =~= before.push(pc));
            assert(want_page.take(j + 1) =~= want_page.take(j as int).push(want_page[j as int]));
            j += 1;
        }
        assert(want_page.take(j as int) =~= want_page);
        proof {
            let lt = want_page.map_values(|l: Seq<Seq<char>>| join(l, Seq::empty()));
            assert(lt =~= lv);
            crate::text::lemma_join_split(pv[i as int], line_com@);
        }
        let ghost before = vector_views(r@);
        let ghost pg = page@.map_values(|l: Vec<String>| string_views(l@));
        r.push(page);
        assert(vector_views(r@) =~= before.push(pg));
        assert(want.take(i + 1) =~= want.take(i as int).push(want[i as int]));
        i += 1;
    }
    assert(want.take(i as int) =~= want);
    proof {
        let pt = want.map_values(
            |p: Seq<Seq<Seq<char>>>|
                join(p.map_values(|l: Seq<Seq<char>>| join(l, Seq::empty())), line_com@),
        );
        assert(pt =~= pv);
        crate::text::lemma_join_split(text@, page_com@);
    }
    r
}

/// Joins pages of lines of pieces back into a text: the pieces of each line
/// joined, lines joined by `line_com`, pages joined by `page_com`.
pub fn string_from_text_vector(text_list: &Vec<Vec<Vec<String>>>, page_com: &str, line_com: &str) -> (r:
    String)
    ensures
        r@ == vector_text(vector_views(text_list@), page_com@, line_com@),
{
    let ghost v = vector_views(text_list@);
    let lc = str_chars(line_com);
    let pc = str_chars(page_com);
    let ghost page_texts = v.map_values(
        |p: Seq<Seq<Seq<char>>>|
            join(p.map_values(|l: Seq<Seq<char>>| join(l, Seq::empty())), line_com@),
    );
    let mut pages: Vec<Vec<char>> = Vec::new();
    let mut i: usize = 0;
    while i < text_list.len()
        invariant
            i <= text_list@.len(),
            v == vector_views(text_list@),
            lc@ == line_com@,
            page_texts == v.map_values(
                |p: Seq<Seq<Seq<char>>>|
                    join(p.map_values(|l: Seq<Seq<char>>| join(l, Seq::empty())), line_com@),
            ),
            views(pages@) == page_texts.take(i as int),
        decreases text_list@.len() - i,
    {
        let page = &text_list[i];
        let ghost pgv = v[i as int];
        assert(pgv == page@.map_values(|l: Vec<String>| string_views(l@)));
        let ghost line_texts = pgv.map_values(|l: Seq<Seq<char>>| join(l, Seq::empty()));
        let mut lines: Vec<Vec<char>> = Vec::new();
        let mut j: usize = 0;
        while j < page.len()
            invariant
                j <= page@.len(),
                pgv == page@.map_values(|l: Vec<String>| string_views(l@)),
                line_texts == pgv.map_values(|l: Seq<Seq<char>>| join(l, Seq::empty())),
                views(lines@) == line_texts.take(j as int),
            decreases page@.len() - j,
        {
            let pieces = &page[j];
            let mut cs: Vec<Vec<char>> = Vec::new();
            let mut k: usize = 0;
            while k < pieces.len()
                invariant
                    k <= pieces@.len(),
                    views(cs@) == string_views(pieces@).take(k as int),
                decreases pieces@.len() - k,
            {
                let ghost before = views(cs@);
                let c = str_chars(pieces[k].as_str());
                let ghost cv = c@;
                cs.push(c);
                assert(views(cs@) =~= before.push(cv));
                assert(string_views(pieces@).take(k + 1) =~= string_views(pieces@).take(k as int).push(
                    pieces@[k as int]@,
                ));
                k += 1;
            }
            assert(string_views(pieces@).take(k as int) =~= string_views(pieces@));
            let empty: Vec<char> = Vec::new();
            assert(empty@ =~= Seq::<char>::empty());
            let line = join_chars(&cs, &empty);
            assert(pgv[j as int] == string_views(pieces@));
            let ghost before = views(lines@);
            let ghost lnv = line@;
            lines.push(line);
            assert(views(lines@) =~= before.push(lnv));
            assert(line_texts.take(j + 1) =~= line_texts.take(j as int).push(line_texts[j as int]));
            j += 1;
        }
        assert(line_texts.take(j as int) =~= line_texts);
        let text = join_chars(&lines, &lc);
        let ghost before = views(pages@);
        let ghost tv = text@;
        pages.push(text);
        assert(views(pages@) =~= before.push(tv));
        assert(page_texts.take(i + 1) =~= page_texts.take(i as int).push(page_texts[i as int]));
        i += 1;
    }
    assert(page_texts.take(i as int) =~= page_texts);
    string_from_chars(&join_chars(&pages, &pc))
}

// ---------------------------------------------------------------- extracting

/// The text of a list of sheet rows.
pub open spec fn row_views(v: Seq<[String; 2]>) -> Seq<(Seq<char>, Seq<char>)> {
    v.map_values(|r: [String; 2]| (r@[0]@, r@[1]@))
}

/// Every match has its first capture group.
pub open spec fn first_groups(ms: Seq<Seq<Option<(usize, usize)>>>) -> bool {
    forall|i: int| 0 <= i < ms.len() ==> (#[trigger] ms[i]).len() >= 2 && ms[i][1] is Some
}

/// The sheet rows that matches in a file's bytes give: for each, the byte
/// offset where its first group starts, in decimal, and that group's bytes
/// read as UTF-8 (invalid sequences replaced).
pub open spec fn sheet_rows(hay: Seq<u8>, ms: Seq<Seq<Option<(usize, usize)>>>) -> Seq<
    (Seq<char>, Seq<char>),
> {
    Seq::new(
        ms.len(),
        |i: int|
            (
                crate::numbers::decimal(ms[i][1].unwrap().0 as nat),
                crate::outside::utf8_lossy(
                    hay.subrange(ms[i][1].unwrap().0 as int, ms[i][1].unwrap().1 as int),
                ),
            ),
    )
}

/// The sheet rows that the matches found in a file's bytes give.
pub fn sheet_from_matches(bytes: &[u8], ms: &Vec<Vec<Option<(usize, usize)>>>) -> (r: Vec<[String; 2]>)
    requires
        crate::outside::well_placed_bytes(bytes@.len(), group_views(ms@)),
        first_groups(group_views(ms@)),
    ensures
        row_views(r@) == sheet_rows(bytes@, group_views(ms@)),
{
    let ghost msv = group_views(ms@);
    let mut r: Vec<[String; 2]> = Vec::new();
    let mut i: usize = 0;
    while i < ms.len()
        invariant
            msv == group_views(ms@),
            crate::outside::well_placed_bytes(bytes@.len(), msv),
            first_groups(msv),
            i <= ms@.len(),
            row_views(r@) == sheet_rows(bytes@, msv).take(i as int),
        decreases ms@.len() - i,
    {
        assert(msv[i as int] == ms@[i as int]@);
        assert(msv[i as int].len() >= 2 && msv[i as int][1] is Some);
        let sp = match ms[i][1] {
            Some(sp) => sp,
            None => (0, 0),
        };
        assert(msv[i as int][1] == Some(sp));
        let offset = string_from_chars(&crate::numbers::decimal_chars(sp.0));
        let text = crate::outside::string_from_utf8_lossy(vstd::slice::slice_subrange(bytes, sp.0, sp.1));
        let ghost before = row_views(r@);
        let ghost rv = (offset@, text@);
        let row: [String; 2] = [offset, text];
        r.push(row);
        assert(row_views(r@) =~= before.push(rv));
        assert(sheet_rows(bytes@, msv).take(i + 1) =~= sheet_rows(bytes@, msv).take(i as int).push(rv));
        i += 1;
    }
    assert(sheet_rows(bytes@, msv).take(i as int) =~= sheet_rows(bytes@, msv));
    r
}

/// The bytes can be searched: the pattern compiles and each match has its
/// first capture group.
pub open spec fn sheet_searchable(hay: Seq<u8>, pattern: Seq<char>) -> bool {
    crate::outside::bytes_regex_search(pattern, hay) matches Some(ms) && first_groups(ms)
}

/// The sheet rows that a pattern finds in a file's bytes.
pub open spec fn sheet_of(hay: Seq<u8>, pattern: Seq<char>) -> Seq<(Seq<char>, Seq<char>)> {
    sheet_rows(hay, crate::outside::bytes_regex_search(pattern, hay).unwrap())
}

/// Pulls the strings that the first capture group of `pattern` finds in a
/// file's bytes into sheet rows of their byte offset and text.
pub fn sheet_from_bytes(bytes: &[u8], pattern: &str) -> (r: Vec<[String; 2]>)
    requires
        sheet_searchable(bytes@, pattern@),
    ensures
        row_views(r@) == sheet_of(bytes@, pattern@),
{
    match crate::outside::bytes_regex_captures(pattern, bytes) {
        Some(ms) => sheet_from_matches(bytes, &ms),
        None => Vec::new(),
    }
}

/// Whether every match has its first capture group.
fn all_first_groups(ms: &Vec<Vec<Option<(usize, usize)>>>) -> (b: bool)
    ensures
        b == first_groups(group_views(ms@)),
{
    let ghost v = group_views(ms@);
    let mut i: usize = 0;
    while i < ms.len()
        invariant
            v == group_views(ms@),
            i <= ms@.len(),
            forall|j: int| 0 <= j < i ==> (#[trigger] v[j]).len() >= 2 && v[j][1] is Some,
        decreases ms@.len() - i,
    {
        assert(v[i as int] == ms@[i as int]@);
        if ms[i].len() < 2 || ms[i][1].is_none() {
            return false;
        }
        i += 1;
    }
    true
}

/// The sheet rows a pattern finds in a file's bytes, or nothing when the
/// pattern does not compile or a match lacks its first group.
pub fn try_sheet_from_bytes(bytes: &[u8], pattern: &str) -> (r: Option<Vec<[String; 2]>>)
    ensures
        r is Some <==> sheet_searchable(bytes@, pattern@),
        r matches Some(v) ==> row_views(v@) == sheet_of(bytes@, pattern@),
{
    match crate::outside::bytes_regex_captures(pattern, bytes) {
        Some(ms) => if all_first_groups(&ms) {
            Some(sheet_from_bytes(bytes, pattern))
        } else {
            None
        },
        None => None,
    }
}

/// A file's rows in a folder's sheet: nothing when the file gave no row;
/// else a row naming the file (its path after the folder's, with an empty
/// second cell), then its rows.
pub open spec fn section_rows(
    dir: Seq<char>,
    root: Seq<char>,
    rows: Seq<(Seq<char>, Seq<char>)>,
) -> Seq<(Seq<char>, Seq<char>)> {
    if rows.len() == 0 {
        Seq::empty()
    } else {
        seq![(dir.skip(char_index_of(dir, crate::offsets::utf8_len(root) as int)), Seq::empty())] + rows
    }
}

/// The rows a file adds to a folder's sheet: a row naming the file by its
/// path after the folder's, then the file's own rows; nothing when the file
/// gave none.
pub fn file_sheet_section(dir: &str, root: &str, rows: Vec<[String; 2]>) -> (r: Vec<[String; 2]>)
    requires
        rows@.len() > 0 ==> is_char_offset(dir@, crate::offsets::utf8_len(root@) as int),
    ensures
        row_views(r@) == section_rows(dir@, root@, row_views(rows@)),
{
    if rows.len() == 0 {
        let r: Vec<[String; 2]> = Vec::new();
        assert(row_views(r@) =~= Seq::<(Seq<char>, Seq<char>)>::empty());
        return r;
    }
    let d = str_chars(dir);
    let k = char_index(&d, root.as_bytes().len());
    let rel = string_from_chars(&slice_chars(&d, k, d.len()));
    let ghost relv = rel@;
    let empty = String::new();
    let ghost ev = empty@;
    assert(ev =~= Seq::<char>::empty());
    let mut r: Vec<[String; 2]> = Vec::new();
    r.push([rel, empty]);
    let mut i: usize = 0;
    assert(row_views(r@) =~= seq![(relv, ev)]);
    while i < rows.len()
        invariant
            i <= rows@.len(),
            row_views(r@) == seq![(relv, ev)] + row_views(rows@).take(i as int),
        decreases rows@.len() - i,
    {
        let ghost before = row_views(r@);
        let a = string_from_chars(&str_chars(rows[i][0].as_str()));
        let b = string_from_chars(&str_chars(rows[i][1].as_str()));
        let ghost rv = (a@, b@);
        assert(rv == row_views(rows@)[i as int]);
        r.push([a, b]);
        assert(row_views(r@) =~= before.push(rv));
        assert(row_views(rows@).take(i + 1) =~= row_views(rows@).take(i as int).push(rv));
        i += 1;
    }
    assert(row_views(rows@).take(i as int) =~= row_views(rows@));
    assert(d@.skip(k as int) =~= d@.subrange(k as int, d@.len() as int));
    r
}

// ---------------------------------------------------------------- writing sheets

/// The header line of a translation sheet.
pub open spec fn sheet_header() -> Seq<char> {
    "الإزاحة بالعشري,النص الأصلي,الترجمة"@
}

/// A sheet row as a CSV line after a line break: the offset, then the text
/// in double quotes with its double quotes doubled.
pub open spec fn sheet_line(r: (Seq<char>, Seq<char>)) -> Seq<char> {
    seq!['\n'] + r.0 + seq![',', '"'] + crate::text::replace(r.1, seq!['"'], seq!['"', '"']) + seq!['"']
}

/// The text of a translation sheet: the header, then one line per row.
pub open spec fn sheet_text(rows: Seq<(Seq<char>, Seq<char>)>) -> Seq<char>
    decreases rows.len(),
{
    if rows.len() == 0 {
        sheet_header()
    } else {
        sheet_text(rows.drop_last()) + sheet_line(rows.last())
    }
}

/// Writes sheet rows as the CSV text of a translation sheet.
pub fn sheet_content(iter_2d: &Vec<[String; 2]>) -> (r: String)
    ensures
        r@ == sheet_text(row_views(iter_2d@)),
{
    let ghost rows = row_views(iter_2d@);
    let mut out = str_chars("الإزاحة بالعشري,النص الأصلي,الترجمة");
    let quote: Vec<char> = vec!['"'];
    let quotes: Vec<char> = vec!['"', '"'];
    assert(quote@ =~= seq!['"']);
    assert(quotes@ =~= seq!['"', '"']);
    let mut i: usize = 0;
    assert(rows.take(0) =~= Seq::<(Seq<char>, Seq<char>)>::empty());
    while i < iter_2d.len()
        invariant
            i <= iter_2d@.len(),
            rows == row_views(iter_2d@),
            quote@ == seq!['"'],
            quotes@ == seq!['"', '"'],
            out@ == sheet_text(rows.take(i as int)),
        decreases iter_2d@.len() - i,
    {
        let ghost before = out@;
        let a = str_chars(iter_2d[i][0].as_str());
        let b = str_chars(iter_2d[i][1].as_str());
        assert((a@, b@) == rows[i as int]);
        out.push('\n');
        push_all(&mut out, &a);
        out.push(',');
        out.push('"');
        push_all(&mut out, &crate::text::replace_chars(&b, &quote, &quotes));
        out.push('"');
        assert(out@ =~= before + sheet_line(rows[i as int]));
        assert(rows.take(i + 1).drop_last() =~= rows.take(i as int));
        i += 1;
    }
    assert(rows.take(i as int) =~= rows);
    string_from_chars(&out)
}

// ---------------------------------------------------------------- reading sheets

/// What a sheet's bytes read as CSV: its records, comma-separated, with no
/// header row and any number of fields each.
pub open spec fn sheet_records(content: Seq<u8>) -> Option<Seq<Seq<Seq<char>>>> {
    crate::outside::csv_records(content, 44)
}

/// Reads a translation sheet's CSV text into rows of fields.
pub fn read_csv(content: &[u8]) -> (r: Vec<Vec<String>>)
    requires
        sheet_records(content@) is Some,
    ensures
        Some(crate::outside::rows_view(r@)) == sheet_records(content@),
{
    match crate::outside::csv_read(content, 44) {
        Some(rows) => rows,
        None => Vec::new(),
    }
}

/// The rows of a CSV text, or nothing when a record cannot be read.
pub fn try_read_csv(content: &[u8]) -> (r: Option<Vec<Vec<String>>>)
    ensures
        r is Some <==> sheet_records(content@) is Some,
        r matches Some(v) ==> Some(crate::outside::rows_view(v@)) == sheet_records(content@),
{
    match crate::outside::csv_read(content, 44) {
        Some(_) => Some(read_csv(content)),
        None => None,
    }
}

// ---------------------------------------------------------------- entering

/// One row of a sheet put into a file's bytes, `g` being how many bytes
/// shorter the file has become so far: a row with an empty first cell or
/// fewer than three cells changes nothing; else the original text (second
/// cell) at the offset (first cell, moved back by `g`) is replaced by the
/// translation (third cell). Nothing when the row has no cell, the offset
/// does not read, the span falls outside the bytes, or the count leaves the
/// `isize` range.
pub open spec fn enter_step(bytes: Seq<u8>, g: int, row: Seq<Seq<char>>) -> Option<(Seq<u8>, int)> {
    if row.len() == 0 {
        None
    } else if row[0].len() == 0 || row.len() < 3 {
        Some((bytes, g))
    } else {
        match parsed_isize(row[0]) {
            Some(off) => {
                let a = off - g;
                let n1 = crate::offsets::utf8_len(row[1]) as int;
                let n2 = crate::offsets::utf8_len(row[2]) as int;
                if !(isize::MIN <= a <= isize::MAX) || a < 0 || a + n1 > bytes.len() || n1
                    > isize::MAX || n2 > isize::MAX || !(isize::MIN <= g + (n1 - n2)
                    <= isize::MAX) {
                    None
                } else {
                    Some(
                        (
                            bytes.subrange(0, a) + vstd::utf8::encode_utf8(row[2]) + bytes.subrange(
                                a + n1,
                                bytes.len() as int,
                            ),
                            g + (n1 - n2),
                        ),
                    )
                }
            },
            None => None,
        }
    }
}

/// The rows of a sheet after its header, up to row `n`, put into a file's
/// bytes one after another.
pub open spec fn entered_upto(bytes: Seq<u8>, rows: Seq<Seq<Seq<char>>>, n: int) -> Option<
    (Seq<u8>, int),
>
    decreases n,
{
    if n <= 1 {
        Some((bytes, 0))
    } else {
        match entered_upto(bytes, rows, n - 1) {
            Some((b, g)) => enter_step(b, g, rows[n - 1]),
            None => None,
        }
    }
}

/// A file's bytes with every row of a sheet after its header put in.
pub open spec fn entered(bytes: Seq<u8>, rows: Seq<Seq<Seq<char>>>) -> Option<Seq<u8>> {
    match entered_upto(bytes, rows, rows.len() as int) {
        Some((b, _)) => Some(b),
        None => None,
    }
}

/// Appends bytes.
fn append_bytes(dst: &mut Vec<u8>, src: &[u8])
    ensures
        final(dst)@ == old(dst)@ + src@,
{
    let mut i: usize = 0;
    while i < src.len()
        invariant
            i <= src@.len(),
            dst@ == old(dst)@ + src@.take(i as int),
        decreases src@.len() - i,
    {
        dst.push(src[i]);
        assert(src@.take(i + 1) =~= src@.take(i as int).push(src@[i as int]));
        i += 1;
    }
    assert(src@.take(i as int) =~= src@);
}

/// One row of a sheet put into a file's bytes.
pub fn enter_row(bytes: &Vec<u8>, g: isize, row: &Vec<String>) -> (r: Option<(Vec<u8>, isize)>)
    ensures
        r is Some <==> enter_step(bytes@, g as int, string_views(row@)) is Some,
        r matches Some(x) ==> enter_step(bytes@, g as int, string_views(row@)) == Some(
            (x.0@, x.1 as int),
        ),
{
    let ghost rv = string_views(row@);
    if row.len() == 0 {
        return None;
    }
    let first = str_chars(row[0].as_str());
    assert(rv[0] == first@);
    if first.len() == 0 || row.len() < 3 {
        let mut same: Vec<u8> = Vec::new();
        append_bytes(&mut same, bytes.as_slice());
        assert(same@ =~= bytes@);
        return Some((same, g));
    }
    assert(rv[1] == row@[1]@ && rv[2] == row@[2]@);
    let off = match crate::numbers::parse_isize(&first) {
        Some(v) => v,
        None => {
            return None;
        },
    };
    let a = match off.checked_sub(g) {
        Some(a) => a,
        None => {
            return None;
        },
    };
    let old_text = row[1].as_str().as_bytes();
    let new_text = row[2].as_str().as_bytes();
    let n1 = old_text.len();
    let n2 = new_text.len();
    if a < 0 || n1 > bytes.len() || (a as usize) > bytes.len() - n1 {
        return None;
    }
    if n1 > isize::MAX as usize || n2 > isize::MAX as usize {
        return None;
    }
    let d: isize = (n1 as isize) - (n2 as isize);
    let g2 = match g.checked_add(d) {
        Some(v) => v,
        None => {
            return None;
        },
    };
    let a = a as usize;
    let mut out: Vec<u8> = Vec::new();
    append_bytes(&mut out, vstd::slice::slice_subrange(bytes.as_slice(), 0, a));
    append_bytes(&mut out, new_text);
    append_bytes(&mut out, vstd::slice::slice_subrange(bytes.as_slice(), a + n1, bytes.len()));
    Some((out, g2))
}

/// Once putting rows in fails, it fails for every longer run.
pub proof fn lemma_entered_stay_failed(bytes: Seq<u8>, rows: Seq<Seq<Seq<char>>>, n: int, k: int)
    requires
        n <= k,
        entered_upto(bytes, rows, n) is None,
    ensures
        entered_upto(bytes, rows, k) is None,
    decreases k - n,
{
    if n < k {
        lemma_entered_stay_failed(bytes, rows, n, k - 1);
    }
}

/// The bytes with the rows put in, if they can be.
fn entered_exec(bytes: Vec<u8>, csv: &Vec<Vec<String>>) -> (r: Option<Vec<u8>>)
    ensures
        r is Some <==> entered(bytes@, crate::outside::rows_view(csv@)) is Some,
        r matches Some(b) ==> entered(bytes@, crate::outside::rows_view(csv@)) == Some(b@),
{
    let ghost rows = crate::outside::rows_view(csv@);
    let mut cur = bytes;
    let mut g: isize = 0;
    let mut i: usize = 1;
    if csv.len() <= 1 {
        return Some(cur);
    }
    while i < csv.len()
        invariant
            1 <= i <= csv@.len(),
            rows == crate::outside::rows_view(csv@),
            entered_upto(bytes@, rows, i as int) == Some((cur@, g as int)),
        decreases csv@.len() - i,
    {
        assert(rows[i as int] == string_views(csv@[i as int]@));
        match enter_row(&cur, g, &csv[i]) {
            Some((b, g2)) => {
                cur = b;
                g = g2;
            },
            None => {
                proof {
                    lemma_entered_stay_failed(bytes@, rows, i + 1, rows.len() as int);
                }
                return None;
            },
        }
        i += 1;
    }
    Some(cur)
}

/// Whether a sheet's rows can be put into the bytes.
pub open spec fn enterable(bytes: Seq<u8>, rows: Seq<Seq<Seq<char>>>) -> bool {
    entered(bytes, rows) is Some
}

/// Puts the translations of a sheet (after its header row) into a file's
/// bytes: each row's original text, at its byte offset, is replaced by its
/// translation, offsets moved by the change in length so far.
pub fn enter_rows(bytes: Vec<u8>, csv: &Vec<Vec<String>>) -> (r: Vec<u8>)
    requires
        enterable(bytes@, crate::outside::rows_view(csv@)),
    ensures
        entered(bytes@, crate::outside::rows_view(csv@)) == Some(r@),
{
    match entered_exec(bytes, csv) {
        Some(b) => b,
        None => Vec::new(),
    }
}

/// The bytes with the translations put in, or nothing when a row cannot be
/// put in.
pub fn try_enter_rows(bytes: Vec<u8>, csv: &Vec<Vec<String>>) -> (r: Option<Vec<u8>>)
    ensures
        r is Some <==> enterable(bytes@, crate::outside::rows_view(csv@)),
        r matches Some(b) ==> entered(bytes@, crate::outside::rows_view(csv@)) == Some(b@),
{
    entered_exec(bytes, csv)
}

/// What a row of a folder's sheet asks for.
pub enum FolderStep {
    /// Write the current file and go on with the file of this path.
    Open(String),
    /// Go on with these bytes and this shortening.
    Stay(Vec<u8>, isize),
}

/// A row of a folder's sheet names a file: its first cell starts with a
/// backslash (and a file is loaded).
pub open spec fn names_file(bytes: Seq<u8>, row: Seq<Seq<char>>) -> bool {
    row.len() >= 1 && row[0].len() > 0 && bytes.len() > 0 && row[0][0] == '\\'
}

/// One row of a folder's sheet, past its first two rows: nothing happens
/// for an empty first cell or when no file is loaded; a row naming a file
/// switches to it; any other row is put into the bytes.
pub open spec fn folder_step(bytes: Seq<u8>, g: int, row: Seq<Seq<char>>) -> Option<(Seq<u8>, int)> {
    if row.len() == 0 {
        None
    } else if row[0].len() == 0 || bytes.len() == 0 {
        Some((bytes, g))
    } else {
        enter_step(bytes, g, row)
    }
}

/// Decides what a row of a folder's sheet does to the loaded file.
pub fn enter_folder_row(bytes: &Vec<u8>, g: isize, row: &Vec<String>) -> (r: Option<FolderStep>)
    ensures
        r is None <==> (row@.len() == 0 || (!names_file(bytes@, string_views(row@)) && folder_step(
            bytes@,
            g as int,
            string_views(row@),
        ) is None)),
        r matches Some(FolderStep::Open(d)) ==> names_file(bytes@, string_views(row@)) && d@
            == row@[0]@,
        r matches Some(FolderStep::Stay(b, g2)) ==> !names_file(bytes@, string_views(row@))
            && folder_step(bytes@, g as int, string_views(row@)) == Some((b@, g2 as int)),
{
    let ghost rv = string_views(row@);
    if row.len() == 0 {
        return None;
    }
    let first = str_chars(row[0].as_str());
    assert(rv[0] == first@);
    if first.len() == 0 || bytes.len() == 0 {
        let mut same: Vec<u8> = Vec::new();
        append_bytes(&mut same, bytes.as_slice());
        assert(same@ =~= bytes@);
        return Some(FolderStep::Stay(same, g));
    }
    if first[0] == '\\' {
        return Some(FolderStep::Open(string_from_chars(&first)));
    }
    match enter_row(bytes, g, row) {
        Some((b, g2)) => Some(FolderStep::Stay(b, g2)),
        None => None,
    }
}

} // verus!
