//! Font tables: reading the `.fnt` bitmap-font descriptions (text or XML)
//! and completing the presentation forms of Arabic letters.
use vstd::prelude::*;
use crate::maps::{FontMap, has_key, insert_entry, copy_key, complete_forms};
use crate::numbers::{parsed_u32, parsed_isize, parse_u32, parse_isize};
use crate::offsets::{span_text, span_chars};
use crate::outside::{regex_captures, regex_search, group_views, well_placed, char_from_u32};
use crate::tables::{spec_presentation_forms, presentation_forms, shaped_letters, shaped_letter_list};
use crate::text::{str_chars, starts_with, ends_with, chars_ends_with};

verus! {

// ---------------------------------------------------------------- completing

/// Gives `to` the metrics that `from` has.
fn copy_metrics(m: &mut FontMap, to: char, from: char)
    requires
        has_key(old(m)@, from),
    ensures
        final(m)@ == copy_key(old(m)@, to, from),
        forall|k: char| has_key(final(m)@, k) <==> (k == to || has_key(old(m)@, k)),
{
    proof {
        use_type_invariant(&*m);
    }
    let v = match m.get(from) {
        Some(v) => v,
        None => [0isize; 8],
    };
    proof {
        crate::maps::lemma_insert_entry(m@, to, v@);
    }
    m.insert(to, v);
}

/// Fills in the missing presentation forms of one letter.
fn complete_font_group(m: &mut FontMap, f: (char, char, char, char))
    ensures
        final(m)@ == complete_forms(old(m)@, f.0, f.1, f.2, f.3),
{
    let v0 = m.contains_key(f.0);
    let v1 = m.contains_key(f.1);
    let v2 = m.contains_key(f.2);
    let v3 = m.contains_key(f.3);
    if (v0 && v1 && v2 && v3) || !(v0 || v1 || v2 || v3) {
        return;
    }
    if !v1 && v0 {
        copy_metrics(m, f.1, f.0);
    } else if !v0 && v1 {
        copy_metrics(m, f.0, f.1);
    }
    let ghost m1 = m@;
    let v1a = v1 || v0;
    let v0a = v0 || v1;
    assert(v0a ==> has_key(m1, f.0));
    assert(v1a ==> has_key(m1, f.1));
    assert(v2 ==> has_key(m1, f.2));
    assert(v3 ==> has_key(m1, f.3));
    if !v3 && v2 {
        copy_metrics(m, f.3, f.2);
    } else if !v2 && v3 {
        copy_metrics(m, f.2, f.3);
    }
    let ghost m2 = m@;
    let v3a = v3 || v2;
    let v2a = v2 || v3;
    assert(v0a ==> has_key(m2, f.0));
    assert(v1a ==> has_key(m2, f.1));
    assert(v2a ==> has_key(m2, f.2));
    assert(v3a ==> has_key(m2, f.3));
    if !v1a && v2a {
        copy_metrics(m, f.1, f.2);
    } else if !v2a && v1a {
        copy_metrics(m, f.2, f.1);
    }
    let ghost m3 = m@;
    assert(v0a ==> has_key(m3, f.0));
    assert(v3a ==> has_key(m3, f.3));
    if !v0a && v3a {
        copy_metrics(m, f.0, f.3);
    } else if !v3a && v0a {
        copy_metrics(m, f.3, f.0);
    }
}

/// Missing presentation forms filled in, letter by letter in table order,
/// for the first `n` letters.
pub open spec fn font_completed_upto(m: Seq<(char, Seq<isize>)>, n: int) -> Seq<(char, Seq<isize>)>
    decreases n,
{
    if n <= 0 {
        m
    } else {
        let before = font_completed_upto(m, n - 1);
        match spec_presentation_forms(shaped_letters()[n - 1]) {
            Some(f) => complete_forms(before, f.0, f.1, f.2, f.3),
            None => before,
        }
    }
}

/// Missing presentation forms filled in for every letter.
pub open spec fn font_completed(m: Seq<(char, Seq<isize>)>) -> Seq<(char, Seq<isize>)> {
    font_completed_upto(m, shaped_letters().len() as int)
}

/// Fills in the glyphs of presentation forms a font lacks from those of the
/// same letter it has.
pub fn complete_arabic_font(fontmap: FontMap) -> (r: FontMap)
    ensures
        r@ == font_completed(fontmap@),
{
    let mut m = fontmap;
    let letters = shaped_letter_list();
    let mut i: usize = 0;
    while i < letters.len()
        invariant
            letters@ == shaped_letters(),
            i <= letters@.len(),
            m@ == font_completed_upto(fontmap@, i as int),
        decreases letters@.len() - i,
    {
        match presentation_forms(letters[i]) {
            Some(f) => complete_font_group(&mut m, f),
            None => {},
        }
        i += 1;
    }
    m
}

// ---------------------------------------------------------------- reading .fnt

/// How an XML `.fnt` file begins.
pub open spec fn xml_prolog() -> Seq<char> {
    "<?xml version=\"1.0\"?>"@
}

/// The pattern of a glyph line in an XML `.fnt` file.
pub open spec fn fnt_xml_pattern() -> Seq<char> {
    "<char id=\"(.*?)\" x=\"(.*?)\" y=\"(.*?)\" width=\"(.*?)\" height=\"(.*?)\" xoffset=\"(.*?)\" yoffset=\"(.*?)\" xadvance=\"(.*?)\" page=\"(.*?)\""@
}

/// The pattern of a glyph line in a text `.fnt` file.
pub open spec fn fnt_text_pattern() -> Seq<char> {
    "char id=(-?\\d+) *?x=(-?\\d+) *?y=(-?\\d+) *?width=(-?\\d+) *?height=(-?\\d+) *?xoffset=(-?\\d+) *?yoffset=(-?\\d+) *?xadvance=(-?\\d+) *?page=(-?\\d+)"@
}

/// The glyph-line pattern for a `.fnt` file's text: the XML one when the
/// text begins with the XML prolog.
pub open spec fn fnt_pattern(t: Seq<char>) -> Seq<char> {
    if starts_with(t, xml_prolog()) {
        fnt_xml_pattern()
    } else {
        fnt_text_pattern()
    }
}

/// The text of capture group `g` of a match.
pub open spec fn field(t: Seq<char>, m: Seq<Option<(usize, usize)>>, g: int) -> Seq<char> {
    span_text(t, m[g].unwrap())
}

/// The eight metrics of a glyph line (groups 2 to 9), when each is there
/// and reads as an `isize`.
pub open spec fn line_metrics(t: Seq<char>, m: Seq<Option<(usize, usize)>>) -> Option<Seq<isize>> {
    if m.len() < 10 || exists|g: int| 1 <= g < 10 && #[trigger] m[g] is None {
        None
    } else {
        match (
            parsed_isize(field(t, m, 2)),
            parsed_isize(field(t, m, 3)),
            parsed_isize(field(t, m, 4)),
            parsed_isize(field(t, m, 5)),
            parsed_isize(field(t, m, 6)),
            parsed_isize(field(t, m, 7)),
            parsed_isize(field(t, m, 8)),
            parsed_isize(field(t, m, 9)),
        ) {
            (Some(a), Some(b), Some(c), Some(d), Some(e), Some(f), Some(g), Some(h)) => Some(
                seq![a, b, c, d, e, f, g, h],
            ),
            _ => None,
        }
    }
}

/// The glyph a line describes: the character whose code group 1 holds, and
/// its metrics; nothing when a field does not read or the code is no
/// character.
pub open spec fn glyph_line(t: Seq<char>, m: Seq<Option<(usize, usize)>>) -> Option<(char, Seq<isize>)> {
    match line_metrics(t, m) {
        Some(v) => match parsed_u32(field(t, m, 1)) {
            Some(code) => if code <= 0x10FFFF && !(0xD800 <= code <= 0xDFFF) {
                Some((code as char, v))
            } else {
                None
            },
            None => None,
        },
        None => None,
    }
}

/// The glyphs of the first `n` lines, in turn, with the greatest height
/// among them (at least 0); nothing when a line does not read.
pub open spec fn glyphs_upto(t: Seq<char>, ms: Seq<Seq<Option<(usize, usize)>>>, n: int) -> Option<
    (Seq<(char, Seq<isize>)>, isize),
>
    decreases n,
{
    if n <= 0 {
        Some((Seq::empty(), 0))
    } else {
        match glyphs_upto(t, ms, n - 1) {
            Some((m, tallest)) => match glyph_line(t, ms[n - 1]) {
                Some((c, v)) => Some(
                    (
                        insert_entry(m, c, v),
                        if v[3] > tallest {
                            v[3]
                        } else {
                            tallest
                        },
                    ),
                ),
                None => None,
            },
            None => None,
        }
    }
}

/// The metrics stored under U+0000: the line height, then zeros.
pub open spec fn height_entry(tallest: isize) -> Seq<isize> {
    seq![tallest, 0, 0, 0, 0, 0, 0, 0]
}

/// The font table that the glyph lines found give: every glyph, then U+0000
/// holding the greatest height; nothing when a line does not read.
pub open spec fn font_of_lines(t: Seq<char>, ms: Seq<Seq<Option<(usize, usize)>>>) -> Option<
    Seq<(char, Seq<isize>)>,
> {
    match glyphs_upto(t, ms, ms.len() as int) {
        Some((m, tallest)) => Some(insert_entry(m, '\0', height_entry(tallest))),
        None => None,
    }
}

/// The spans of groups 1 to 9 are there and lie on character boundaries.
pub open spec fn fields_placed(t: Seq<char>, m: Seq<Option<(usize, usize)>>) -> bool {
    &&& m.len() >= 10
    &&& forall|g: int| 1 <= g < 10 ==> #[trigger] m[g] is Some
    &&& forall|g: int|
        1 <= g < 10 ==> (#[trigger] m[g]).unwrap().0 <= m[g].unwrap().1
            && crate::offsets::is_char_offset(t, m[g].unwrap().0 as int)
            && crate::offsets::is_char_offset(t, m[g].unwrap().1 as int)
}

/// The text of capture group `g`.
fn field_exec(t: &Vec<char>, m: &Vec<Option<(usize, usize)>>, g: usize) -> (r: Vec<char>)
    requires
        fields_placed(t@, m@),
        1 <= g < 10,
    ensures
        r@ == field(t@, m@, g as int),
{
    assert(m@[g as int] is Some);
    let sp = match m[g] {
        Some(sp) => sp,
        None => (0, 0),
    };
    span_chars(t, sp)
}

/// Capture group `g` read as an `isize`.
fn read_isize(t: &Vec<char>, m: &Vec<Option<(usize, usize)>>, g: usize) -> (r: Option<isize>)
    requires
        fields_placed(t@, m@),
        1 <= g < 10,
    ensures
        r == parsed_isize(field(t@, m@, g as int)),
{
    parse_isize(&field_exec(t, m, g))
}

/// The glyph a line describes.
fn read_glyph(t: &Vec<char>, m: &Vec<Option<(usize, usize)>>) -> (r: Option<(char, [isize; 8])>)
    requires
        fields_placed(t@, m@),
    ensures
        r is Some <==> glyph_line(t@, m@) is Some,
        r matches Some(x) ==> glyph_line(t@, m@) == Some((x.0, x.1@)),
{
    assert(!(exists|g: int| 1 <= g < 10 && #[trigger] m@[g] is None));
    let a = read_isize(t, m, 2);
    let b = read_isize(t, m, 3);
    let c = read_isize(t, m, 4);
    let d = read_isize(t, m, 5);
    let e = read_isize(t, m, 6);
    let f = read_isize(t, m, 7);
    let g = read_isize(t, m, 8);
    let h = read_isize(t, m, 9);
    match (a, b, c, d, e, f, g, h) {
        (Some(a), Some(b), Some(c), Some(d), Some(e), Some(f), Some(g), Some(h)) => {
            let v: [isize; 8] = [a, b, c, d, e, f, g, h];
            assert(v@ =~= seq![a, b, c, d, e, f, g, h]);
            let code = match parse_u32(&field_exec(t, m, 1)) {
                Some(code) => code,
                None => {
                    return None;
                },
            };
            match char_from_u32(code) {
                Some(ch) => {
                    proof {
                        vstd::utf8::char_u32_cast(ch, code);
                    }
                    Some((ch, v))
                },
                None => None,
            }
        },
        _ => None,
    }
}

/// Once a line does not read, no later count of lines reads.
pub proof fn lemma_glyphs_stay_unread(
    t: Seq<char>,
    ms: Seq<Seq<Option<(usize, usize)>>>,
    n: int,
    k: int,
)
    requires
        n <= k,
        glyphs_upto(t, ms, n) is None,
    ensures
        glyphs_upto(t, ms, k) is None,
    decreases k - n,
{
    if n < k {
        lemma_glyphs_stay_unread(t, ms, n, k - 1);
    }
}

/// Builds a font table from the glyph lines that a `.fnt` pattern found in
/// its text: each glyph in turn, then U+0000 holding the greatest glyph
/// height; nothing when a line lacks a field, a field does not read as a
/// number, or a code is no character.
pub fn font_from_lines(content: &str, ms: &Vec<Vec<Option<(usize, usize)>>>) -> (r: Option<FontMap>)
    requires
        well_placed(content@, group_views(ms@)),
    ensures
        r is Some <==> font_of_lines(content@, group_views(ms@)) is Some,
        r matches Some(m) ==> font_of_lines(content@, group_views(ms@)) == Some(m@),
{
    let t = str_chars(content);
    let ghost msv = group_views(ms@);
    let mut m = FontMap::new();
    let mut tallest: isize = 0;
    let mut i: usize = 0;
    while i < ms.len()
        invariant
            t@ == content@,
            msv == group_views(ms@),
            well_placed(t@, msv),
            i <= ms@.len(),
            glyphs_upto(t@, msv, i as int) == Some((m@, tallest)),
        decreases ms@.len() - i,
    {
        let row = &ms[i];
        assert(msv[i as int] == row@);
        let ok = check_fields(row);
        if !ok {
            assert(glyph_line(t@, row@) is None);
            proof {
                lemma_glyphs_stay_unread(t@, msv, i + 1, msv.len() as int);
            }
            return None;
        }
        assert forall|k: int|
            1 <= k < 10 implies (#[trigger] row@[k]).unwrap().0 <= row@[k].unwrap().1
            && crate::offsets::is_char_offset(t@, row@[k].unwrap().0 as int)
            && crate::offsets::is_char_offset(t@, row@[k].unwrap().1 as int) by {
            assert(msv[i as int][k] is Some);
        }
        match read_glyph(&t, row) {
            Some((c, metrics)) => {
                m.insert(c, metrics);
                if metrics[3] > tallest {
                    tallest = metrics[3];
                }
            },
            None => {
                proof {
                    lemma_glyphs_stay_unread(t@, msv, i + 1, msv.len() as int);
                }
                return None;
            },
        }
        i += 1;
    }
    m.insert('\0', [tallest, 0, 0, 0, 0, 0, 0, 0]);
    assert([tallest, 0isize, 0isize, 0isize, 0isize, 0isize, 0isize, 0isize]@ =~= height_entry(tallest));
    Some(m)
}

/// Whether a line has groups 1 to 9.
fn check_fields(row: &Vec<Option<(usize, usize)>>) -> (b: bool)
    ensures
        b <==> (row@.len() >= 10 && forall|g: int| 1 <= g < 10 ==> #[trigger] row@[g] is Some),
{
    if row.len() < 10 {
        return false;
    }
    let mut g: usize = 1;
    while g < 10
        invariant
            1 <= g <= 10,
            row@.len() >= 10,
            forall|k: int| 1 <= k < g ==> #[trigger] row@[k] is Some,
        decreases 10 - g,
    {
        if row[g].is_none() {
            return false;
        }
        g += 1;
    }
    true
}

/// The glyph lines that the `.fnt` pattern for the text finds.
fn fnt_lines(content: &str) -> (r: Option<Vec<Vec<Option<(usize, usize)>>>>)
    ensures
        r is Some <==> regex_search(fnt_pattern(content@), content@) is Some,
        r matches Some(v) ==> regex_search(fnt_pattern(content@), content@) == Some(group_views(v@))
            && well_placed(content@, group_views(v@)),
{
    let prolog = str_chars("<?xml version=\"1.0\"?>");
    let t = str_chars(content);
    let xml = prolog.len() <= t.len() && crate::text::chars_match_at(&t, &prolog, 0);
    assert(xml == starts_with(content@, xml_prolog()));
    if xml {
        regex_captures(
            "<char id=\"(.*?)\" x=\"(.*?)\" y=\"(.*?)\" width=\"(.*?)\" height=\"(.*?)\" xoffset=\"(.*?)\" yoffset=\"(.*?)\" xadvance=\"(.*?)\" page=\"(.*?)\"",
            content,
        )
    } else {
        regex_captures(
            "char id=(-?\\d+) *?x=(-?\\d+) *?y=(-?\\d+) *?width=(-?\\d+) *?height=(-?\\d+) *?xoffset=(-?\\d+) *?yoffset=(-?\\d+) *?xadvance=(-?\\d+) *?page=(-?\\d+)",
            content,
        )
    }
}

/// A `.fnt` text can be read: its pattern compiles and every glyph line it
/// finds reads.
pub open spec fn fnt_readable(t: Seq<char>) -> bool {
    regex_search(fnt_pattern(t), t) matches Some(ms) && font_of_lines(t, ms) is Some
}

/// The font table a readable `.fnt` text describes.
pub open spec fn fnt_font(t: Seq<char>) -> Seq<(char, Seq<isize>)> {
    font_of_lines(t, regex_search(fnt_pattern(t), t).unwrap()).unwrap()
}

/// Reads a font table from the text of a `.fnt` file, in its text or XML
/// form.
pub fn load_fnt(content: &str) -> (r: FontMap)
    requires
        fnt_readable(content@),
    ensures
        r@ == fnt_font(content@),
{
    match fnt_lines(content) {
        Some(ms) => match font_from_lines(content, &ms) {
            Some(m) => m,
            None => FontMap::new(),
        },
        None => FontMap::new(),
    }
}

/// The font table a `.fnt` text describes, or nothing when it cannot be
/// read.
pub fn try_load_fnt(content: &str) -> (r: Option<FontMap>)
    ensures
        r is Some <==> fnt_readable(content@),
        r matches Some(m) ==> m@ == fnt_font(content@),
{
    match fnt_lines(content) {
        Some(ms) => match font_from_lines(content, &ms) {
            Some(_) => Some(load_fnt(content)),
            None => None,
        },
        None => None,
    }
}

/// The file name names a `.fnt` file.
pub open spec fn is_fnt_name(path: Seq<char>) -> bool {
    ends_with(path, seq!['.', 'f', 'n', 't'])
}

/// What a font file holds: nothing for an empty file or a name other than
/// `.fnt`; the table it describes, completed when asked, when it reads.
pub open spec fn font_table_from(path: Seq<char>, content: Seq<char>, complete_ar: bool) -> Option<
    Seq<(char, Seq<isize>)>,
> {
    if content.len() == 0 || !is_fnt_name(path) {
        Some(Seq::empty())
    } else if fnt_readable(content) {
        Some(
            if complete_ar {
                font_completed(fnt_font(content))
            } else {
                fnt_font(content)
            },
        )
    } else {
        None
    }
}

/// Reads the font table that a file of the given name holds, the missing
/// presentation forms filled in when `complete_ar` is set; nothing when a
/// `.fnt` text cannot be read.
pub fn font_table(path: &str, content: &str, complete_ar: bool) -> (r: Option<FontMap>)
    ensures
        r is Some <==> font_table_from(path@, content@, complete_ar) is Some,
        r matches Some(m) ==> font_table_from(path@, content@, complete_ar) == Some(m@),
{
    let fnt: Vec<char> = vec!['.', 'f', 'n', 't'];
    assert(fnt@ =~= seq!['.', 'f', 'n', 't']);
    if str_chars(content).len() == 0 || !chars_ends_with(&str_chars(path), &fnt) {
        return Some(FontMap::new());
    }
    match try_load_fnt(content) {
        Some(m) => Some(
            if complete_ar {
                complete_arabic_font(m)
            } else {
                m
            },
        ),
        None => None,
    }
}

} // verus!
