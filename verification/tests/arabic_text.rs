use asgore_core::arabic::{
    compress_text, connect_harakat, del_harakat, freeze, keep_first_haraka, merge_harakat, offset_harakat,
    reverse_arabic, try_reverse_arabic, reverse_brackets, reverse_text, suggest_ligatures, uncompress_text, unfreeze,
};

#[test]
fn letters_take_their_joining_forms() {
    assert_eq!(freeze("\u{0628}\u{0628}"), "\u{FE91}\u{FE90}");
    assert_eq!(freeze("\u{0628}\u{0627}\u{0628}"), "\u{FE91}\u{FE8E}\u{FE8F}");
    assert_eq!(freeze("abc"), "abc");
}

#[test]
fn forms_go_back_to_letters() {
    assert_eq!(unfreeze("\u{FE91}\u{FE8E}\u{FE8F}"), "\u{0628}\u{0627}\u{0628}");
}

#[test]
fn freezing_then_unfreezing_gives_the_text_back() {
    let t = "\u{0645}\u{0631}\u{062D}\u{0628}\u{0627} \u{0628}\u{0627}\u{0644}\u{0639}\u{0627}\u{0644}\u{0645}";
    assert_eq!(unfreeze(&freeze(t)), t);
}

#[test]
fn ligatures_compressed_and_expanded() {
    assert_eq!(compress_text("\u{FEDF}\u{FE8E}", "\u{FEFB}"), "\u{FEFB}");
    assert_eq!(compress_text("\u{FEDF}\u{FE8E}", ""), "\u{FEDF}\u{FE8E}");
    assert_eq!(uncompress_text("\u{FEFB}"), "\u{FEDF}\u{FE8E}");
}

#[test]
fn ligatures_suggested_by_frequency() {
    let r = suggest_ligatures("abab", &vec![2], 2);
    assert_eq!(r, vec!["ab".to_string(), "ba".to_string()]);
    let one = suggest_ligatures("abab", &vec![2], 1);
    assert_eq!(one, vec!["ab".to_string()]);
}

#[test]
fn text_reversed() {
    assert_eq!(reverse_text("abc"), "cba");
    assert_eq!(reverse_text(&reverse_text("a\u{0628}c")), "a\u{0628}c");
}

#[test]
fn brackets_turned_around() {
    assert_eq!(reverse_brackets("(a[b]<c>)"), ")a]b[>c<(");
    assert_eq!(reverse_brackets("\0"), ")");
    let t = "{x} \u{300C}y\u{300D}";
    assert_eq!(reverse_brackets(&reverse_brackets(t)), t);
}

#[test]
fn arabic_runs_reversed() {
    assert_eq!(reverse_arabic("abc"), "abc");
    assert_eq!(reverse_arabic("\u{0645}\u{0631}\u{062D}\u{0628}\u{0627}"), "\u{0627}\u{0628}\u{062D}\u{0631}\u{0645}");
    assert_eq!(
        reverse_arabic("abc \u{0645}\u{0631}\u{062D}\u{0628}\u{0627}"),
        "\u{0627}\u{0628}\u{062D}\u{0631}\u{0645} abc"
    );
}

#[test]
fn marks_deleted() {
    assert_eq!(del_harakat("\u{0628}\u{064E}\u{062A}\u{064F}"), "\u{0628}\u{062A}");
    assert_eq!(del_harakat("\u{0628}\u{FE76}"), "\u{0628}");
}

#[test]
fn only_first_mark_kept() {
    assert_eq!(keep_first_haraka("\u{0628}\u{064E}\u{064F}\u{062A}"), "\u{0628}\u{064E}\u{062A}");
    assert_eq!(keep_first_haraka("\u{064E}\u{064F}"), "\u{064E}");
}

#[test]
fn marks_merged() {
    assert_eq!(merge_harakat("\u{0628}\u{0651}\u{064E}"), "\u{0628}\u{FC60}");
    assert_eq!(merge_harakat("\u{0628}"), "\u{0628}");
}

#[test]
fn marks_moved() {
    let t = "\u{0628}\u{064E}\u{062A}";
    assert_eq!(offset_harakat(t, 0), t);
    assert_eq!(offset_harakat(t, 1), "\u{0628}\u{062A}\u{064E}");
    assert_eq!(offset_harakat(t, 5), "\u{0628}\u{062A}\u{064E}");
    assert_eq!(offset_harakat(t, -5), "\u{064E}\u{0628}\u{062A}");
}

#[test]
fn marks_between_joined_letters_connected() {
    assert_eq!(connect_harakat("\u{0628}\u{064E}\u{0628}"), "\u{0628}\u{FE77}\u{0628}");
    assert_eq!(connect_harakat("\u{0628}\u{064E}"), "\u{0628}\u{064E}");
}

#[test]
fn marks_take_their_presentation_forms() {
    assert_eq!(freeze("\u{0628}\u{064E}"), "\u{FE8F}\u{FE76}");
    assert_eq!(freeze("\u{0628}\u{064E}\u{0628}"), "\u{FE91}\u{FE76}\u{FE90}");
    assert_eq!(unfreeze("\u{FE8F}\u{FE76}"), "\u{0628}\u{064E}");
}

#[test]
fn compressed_text_expands_back() {
    let text = "\u{FEDF}\u{FE8E} x \u{FEE0}\u{FE8E}\u{FEDF}\u{FE8E}";
    let packed = compress_text(text, "\u{FEFB}\u{FEFC}");
    assert_eq!(packed, "\u{FEFB} x \u{FEFC}\u{FEFB}");
    assert_eq!(uncompress_text(&packed), text);
}

#[test]
fn reversing_arabic_runs_through_the_pattern() {
    assert_eq!(try_reverse_arabic("abc"), Some("abc".to_string()));
    assert_eq!(
        try_reverse_arabic("x (\u{0628}\u{0627}) y"),
        Some(reverse_arabic("x (\u{0628}\u{0627}) y"))
    );
    assert_eq!(reverse_arabic("\u{0628}\u{0627} 12"), "12 \u{0627}\u{0628}");
}
