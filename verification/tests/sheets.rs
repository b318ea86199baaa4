use asgore_core::sheet::{
    enter_folder_row, enter_rows, file_sheet_section, read_csv, sheet_content, sheet_from_bytes, split_keep,
    string_from_text_vector, text_vector_from_string, try_enter_rows, try_read_csv, try_sheet_from_bytes,
    FolderStep,
};

fn strings(v: &[&str]) -> Vec<String> {
    v.iter().map(|s| s.to_string()).collect()
}

fn row(a: &str, b: &str) -> [String; 2] {
    [a.to_string(), b.to_string()]
}

const SHEET_HEAD: &str = "\u{0627}\u{0644}\u{0625}\u{0632}\u{0627}\u{062D}\u{0629} \u{0628}\u{0627}\u{0644}\u{0639}\u{0634}\u{0631}\u{064A},\u{0627}\u{0644}\u{0646}\u{0635} \u{0627}\u{0644}\u{0623}\u{0635}\u{0644}\u{064A},\u{0627}\u{0644}\u{062A}\u{0631}\u{062C}\u{0645}\u{0629}";

#[test]
fn matches_kept_as_pieces() {
    assert_eq!(split_keep("a[x]b", "\\[x\\]"), strings(&["a", "[x]", "b"]));
    assert_eq!(split_keep("[x]", "\\[x\\]"), strings(&["", "[x]", ""]));
    assert_eq!(split_keep("abc", "("), strings(&["abc"]));
    assert!(split_keep("", "x").is_empty());
}

#[test]
fn pieces_join_back() {
    let t = "a[x]b[yy]c";
    assert_eq!(split_keep(t, "\\[.*?\\]").concat(), t);
}

#[test]
fn text_vector_built() {
    let v = text_vector_from_string("a<l>b[c]<p>d", "<p>", "<l>", "\\[c\\]");
    assert_eq!(
        v,
        vec![vec![strings(&["a"]), strings(&["b", "[c]", ""])], vec![strings(&["d"])]]
    );
}

#[test]
fn text_vector_joins_back() {
    let t = "a<l>b[c]<p><l>d";
    let v = text_vector_from_string(t, "<p>", "<l>", "\\[c\\]");
    assert_eq!(string_from_text_vector(&v, "<p>", "<l>"), t);
}

#[test]
fn strings_pulled_from_bytes() {
    let bytes = b"xx\"hi\"yy\"yo\"";
    let rows = sheet_from_bytes(bytes, "\"([a-z]+)\"");
    assert_eq!(rows, vec![row("3", "hi"), row("9", "yo")]);
}

#[test]
fn invalid_utf8_replaced() {
    let bytes = b"\"\xff\"";
    let rows = try_sheet_from_bytes(bytes, "(?-u)\"(.)\"").unwrap();
    assert_eq!(rows, vec![row("1", "\u{FFFD}")]);
}

#[test]
fn unsearchable_bytes_refused() {
    assert!(try_sheet_from_bytes(b"abc", "(").is_none());
    assert!(try_sheet_from_bytes(b"abc", "b").is_none());
    assert_eq!(try_sheet_from_bytes(b"abc", "(z)"), Some(vec![]));
}

#[test]
fn folder_section_names_the_file() {
    let rows = vec![row("3", "hi")];
    assert_eq!(
        file_sheet_section("root/dir/f.bin", "root", rows),
        vec![row("/dir/f.bin", ""), row("3", "hi")]
    );
    assert!(file_sheet_section("root/f.bin", "root", vec![]).is_empty());
}

#[test]
fn sheet_written_as_csv() {
    let rows = vec![row("3", "say \"hi\""), row("9", "a,b")];
    assert_eq!(
        sheet_content(&rows),
        format!("{}\n3,\"say \"\"hi\"\"\"\n9,\"a,b\"", SHEET_HEAD)
    );
    assert_eq!(sheet_content(&vec![]), SHEET_HEAD);
}

#[test]
fn csv_read() {
    let rows = read_csv(b"a,b\n1,\"x,y\",z\n");
    assert_eq!(rows, vec![strings(&["a", "b"]), strings(&["1", "x,y", "z"])]);
    assert_eq!(try_read_csv(b""), Some(vec![]));
}

#[test]
fn translations_entered() {
    let csv = vec![strings(&["h"]), strings(&["6", "world", "there!"])];
    assert_eq!(enter_rows(b"hello world".to_vec(), &csv), b"hello there!".to_vec());
}

#[test]
fn offsets_move_with_earlier_changes() {
    let csv = vec![strings(&["h"]), strings(&["0", "hello", "hi"]), strings(&["6", "world", "you"])];
    assert_eq!(enter_rows(b"hello world".to_vec(), &csv), b"hi you".to_vec());
}

#[test]
fn short_rows_passed_over() {
    let csv = vec![strings(&["h"]), strings(&["6", "world"]), strings(&["", "a", "b"])];
    assert_eq!(try_enter_rows(b"hello world".to_vec(), &csv), Some(b"hello world".to_vec()));
}

#[test]
fn bad_rows_refused() {
    let bad_offset = vec![strings(&["h"]), strings(&["x", "a", "b"])];
    assert_eq!(try_enter_rows(b"abc".to_vec(), &bad_offset), None);
    let past_end = vec![strings(&["h"]), strings(&["2", "abc", "b"])];
    assert_eq!(try_enter_rows(b"abc".to_vec(), &past_end), None);
    let empty_row = vec![strings(&["h"]), vec![]];
    assert_eq!(try_enter_rows(b"abc".to_vec(), &empty_row), None);
}

#[test]
fn folder_rows() {
    match enter_folder_row(&b"abc".to_vec(), 0, &strings(&["\\dir\\f.bin"])) {
        Some(FolderStep::Open(d)) => assert_eq!(d, "\\dir\\f.bin"),
        _ => panic!("expected a file switch"),
    }
    match enter_folder_row(&b"abc".to_vec(), 0, &strings(&["1", "b", "xy"])) {
        Some(FolderStep::Stay(b, g)) => {
            assert_eq!(b, b"axyc".to_vec());
            assert_eq!(g, -1);
        },
        _ => panic!("expected an edit"),
    }
    match enter_folder_row(&Vec::new(), 3, &strings(&["\\f"])) {
        Some(FolderStep::Stay(b, g)) => {
            assert!(b.is_empty());
            assert_eq!(g, 3);
        },
        _ => panic!("expected nothing to happen"),
    }
    assert!(enter_folder_row(&b"abc".to_vec(), 0, &vec![]).is_none());
}

#[test]
fn untranslated_sheet_changes_nothing() {
    let bytes = b"ab\"hi\"cd\"yo\"".to_vec();
    let rows = sheet_from_bytes(&bytes, "\"([a-z]+)\"");
    let mut csv = vec![strings(&["header"])];
    for r in &rows {
        csv.push(vec![r[0].clone(), r[1].clone(), r[1].clone()]);
    }
    assert_eq!(enter_rows(bytes.clone(), &csv), bytes);
}
