use infekt::{cpp_char_vector_to_utf8_string, decode, detect, encode_cp437};
use infekt::{Charset, DecodeError, NfoData};

fn loaded(bytes: &[u8]) -> NfoData {
    let mut nfo = NfoData::new();
    nfo.load_from_bytes("releases/demo.nfo", bytes);
    nfo
}

fn row_text(nfo: &NfoData, row: usize) -> String {
    let grid = nfo.get_renderer_grid().unwrap();
    (0..grid.get_cols()).map(|c| grid.get_char(row, c).unwrap()).collect()
}

#[test]
fn load_hello_world_utf8() {
    let nfo = loaded(b"Hello\nWorld\n");
    assert!(nfo.is_loaded());
    assert_eq!(nfo.get_charset_name(), "UTF-8");
    assert_eq!(nfo.get_classic_text(), "Hello\nWorld\n");
    let grid = nfo.get_renderer_grid().unwrap();
    assert_eq!(grid.get_rows(), 2);
    assert_eq!(grid.get_cols(), 5);
    assert_eq!(row_text(&nfo, 0), "Hello");
    assert_eq!(row_text(&nfo, 1), "World");
    assert!(!nfo.has_blocks());
    assert_eq!(nfo.get_stripped_text(), nfo.get_classic_text());
}

#[test]
fn load_cp437_rule_then_prose() {
    let mut bytes = vec![0xC4u8; 80];
    bytes.extend_from_slice(b"\nThis is the prose line\n");
    let nfo = loaded(&bytes);
    assert_eq!(nfo.get_charset_name(), "CP 437");
    let rule: String = std::iter::repeat('\u{2500}').take(80).collect();
    assert_eq!(nfo.get_classic_text(), format!("{}\nThis is the prose line\n", rule));
    assert!(nfo.has_blocks());
    assert_eq!(nfo.get_stripped_text(), "This is the prose line\n");
    let grid = nfo.get_renderer_grid().unwrap();
    assert_eq!(grid.get_rows(), 2);
    assert_eq!(grid.get_cols(), 80);
}

#[test]
fn load_empty_bytes() {
    let nfo = loaded(b"");
    assert!(nfo.is_loaded());
    assert_eq!(nfo.get_charset_name(), "UTF-8");
    assert_eq!(nfo.get_classic_text(), "");
    assert_eq!(nfo.get_stripped_text(), "");
    assert_eq!(nfo.get_classic_html(), "");
    assert!(!nfo.has_blocks());
    let grid = nfo.get_renderer_grid().unwrap();
    assert_eq!(grid.get_rows(), 0);
    assert_eq!(grid.get_cols(), 0);
}

#[test]
fn unloaded_document_defaults() {
    let nfo = NfoData::new();
    assert!(!nfo.is_loaded());
    assert!(!nfo.has_blocks());
    assert_eq!(nfo.get_charset_name(), "(none)");
    assert_eq!(nfo.get_classic_text(), "");
    assert_eq!(nfo.get_stripped_text(), "");
    assert_eq!(nfo.get_classic_html(), "");
    assert!(nfo.get_renderer_grid().is_none());
    assert!(nfo.get_file_path().is_none());
    assert!(nfo.get_file_name().is_none());
    let d = NfoData::default();
    assert!(!d.is_loaded());
}

#[test]
fn file_path_and_name() {
    let nfo = loaded(b"x");
    assert_eq!(nfo.get_file_path(), Some("releases/demo.nfo"));
    assert_eq!(nfo.get_file_name(), Some("demo.nfo".to_string()));
    let mut bare = NfoData::new();
    bare.load_from_bytes("plain.nfo", b"x");
    assert_eq!(bare.get_file_name(), Some("plain.nfo".to_string()));
}

#[test]
fn reload_replaces_everything() {
    let mut nfo = loaded(&[0xDB, 0xDB, 0xDB, 0xDB, b'\n']);
    assert!(nfo.has_blocks());
    nfo.load_from_bytes("other.nfo", b"just words\n");
    assert!(!nfo.has_blocks());
    assert_eq!(nfo.get_classic_text(), "just words\n");
    assert_eq!(nfo.get_charset_name(), "UTF-8");
    assert_eq!(nfo.get_file_name(), Some("other.nfo".to_string()));
}

#[test]
fn cp437_round_trip_all_bytes() {
    let bytes: Vec<u8> = (0..=255u8).collect();
    let glyphs = decode(&bytes, Charset::Cp437).unwrap();
    assert_eq!(glyphs.len(), 256);
    assert_eq!(glyphs[0xC9], '\u{2554}');
    assert_eq!(glyphs[0xB0], '\u{2591}');
    assert_eq!(glyphs[0x80], '\u{C7}');
    let distinct: std::collections::HashSet<char> = glyphs.iter().copied().collect();
    assert_eq!(distinct.len(), 256);
    assert!(!glyphs.contains(&'\u{FFFD}'));
    assert_eq!(encode_cp437(&glyphs), Some(bytes));
    assert_eq!(encode_cp437(&vec!['a', '\u{20AC}']), None);
}

#[test]
fn strip_is_idempotent() {
    let bytes = "\u{2554}\u{2550}\u{2550}\u{2557}\nTitle\n\u{2551}  \u{2551}\n\nBody text\n\u{255A}\u{2550}\u{2550}\u{255D}\n"
        .as_bytes()
        .to_vec();
    let first = loaded(&bytes);
    let once = first.get_stripped_text();
    assert_eq!(once, "Title\n\nBody text\n");
    let second = loaded(once.as_bytes());
    assert_eq!(second.get_stripped_text(), once);
}

#[test]
fn strip_collapses_blank_lines() {
    let text = "a\n\u{2550}\u{2550}\u{2550}\n\n\u{2550}\u{2550}\u{2550}\n\nb\n";
    let nfo = loaded(text.as_bytes());
    assert_eq!(nfo.get_stripped_text(), "a\n\nb\n");
}

#[test]
fn grid_pads_ragged_rows() {
    let nfo = loaded(b"ab\nabcd\r\n\nc");
    let grid = nfo.get_renderer_grid().unwrap();
    assert_eq!(grid.get_rows(), 4);
    assert_eq!(grid.get_cols(), 4);
    assert_eq!(row_text(&nfo, 0), "ab  ");
    assert_eq!(row_text(&nfo, 1), "abcd");
    assert_eq!(row_text(&nfo, 2), "    ");
    assert_eq!(row_text(&nfo, 3), "c   ");
    assert_eq!(grid.get_char(4, 0), None);
    assert_eq!(grid.get_char(0, 4), None);
}

#[test]
fn prose_has_no_blocks() {
    let nfo = loaded(b"Release notes\nGroup: someone\n---- ==== ****\n");
    assert!(!nfo.has_blocks());
}

#[test]
fn short_runs_are_no_blocks() {
    let nfo = loaded("\u{2588}\u{2588}\u{2588} x\n".as_bytes());
    assert!(!nfo.has_blocks());
    assert_eq!(nfo.get_stripped_text(), "\u{2588}\u{2588}\u{2588} x\n");
}

#[test]
fn vertical_run_is_a_block() {
    let nfo = loaded("a\u{2551}\nb\u{2551}\nc\u{2551}\nd\u{2551}\n".as_bytes());
    assert!(nfo.has_blocks());
    let three = loaded("a\u{2551}\nb\u{2551}\nc\u{2551}\n".as_bytes());
    assert!(!three.has_blocks());
}

#[test]
fn detect_utf16_with_bom() {
    let bytes = [0xFF, 0xFE, b'H', 0, b'i', 0, 0x3D, 0xD8, 0x00, 0xDE];
    assert_eq!(detect(&bytes), Charset::Utf16);
    let glyphs = decode(&bytes, Charset::Utf16).unwrap();
    assert_eq!(glyphs, vec!['H', 'i', '\u{1F600}']);
    let nfo = loaded(&bytes);
    assert_eq!(nfo.get_charset_name(), "UTF-16");
    assert_eq!(nfo.get_classic_text(), "Hi\u{1F600}");
}

#[test]
fn utf16_bad_units_become_replacement() {
    let bytes = [0xFF, 0xFE, 0x00, 0xD8, b'a', 0, b'b'];
    let glyphs = decode(&bytes, Charset::Utf16).unwrap();
    assert_eq!(glyphs, vec!['\u{FFFD}', 'a', '\u{FFFD}']);
}

#[test]
fn detect_cp437_in_utf16() {
    let bytes = [0xFF, 0xFE, 0xCD, 0, 0xCD, 0, 0xCD, 0, 0xCD, 0];
    assert_eq!(detect(&bytes), Charset::Cp437InUtf16);
    let nfo = loaded(&bytes);
    assert_eq!(nfo.get_charset_name(), "CP 437 (in UTF-16)");
    assert_eq!(nfo.get_classic_text(), "\u{2550}\u{2550}\u{2550}\u{2550}");
}

#[test]
fn detect_utf8_signature() {
    let bytes = [0xEF, 0xBB, 0xBF, b'o', b'k'];
    assert_eq!(detect(&bytes), Charset::Utf8Sig);
    let nfo = loaded(&bytes);
    assert_eq!(nfo.get_charset_name(), "UTF-8 (Signature)");
    assert_eq!(nfo.get_classic_text(), "ok");
}

#[test]
fn detect_cp437_in_utf8() {
    let text = "\u{CD}\u{CD}\u{CD}\u{CD} x";
    assert_eq!(detect(text.as_bytes()), Charset::Cp437InUtf8);
    let nfo = loaded(text.as_bytes());
    assert_eq!(nfo.get_charset_name(), "CP 437 (in UTF-8)");
    assert_eq!(nfo.get_classic_text(), "\u{2550}\u{2550}\u{2550}\u{2550} x");
    assert!(nfo.has_blocks());
}

#[test]
fn detect_double_encoded_in_utf8() {
    let text = "\u{80}\u{80}\u{80}\u{80}";
    assert_eq!(detect(text.as_bytes()), Charset::Cp437InCp437InUtf8);
    let nfo = loaded(text.as_bytes());
    assert_eq!(nfo.get_charset_name(), "CP 437 (double encoded + UTF-8)");
    assert_eq!(nfo.get_classic_text(), "\u{255F}\u{255F}\u{255F}\u{255F}");
}

#[test]
fn detect_double_encoded_cp437() {
    let bytes = [0x80, 0x80, 0x80, 0x80, b'\n'];
    assert_eq!(detect(&bytes), Charset::Cp437InCp437);
    let nfo = loaded(&bytes);
    assert_eq!(nfo.get_charset_name(), "CP 437 (double encoded)");
    assert_eq!(nfo.get_classic_text(), "\u{255F}\u{255F}\u{255F}\u{255F}\n");
}

#[test]
fn detect_windows_1252() {
    let bytes = [b'c', b'a', b'f', 0xE9, b' ', 0x80, 0x81];
    assert_eq!(detect(&bytes), Charset::Windows1252);
    let nfo = loaded(&bytes);
    assert_eq!(nfo.get_charset_name(), "Windows-1252");
    assert_eq!(nfo.get_classic_text(), "caf\u{E9} \u{20AC}\u{FFFD}");
}

#[test]
fn latin1_utf8_stays_utf8() {
    let text = "\u{DC}ber caf\u{E9}";
    assert_eq!(detect(text.as_bytes()), Charset::Utf8);
}

#[test]
fn strict_cp437_refuses_control_bytes() {
    assert_eq!(decode(b"a\x01b", Charset::Cp437Strict), Err(DecodeError::InvalidSequence));
    assert_eq!(decode(b"a\x7F", Charset::Cp437Strict), Err(DecodeError::InvalidSequence));
    let ok = decode(b"a\t\r\n\xDB", Charset::Cp437Strict).unwrap();
    assert_eq!(ok, vec!['a', '\t', '\r', '\n', '\u{2588}']);
    assert_eq!(decode(b"a\x01b", Charset::Cp437).unwrap(), vec!['a', '\u{1}', 'b']);
}

#[test]
fn charset_labels() {
    assert_eq!(Charset::Utf16.name(), "UTF-16");
    assert_eq!(Charset::Cp437Strict.name(), "CP 437 (strict mode)");
    assert_eq!(Charset::Cp437InCp437.name(), "CP 437 (double encoded)");
}

#[test]
fn classic_html_escapes_markup() {
    let nfo = loaded(b"<a & \"b\">\nx\n");
    assert_eq!(nfo.get_classic_html(), "&lt;a &amp; &quot;b&quot;&gt;\nx\n");
}

#[test]
fn codepoints_to_string() {
    let s = cpp_char_vector_to_utf8_string(vec![72, 0xD800, 0x1F600, 0x110000]);
    assert_eq!(s, "H\u{FFFD}\u{1F600}\u{FFFD}");
    assert_eq!(cpp_char_vector_to_utf8_string(Vec::new()), "");
}

#[test]
fn detect_utf16_big_endian() {
    let bytes = [0xFE, 0xFF, 0, b'H', 0, b'i', 0xD8, 0x3D, 0xDE, 0x00];
    assert_eq!(detect(&bytes), Charset::Utf16);
    assert_eq!(decode(&bytes, Charset::Utf16).unwrap(), vec!['H', 'i', '\u{1F600}']);
    assert_eq!(decode(b"H\0i\0", Charset::Utf16).unwrap(), vec!['H', 'i']);
}

#[test]
fn strip_leaves_prose_unchanged() {
    for text in ["a", "a\n\n\nb", "Hello\nWorld", "x\r\n\r\ny\r\n", "\n\n"] {
        let nfo = loaded(text.as_bytes());
        assert_eq!(nfo.get_stripped_text(), text);
    }
}

#[test]
fn strip_keeps_missing_final_line_feed() {
    let nfo = loaded("\u{2550}\u{2550}\u{2550}\nlast words".as_bytes());
    assert_eq!(nfo.get_stripped_text(), "last words");
    let tail = loaded("words\n\u{2550}\u{2550}\u{2550}".as_bytes());
    assert_eq!(tail.get_stripped_text(), "words\n");
}

#[test]
fn strip_keeps_authored_blank_runs_beside_removals() {
    let nfo = loaded("a\n\n\n\u{2550}\u{2550}\nb\n".as_bytes());
    assert_eq!(nfo.get_stripped_text(), "a\n\n\nb\n");
}

#[test]
fn file_name_follows_unix_paths() {
    let cases = [
        ("dir/nfo/", "nfo"),
        ("a/b/.", "b"),
        ("a/..", ""),
        ("..", ""),
        ("/", ""),
        (".", ""),
        ("./x.nfo", "x.nfo"),
        ("a//b.nfo", "b.nfo"),
        ("/data/nfo/release.nfo", "release.nfo"),
        ("", ""),
    ];
    for (path, name) in cases {
        let mut nfo = NfoData::new();
        nfo.load_from_bytes(path, b"x");
        assert_eq!(nfo.get_file_name(), Some(name.to_string()), "path {:?}", path);
    }
}
