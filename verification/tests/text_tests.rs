use memory_core::text::{millionths_to_text, trimmed_char_count};

#[test]
fn trimmed_counts_characters_between_the_white_space() {
    assert_eq!(trimmed_char_count("  héllo wörld \u{2003}\n"), 11);
    assert_eq!(trimmed_char_count("\u{85}\u{a0}"), 0);
    assert_eq!(trimmed_char_count(""), 0);
    for s in ["a", " a b ", "\u{200b}x", "\u{3000}y\u{3000}"] {
        assert_eq!(trimmed_char_count(s), s.trim().chars().count());
    }
}

#[test]
fn millionths_read_as_decimals() {
    assert_eq!(millionths_to_text(900_000), "0.9");
    assert_eq!(millionths_to_text(2_000_000), "2");
    assert_eq!(millionths_to_text(1_000_001), "1.000001");
    assert_eq!(millionths_to_text(0), "0");
    assert_eq!(millionths_to_text(12_340_500), "12.3405");
}
