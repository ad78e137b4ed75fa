use tenth::text::{compact_message, csv_cell, eq_ignore_ascii_case, trim};

#[test]
fn csv_cells_escape_quotes() {
    assert_eq!(csv_cell("Client \"A\""), "\"Client \"\"A\"\"\"");
}

#[test]
fn csv_cells_wrap_plain_and_empty_values() {
    assert_eq!(csv_cell(""), "\"\"");
    assert_eq!(csv_cell("a,b"), "\"a,b\"");
    assert_eq!(csv_cell("\""), "\"\"\"\"");
    let value = "say \"hi\", \"\"ok\"\"";
    let cell = csv_cell(value);
    let inner = &cell[1..cell.len() - 1];
    assert_eq!(inner.replace("\"\"", "\""), value);
}

#[test]
fn long_status_messages_are_compacted_without_breaking_unicode() {
    assert_eq!(compact_message("Saved", 8), "Saved");
    assert_eq!(compact_message("Exported résumé", 8), "Exported…");
}

#[test]
fn compacting_at_the_exact_length_keeps_the_message() {
    assert_eq!(compact_message("12345678", 8), "12345678");
    assert_eq!(compact_message("123456789", 8), "12345678…");
    assert_eq!(compact_message("abc", 0), "…");
    assert_eq!(compact_message("", 0), "");
}

#[test]
fn trimming_matches_str_trim() {
    for s in ["  Client  ", "\t\nx y\r\n", "", "   ", "\u{3000}Zen\u{2003}", "\u{a0}nb\u{85}", "plain"] {
        assert_eq!(trim(s), s.trim());
    }
}

#[test]
fn ascii_case_is_ignored_only_for_ascii_letters() {
    assert!(eq_ignore_ascii_case("Client A", "client a"));
    assert!(!eq_ignore_ascii_case("Client", "Clients"));
    assert!(!eq_ignore_ascii_case("Équipe", "équipe"));
    assert!(eq_ignore_ascii_case("Équipe", "ÉQUIPE".replace("QUIPE", "quipe").as_str()));
    for (a, b) in [("Abc", "aBC"), ("x1", "X1"), ("[", "{"), ("@", "`")] {
        assert_eq!(eq_ignore_ascii_case(a, b), a.eq_ignore_ascii_case(b));
    }
}

#[test]
fn quoted_cells_read_back_as_their_values() {
    for value in ["Client \"A\"", "", "\"\"", "a,b", "plain", "say \"hi\" twice \"\""] {
        let cell = csv_cell(value);
        assert!(cell.starts_with('"') && cell.ends_with('"') && cell.len() >= 2);
        let inner = &cell[1..cell.len() - 1];
        assert_eq!(inner.replace("\"\"", "\""), value);
    }
}
