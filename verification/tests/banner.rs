use llm_wiki::banner::{banner_lines, bottom_rule, row, top_rule, INNER};

#[test]
fn rows_are_centred_and_boxed() {
    let r = row("abc");
    assert_eq!(r.chars().count(), INNER + 4);
    assert_eq!(r, format!("  │{}abc{}│", " ".repeat(26), " ".repeat(27)));
    assert_eq!(row("  x  "), format!("  │{}x{}│", " ".repeat(27), " ".repeat(28)));
    assert_eq!(row(""), format!("  │{}│", " ".repeat(56)));
}

#[test]
fn long_rows_are_cut_to_the_inner_width() {
    let long: String = std::iter::repeat('界').take(70).collect();
    let r = row(&long);
    let inner: String = std::iter::repeat('界').take(56).collect();
    assert_eq!(r, format!("  │{inner}│"));
}

#[test]
fn rules_and_lines_have_the_box_width() {
    assert_eq!(top_rule(), format!("  ╭{}╮", "─".repeat(56)));
    assert_eq!(bottom_rule(), format!("  ╰{}╯", "─".repeat(56)));
    let lines = banner_lines();
    assert_eq!(lines.len(), 9);
    assert_eq!(lines[0], "");
    assert_eq!(lines[8], "");
    for l in &lines[1..8] {
        assert_eq!(l.chars().count(), 60);
    }
    assert!(lines[3].contains("rust-llm-wiki"));
}
