use sydney::rows::{adapt, TextStyle};
use sydney::stateful_list::StatefulList;

#[test]
fn adapt_heading_blank_link_text() {
    let rows = adapt("# Title\n\n=> /about About us\nplain text", 80);
    assert_eq!(rows.len(), 4);

    assert_eq!(rows[0].spans.len(), 2);
    assert_eq!(rows[0].spans[0].text, "  # ");
    assert_eq!(rows[0].spans[0].style, TextStyle::Accent);
    assert_eq!(rows[0].spans[1].text, "Title");
    assert_eq!(rows[0].spans[1].style, TextStyle::BoldUnderlined);
    assert!(rows[0].link.is_none());
    assert!(!rows[0].pre);

    assert_eq!(rows[1].spans.len(), 1);
    assert_eq!(rows[1].spans[0].text, "");
    assert!(rows[1].link.is_none());

    assert_eq!(rows[2].link.as_deref(), Some("/about"));
    assert_eq!(rows[2].spans[1].text, "About us");
    assert_eq!(rows[2].spans[1].style, TextStyle::Underlined);
    assert_eq!(rows[2].spans[3].text, "/about");
    assert!(!rows[2].pre);

    assert_eq!(rows[3].spans[0].text, "    plain text");
    assert_eq!(rows[3].spans[0].style, TextStyle::Plain);
}

#[test]
fn adapt_heading_levels() {
    let rows = adapt("## Second\n### Third", 80);
    assert_eq!(rows[0].spans[0].text, " ## ");
    assert_eq!(rows[0].spans[1].style, TextStyle::Bold);
    assert_eq!(rows[1].spans[0].text, "### ");
    assert_eq!(rows[1].spans[1].style, TextStyle::BoldItalic);
}

#[test]
fn adapt_quote_and_list() {
    let rows = adapt("> words of others\n* first item", 80);
    assert_eq!(rows[0].spans[0].text, "  > ");
    assert_eq!(rows[0].spans[1].text, "words of others");
    assert_eq!(rows[0].spans[1].style, TextStyle::Italic);
    assert_eq!(rows[1].spans[0].text, "  * ");
    assert_eq!(rows[1].spans[1].text, "first item");
}

#[test]
fn adapt_link_without_label_shows_target_twice() {
    let rows = adapt("=> /lonely", 80);
    assert_eq!(rows.len(), 1);
    assert_eq!(rows[0].link.as_deref(), Some("/lonely"));
    assert_eq!(rows[0].spans[1].text, "/lonely");
    assert_eq!(rows[0].spans[3].text, "/lonely");
}

#[test]
fn adapt_preformatted_block_is_verbatim() {
    let rows = adapt("```\n# not a heading\n```\n# real heading", 80);
    assert_eq!(rows.len(), 4);
    assert!(rows[0].pre);
    assert_eq!(rows[0].spans[0].text, "");
    assert!(rows[1].pre);
    assert_eq!(rows[1].spans[0].text, "# not a heading");
    assert!(rows[2].pre);
    assert!(!rows[3].pre);
    assert_eq!(rows[3].spans[0].text, "  # ");
}

#[test]
fn adapt_link_line_wins_inside_preformatted_block() {
    let rows = adapt("```\n=> /go there\n```", 80);
    assert_eq!(rows.len(), 3);
    assert_eq!(rows[1].link.as_deref(), Some("/go"));
    assert!(!rows[1].pre);
}

#[test]
fn adapt_wraps_long_text_lines() {
    let line = "x".repeat(100);
    let rows = adapt(&line, 40);
    assert_eq!(rows.len(), 3);
    assert_eq!(rows[0].spans[0].text, format!("    {}", "x".repeat(40)));
    assert_eq!(rows[1].spans[0].text, format!("    {}", "x".repeat(40)));
    assert_eq!(rows[2].spans[0].text, format!("    {}", "x".repeat(20)));
}

#[test]
fn adapt_wrap_counts_characters_not_bytes() {
    // five two-byte characters, width two: three rows, no split characters
    let rows = adapt("ééééé", 2);
    assert_eq!(rows.len(), 3);
    assert_eq!(rows[0].spans[0].text, "    éé");
    assert_eq!(rows[1].spans[0].text, "    éé");
    assert_eq!(rows[2].spans[0].text, "    é");
}

#[test]
fn adapt_replaces_tabs_with_spaces() {
    let rows = adapt("a\tb", 80);
    assert_eq!(rows[0].spans[0].text, "    a b");
}

#[test]
fn adapt_preformatted_lines_are_not_wrapped() {
    let long = format!("```\n{}\n```", "y".repeat(100));
    let rows = adapt(&long, 10);
    assert_eq!(rows.len(), 3);
    assert_eq!(rows[1].spans[0].text, "y".repeat(100));
}

#[test]
fn selection_wraps_at_both_ends() {
    let mut l = StatefulList::with_items(vec![10u32, 20, 30]);
    assert_eq!(l.cursor, None);
    l.next();
    assert_eq!(l.cursor, Some(0));
    l.last();
    assert_eq!(l.selected, 2);
    l.next();
    assert_eq!(l.selected, 0);
    l.previous();
    assert_eq!(l.selected, 2);
    l.first();
    assert_eq!(l.selected, 0);
    l.previous();
    assert_eq!(l.selected, 2);
    l.unselect();
    assert_eq!(l.cursor, None);
    assert_eq!(l.selected, 2);
}

#[test]
fn selection_on_empty_list_stays_at_zero() {
    let mut l: StatefulList<u8> = StatefulList::with_items(Vec::new());
    l.next();
    assert_eq!(l.selected, 0);
    assert_eq!(l.cursor, Some(0));
    l.previous();
    assert_eq!(l.selected, 0);
    l.last();
    assert_eq!(l.selected, 0);
    l.first();
    assert_eq!(l.selected, 0);
}
