use cmux_preview_proxy::chat_view::{Piece, Tint};
use cmux_preview_proxy::markdown::{MarkdownEvent, MarkdownRows};

fn shown(row: &[Piece]) -> Vec<(&str, Tint)> {
    row.iter().map(|p| (p.text.as_str(), p.tint)).collect()
}

fn text(s: &str) -> MarkdownEvent {
    MarkdownEvent::Text(s.to_string())
}

fn rows_of(events: Vec<MarkdownEvent>) -> Vec<Vec<Piece>> {
    let mut state = MarkdownRows::new();
    for event in events {
        assert!(state.on_event(event).is_none());
    }
    state.finish()
}

#[test]
fn paragraphs_and_breaks() {
    let rows = rows_of(vec![
        MarkdownEvent::Other,
        text("one "),
        MarkdownEvent::Code("x".to_string()),
        text(" two"),
        MarkdownEvent::Break,
        MarkdownEvent::Break,
        text("three"),
        MarkdownEvent::ParagraphEnd,
        MarkdownEvent::ParagraphEnd,
        text("left over"),
    ]);
    assert_eq!(rows.len(), 3);
    assert_eq!(
        shown(&rows[0]),
        vec![("one ", Tint::Plain), ("`x`", Tint::YellowBold), (" two", Tint::Plain)]
    );
    assert_eq!(shown(&rows[1]), vec![("three", Tint::Plain)]);
    assert_eq!(shown(&rows[2]), vec![("left over", Tint::Plain)]);
    assert!(rows_of(Vec::new()).is_empty());
}

#[test]
fn text_is_cut_at_line_feeds() {
    let rows = rows_of(vec![text("a\nb\n\nc")]);
    assert_eq!(rows.len(), 4);
    assert_eq!(shown(&rows[0]), vec![("a", Tint::Plain)]);
    assert_eq!(shown(&rows[1]), vec![("b", Tint::Plain)]);
    assert!(rows[2].is_empty());
    assert_eq!(shown(&rows[3]), vec![("c", Tint::Plain)]);
    let rows = rows_of(vec![text("head"), text(" tail\n"), text("")]);
    assert_eq!(rows.len(), 1);
    assert_eq!(shown(&rows[0]), vec![("head", Tint::Plain), (" tail", Tint::Plain)]);
    let rows = rows_of(vec![text("\n")]);
    assert_eq!(rows.len(), 1);
    assert!(rows[0].is_empty());
    assert!(rows_of(vec![text("")]).is_empty());
}

#[test]
fn headings_and_items() {
    let rows = rows_of(vec![
        MarkdownEvent::HeadingStart { level: 2 },
        text("Title"),
        MarkdownEvent::HeadingEnd,
        MarkdownEvent::Other,
        MarkdownEvent::ItemStart,
        text("first"),
        MarkdownEvent::ItemEnd,
        MarkdownEvent::ItemStart,
        MarkdownEvent::ItemEnd,
        MarkdownEvent::HeadingStart { level: 0 },
        MarkdownEvent::HeadingEnd,
    ]);
    assert_eq!(rows.len(), 4);
    assert_eq!(shown(&rows[0]), vec![("## ", Tint::CyanBold), ("Title", Tint::Plain)]);
    assert_eq!(shown(&rows[1]), vec![("• ", Tint::Plain), ("first", Tint::Plain)]);
    assert_eq!(shown(&rows[2]), vec![("• ", Tint::Plain)]);
    assert_eq!(shown(&rows[3]), vec![(" ", Tint::CyanBold)]);
    let rows = rows_of(vec![MarkdownEvent::HeadingStart { level: 6 }]);
    assert_eq!(shown(&rows[0]), vec![("###### ", Tint::CyanBold)]);
}

#[test]
fn code_blocks_are_handed_out_and_come_back() {
    let mut state = MarkdownRows::new();
    assert!(state.on_event(text("before")).is_none());
    assert!(state
        .on_event(MarkdownEvent::CodeBlockStart { fence: Some(".JS".to_string()) })
        .is_none());
    assert!(state.in_code_block);
    assert_eq!(state.code_lang.as_deref(), Some("javascript"));
    assert!(state.on_event(text("let a = 1;\n")).is_none());
    assert!(state.on_event(text("let b;\n")).is_none());
    assert!(state.current.is_empty());
    let block = state.on_event(MarkdownEvent::CodeBlockEnd).expect("a code block");
    assert_eq!(block.code, "let a = 1;\nlet b;\n");
    assert_eq!(block.lang.as_deref(), Some("javascript"));
    assert!(!state.in_code_block);
    assert!(state.code_lang.is_none());
    assert_eq!(state.code_content, "");
    let highlighted = vec![
        vec![Piece { text: "let a = 1;".to_string(), tint: Tint::Green }],
        vec![Piece { text: "let b;".to_string(), tint: Tint::Green }],
    ];
    state.add_code_rows(highlighted);
    assert!(state.on_event(text("after")).is_none());
    let rows = state.finish();
    assert_eq!(rows.len(), 6);
    assert_eq!(shown(&rows[0]), vec![("before", Tint::Plain)]);
    assert_eq!(shown(&rows[1]), vec![("", Tint::Plain)]);
    assert_eq!(shown(&rows[2]), vec![("let a = 1;", Tint::Green)]);
    assert_eq!(shown(&rows[3]), vec![("let b;", Tint::Green)]);
    assert_eq!(shown(&rows[4]), vec![("", Tint::Plain)]);
    assert_eq!(shown(&rows[5]), vec![("after", Tint::Plain)]);
}

#[test]
fn language_of_a_code_block() {
    let cases: [(Option<&str>, Option<&str>); 5] = [
        (None, None),
        (Some(""), None),
        (Some("py"), Some("python")),
        (Some("Rust"), Some("rust")),
        (Some("unknown"), Some("unknown")),
    ];
    for (fence, expected) in cases {
        let mut state = MarkdownRows::new();
        state.on_event(MarkdownEvent::CodeBlockStart { fence: fence.map(|f| f.to_string()) });
        assert_eq!(state.code_lang.as_deref(), expected);
        assert_eq!(state.rows.len(), 1);
        let block = state.on_event(MarkdownEvent::CodeBlockEnd).expect("a code block");
        assert_eq!(block.code, "");
        assert_eq!(block.lang.as_deref(), expected);
        state.add_code_rows(Vec::new());
        assert_eq!(state.finish().len(), 2);
    }
}
