use cairo_lang::languageserver::{
    apply_edit_log, completion_items, from_pos, diagnostics_to_publish, single_change_text,
    DiagnosticEntry, MessageType, Position, TextPosition,
};

#[test]
fn positions_convert() {
    assert_eq!(from_pos(TextPosition { line: 3, col: 14 }), Position { line: 3, character: 14 });
    assert_eq!(from_pos(TextPosition { line: 0, col: 0 }), Position { line: 0, character: 0 });
}

#[test]
fn large_positions_truncate() {
    let big = (u32::MAX as usize).wrapping_add(6);
    let p = from_pos(TextPosition { line: big, col: 1 });
    assert_eq!(p.line, big as u32);
    assert_eq!(p.character, 1);
}

#[test]
fn published_ranges_are_empty_at_start() {
    let entries = vec![
        DiagnosticEntry { start: TextPosition { line: 1, col: 2 }, message: "first".to_string() },
        DiagnosticEntry { start: TextPosition { line: 5, col: 0 }, message: "second".to_string() },
    ];
    let diags = diagnostics_to_publish(&entries);
    assert_eq!(diags.len(), 2);
    assert_eq!(diags[0].range.start, Position { line: 1, character: 2 });
    assert_eq!(diags[0].range.end, Position { line: 1, character: 2 });
    assert_eq!(diags[0].message, "first");
    assert_eq!(diags[1].range.start, Position { line: 5, character: 0 });
    assert_eq!(diags[1].range.end, diags[1].range.start);
    assert_eq!(diags[1].message, "second");
    assert!(diagnostics_to_publish(&vec![]).is_empty());
}

#[test]
fn only_a_single_change_is_taken() {
    assert_eq!(single_change_text(&vec!["fn main() {}".to_string()]), Some(&"fn main() {}".to_string()));
    assert_eq!(single_change_text(&vec![]), None);
    assert_eq!(single_change_text(&vec!["a".to_string(), "b".to_string()]), None);
}

#[test]
fn edit_answers_are_logged() {
    assert_eq!(apply_edit_log(&Ok(true)), (MessageType::Info, "applied".to_string()));
    assert_eq!(apply_edit_log(&Ok(false)), (MessageType::Info, "rejected".to_string()));
    assert_eq!(apply_edit_log(&Err("boom".to_string())), (MessageType::Error, "boom".to_string()));
}

#[test]
fn completions_are_fixed() {
    let items = completion_items();
    assert_eq!(items.len(), 2);
    assert_eq!(items[0].label, "Hello");
    assert_eq!(items[0].detail, "Some detail");
    assert_eq!(items[1].label, "Bye");
    assert_eq!(items[1].detail, "More detail");
}
