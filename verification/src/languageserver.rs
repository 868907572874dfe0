//! The decisions of the Cairo language server: how positions and syntax diagnostics are
//! presented to the client, which document changes are taken, how the result of a
//! workspace edit is logged, and which completions are offered.

use vstd::prelude::*;

verus! {

/// A position in a file: a line and a column, both counted from 0.
#[derive(Clone, Copy, Debug, PartialEq, Eq, Structural)]
pub struct TextPosition {
    pub line: usize,
    pub col: usize,
}

/// A position in a document as the protocol states it.
#[derive(Clone, Copy, Debug, PartialEq, Eq, Structural)]
pub struct Position {
    pub line: u32,
    pub character: u32,
}

/// A range in a document as the protocol states it.
#[derive(Clone, Copy, Debug, PartialEq, Eq, Structural)]
pub struct Range {
    pub start: Position,
    pub end: Position,
}

/// A syntax diagnostic of a file: where it starts and its formatted message.
#[derive(Clone, Debug, PartialEq, Eq)]
pub struct DiagnosticEntry {
    pub start: TextPosition,
    pub message: String,
}

/// A diagnostic as it is published to the client.
#[derive(Clone, Debug, PartialEq, Eq)]
pub struct Diagnostic {
    pub range: Range,
    pub message: String,
}

/// The kind of a message logged to the client.
#[derive(Clone, Copy, Debug, PartialEq, Eq, Structural)]
pub enum MessageType {
    Error,
    Warning,
    Info,
    Log,
}

/// A completion offered to the client: its label and its detail.
#[derive(Clone, Debug, PartialEq, Eq)]
pub struct CompletionEntry {
    pub label: String,
    pub detail: String,
}

/// The protocol position of a position in a file: line and column, each truncated to 32 bits.
pub open spec fn spec_from_pos(pos: TextPosition) -> Position {
    Position { line: pos.line as u32, character: pos.col as u32 }
}

/// The protocol position of a position in a file.
pub fn from_pos(pos: TextPosition) -> (position: Position)
    ensures
        position == spec_from_pos(pos),
        pos.line <= u32::MAX ==> position.line == pos.line,
        pos.col <= u32::MAX ==> position.character == pos.col,
{
    Position { line: pos.line as u32, character: pos.col as u32 }
}

/// The diagnostics published to the client for the syntax diagnostics of a file, in order.
pub fn diagnostics_to_publish(entries: &Vec<DiagnosticEntry>) -> (diags: Vec<Diagnostic>)
    ensures
        diags@.len() == entries@.len(),
        forall|i: int|
            0 <= i < entries@.len() ==> {
                &&& (#[trigger] diags@[i]).range.start == spec_from_pos(entries@[i].start)
                &&& diags@[i].range.end == spec_from_pos(entries@[i].start)
                &&& diags@[i].message@ == entries@[i].message@
            },
{
    let mut diags: Vec<Diagnostic> = Vec::new();
    let mut i: usize = 0;
    while i < entries.len()
        invariant
            0 <= i <= entries@.len(),
            diags@.len() == i,
            forall|k: int|
                0 <= k < i ==> {
                    &&& (#[trigger] diags@[k]).range.start == spec_from_pos(entries@[k].start)
                    &&& diags@[k].range.end == spec_from_pos(entries@[k].start)
                    &&& diags@[k].message@ == entries@[k].message@
                },
        decreases entries@.len() - i,
    {
        let d = &entries[i];
        let start = from_pos(d.start);
        let end = from_pos(d.start);
        diags.push(Diagnostic { range: Range { start, end }, message: d.message.clone() });
        i = i + 1;
    }
    diags
}

/// The new text of a document, from the changes the client sent: it is taken only when
/// there is exactly one change, the full text.
pub fn single_change_text(changes: &Vec<String>) -> (text: Option<&String>)
    ensures
        text is Some <==> changes@.len() == 1,
        text is Some ==> *text.unwrap() == changes@[0],
{
    if changes.len() == 1 {
        Some(&changes[0])
    } else {
        None
    }
}

/// What is logged once the client answered a request to apply a workspace edit: whether
/// it applied it, or the error it answered with.
pub fn apply_edit_log(answer: &Result<bool, String>) -> (log: (MessageType, String))
    ensures
        answer matches Ok(applied) ==> log.0 == MessageType::Info && log.1@ == if *applied {
            "applied"@
        } else {
            "rejected"@
        },
        answer matches Err(e) ==> log.0 == MessageType::Error && log.1@ == e@,
{
    match answer {
        Ok(applied) => {
            if *applied {
                (MessageType::Info, String::from_str("applied"))
            } else {
                (MessageType::Info, String::from_str("rejected"))
            }
        },
        Err(e) => (MessageType::Error, e.clone()),
    }
}

/// The completions offered for any position.
pub fn completion_items() -> (items: Vec<CompletionEntry>)
    ensures
        items@.len() == 2,
        items@[0].label@ == "Hello"@,
        items@[0].detail@ == "Some detail"@,
        items@[1].label@ == "Bye"@,
        items@[1].detail@ == "More detail"@,
{
    vec![
        CompletionEntry {
            label: String::from_str("Hello"),
            detail: String::from_str("Some detail"),
        },
        CompletionEntry { label: String::from_str("Bye"), detail: String::from_str("More detail") },
    ]
}

} // verus!
