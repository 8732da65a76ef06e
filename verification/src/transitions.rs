//! The transition engine.
//!
//! For a line at a given position the engine proposes edits: stamping a
//! pending task as done or cancelled with a timestamp tag, reverting a done
//! or cancelled task to pending with its state tag stripped, converting plain
//! text to a new task, and inserting a fresh task line below.  Every rule
//! preserves the line's indentation verbatim.  The timestamp is an argument,
//! injected by the caller, so the engine itself is deterministic.

use vstd::prelude::*;

use crate::text::{spec_trim, trim, push_all};
use crate::classify::{LineKind, spec_kind, spec_indent, spec_body, parse_line};
use crate::tags::{
    done_name, cancelled_name, done_name_chars, cancelled_name_chars, spec_strip_tags, strip_tags,
};
use crate::{PENDING_MARKER, DONE_MARKER, CANCELLED_MARKER};

verus! {

/// The name of a proposed action, as the editor shows it.
#[derive(Clone, Copy, Debug, PartialEq, Eq, Structural)]
pub enum ActionTitle {
    MarkAsDone,
    MarkAsCancelled,
    RevertToPending,
    ConvertToTodo,
    InsertTodoBelow,
}

/// The protocol category of a proposed action.
#[derive(Clone, Copy, Debug, PartialEq, Eq, Structural)]
pub enum ActionCategory {
    QuickFix,
    Refactor,
}

/// A proposed edit: either replace the whole text of line `line`, or insert
/// `new_text` at the start of line `line`.
pub struct CodeActionItem {
    pub title: ActionTitle,
    pub category: ActionCategory,
    pub is_preferred: bool,
    pub line: usize,
    pub is_insert: bool,
    pub new_text: Vec<char>,
}

/// The mathematical model of a proposed action.
pub struct ActionModel {
    pub title: ActionTitle,
    pub category: ActionCategory,
    pub is_preferred: bool,
    pub line: int,
    pub is_insert: bool,
    pub new_text: Seq<char>,
}

impl View for CodeActionItem {
    type V = ActionModel;

    open spec fn view(&self) -> ActionModel {
        ActionModel {
            title: self.title,
            category: self.category,
            is_preferred: self.is_preferred,
            line: self.line as int,
            is_insert: self.is_insert,
            new_text: self.new_text@,
        }
    }
}

/// The models of a vector of actions.
pub open spec fn models_of(v: Seq<CodeActionItem>) -> Seq<ActionModel> {
    v.map_values(|a: CodeActionItem| a@)
}

/// A state tag `@name(value)`.
pub open spec fn state_tag(name: Seq<char>, ts: Seq<char>) -> Seq<char> {
    seq!['@'] + name + seq!['('] + ts + seq![')']
}

/// A task line without a trailing tag: indentation, marker, space, body.
pub open spec fn marked_line(ind: Seq<char>, marker: char, body: Seq<char>) -> Seq<char> {
    ind + seq![marker, ' '] + body
}

/// A task line with a state tag appended after a space.
pub open spec fn stamped_line(
    ind: Seq<char>,
    marker: char,
    body: Seq<char>,
    name: Seq<char>,
    ts: Seq<char>,
) -> Seq<char> {
    ind + seq![marker, ' '] + body + seq![' '] + state_tag(name, ts)
}

/// Mark a pending line as done: stamp the done marker and a done tag.
pub open spec fn mark_done_action(s: Seq<char>, line: int, ts: Seq<char>) -> ActionModel {
    ActionModel {
        title: ActionTitle::MarkAsDone,
        category: ActionCategory::QuickFix,
        is_preferred: true,
        line,
        is_insert: false,
        new_text: stamped_line(spec_indent(s), DONE_MARKER, spec_body(s), done_name(), ts),
    }
}

/// Mark a pending line as cancelled: stamp the cancelled marker and tag.
pub open spec fn mark_cancelled_action(s: Seq<char>, line: int, ts: Seq<char>) -> ActionModel {
    ActionModel {
        title: ActionTitle::MarkAsCancelled,
        category: ActionCategory::QuickFix,
        is_preferred: false,
        line,
        is_insert: false,
        new_text: stamped_line(
            spec_indent(s),
            CANCELLED_MARKER,
            spec_body(s),
            cancelled_name(),
            ts,
        ),
    }
}

/// Revert a done or cancelled line to pending, stripping its state tags.
pub open spec fn revert_action(s: Seq<char>, line: int, name: Seq<char>) -> ActionModel {
    ActionModel {
        title: ActionTitle::RevertToPending,
        category: ActionCategory::QuickFix,
        is_preferred: true,
        line,
        is_insert: false,
        new_text: marked_line(
            spec_indent(s),
            PENDING_MARKER,
            spec_trim(spec_strip_tags(spec_body(s), name)),
        ),
    }
}

/// Convert a plain line to a pending task, keeping its indentation and its
/// trimmed content.
pub open spec fn convert_action(s: Seq<char>, line: int) -> ActionModel {
    ActionModel {
        title: ActionTitle::ConvertToTodo,
        category: ActionCategory::Refactor,
        is_preferred: true,
        line,
        is_insert: false,
        new_text: marked_line(spec_indent(s), PENDING_MARKER, spec_trim(s)),
    }
}

/// Insert a fresh pending task line below, with the same indentation.
pub open spec fn insert_below_action(s: Seq<char>, line: int) -> ActionModel {
    ActionModel {
        title: ActionTitle::InsertTodoBelow,
        category: ActionCategory::Refactor,
        is_preferred: false,
        line: line + 1,
        is_insert: true,
        new_text: spec_indent(s) + seq![PENDING_MARKER, ' ', '\n'],
    }
}

/// Every action the engine proposes for the line `s` at index `line`, in
/// order: the state transitions that apply to the line's kind, the conversion
/// of plain text, and always the insertion below.
pub open spec fn spec_actions(s: Seq<char>, line: int, ts: Seq<char>) -> Seq<ActionModel> {
    let k = spec_kind(s);
    let pending_part: Seq<ActionModel> = if k == LineKind::Pending {
        seq![mark_done_action(s, line, ts), mark_cancelled_action(s, line, ts)]
    } else {
        Seq::empty()
    };
    let done_part: Seq<ActionModel> = if k == LineKind::Done {
        seq![revert_action(s, line, done_name())]
    } else {
        Seq::empty()
    };
    let cancelled_part: Seq<ActionModel> = if k == LineKind::Cancelled {
        seq![revert_action(s, line, cancelled_name())]
    } else {
        Seq::empty()
    };
    let convert_part: Seq<ActionModel> = if k == LineKind::Plain {
        seq![convert_action(s, line)]
    } else {
        Seq::empty()
    };
    pending_part + done_part + cancelled_part + convert_part + seq![insert_below_action(s, line)]
}

/// Build `indentation + marker + space + body`.
fn build_marked_line(ind: &Vec<char>, marker: char, body: &Vec<char>) -> (r: Vec<char>)
    ensures
        r@ == marked_line(ind@, marker, body@),
{
    let mut out: Vec<char> = Vec::new();
    push_all(&mut out, ind);
    out.push(marker);
    out.push(' ');
    push_all(&mut out, body);
    proof {
        assert(out@ =~= marked_line(ind@, marker, body@));
    }
    out
}

/// Build `indentation + marker + space + body + space + @name(ts)`.
fn build_stamped_line(
    ind: &Vec<char>,
    marker: char,
    body: &Vec<char>,
    name: &Vec<char>,
    ts: &Vec<char>,
) -> (r: Vec<char>)
    ensures
        r@ == stamped_line(ind@, marker, body@, name@, ts@),
{
    let mut out: Vec<char> = Vec::new();
    push_all(&mut out, ind);
    out.push(marker);
    out.push(' ');
    push_all(&mut out, body);
    out.push(' ');
    out.push('@');
    push_all(&mut out, name);
    out.push('(');
    push_all(&mut out, ts);
    out.push(')');
    proof {
        assert(out@ =~= stamped_line(ind@, marker, body@, name@, ts@));
    }
    out
}

/// Build the inserted line for the insert-below rule: `indentation + marker +
/// space + newline`.
fn build_insert_line(ind: &Vec<char>) -> (r: Vec<char>)
    ensures
        r@ == ind@ + seq![PENDING_MARKER, ' ', '\n'],
{
    let mut out: Vec<char> = Vec::new();
    push_all(&mut out, ind);
    out.push(PENDING_MARKER);
    out.push(' ');
    out.push('\n');
    proof {
        assert(out@ =~= ind@ + seq![PENDING_MARKER, ' ', '\n']);
    }
    out
}

/// Propose every applicable action for the line `line` standing at index
/// `line_idx`, stamping transitions with the timestamp `ts`.
pub fn actions_for_line(line: &Vec<char>, line_idx: usize, ts: &Vec<char>) -> (r: Vec<
    CodeActionItem,
>)
    requires
        line_idx < usize::MAX,
    ensures
        models_of(r@) == spec_actions(line@, line_idx as int, ts@),
{
    let parsed = parse_line(line);
    let mut out: Vec<CodeActionItem> = Vec::new();
    match parsed.kind {
        LineKind::Pending => {
            let done_name_v = done_name_chars();
            let text1 = build_stamped_line(&parsed.indent, DONE_MARKER, &parsed.body, &done_name_v, ts);
            out.push(
                CodeActionItem {
                    title: ActionTitle::MarkAsDone,
                    category: ActionCategory::QuickFix,
                    is_preferred: true,
                    line: line_idx,
                    is_insert: false,
                    new_text: text1,
                },
            );
            let cancelled_name_v = cancelled_name_chars();
            let text2 = build_stamped_line(
                &parsed.indent,
                CANCELLED_MARKER,
                &parsed.body,
                &cancelled_name_v,
                ts,
            );
            out.push(
                CodeActionItem {
                    title: ActionTitle::MarkAsCancelled,
                    category: ActionCategory::QuickFix,
                    is_preferred: false,
                    line: line_idx,
                    is_insert: false,
                    new_text: text2,
                },
            );
        },
        LineKind::Done => {
            let name = done_name_chars();
            let stripped = strip_tags(&parsed.body, &name);
            let clean = trim(&stripped);
            let text = build_marked_line(&parsed.indent, PENDING_MARKER, &clean);
            out.push(
                CodeActionItem {
                    title: ActionTitle::RevertToPending,
                    category: ActionCategory::QuickFix,
                    is_preferred: true,
                    line: line_idx,
                    is_insert: false,
                    new_text: text,
                },
            );
        },
        LineKind::Cancelled => {
            let name = cancelled_name_chars();
            let stripped = strip_tags(&parsed.body, &name);
            let clean = trim(&stripped);
            let text = build_marked_line(&parsed.indent, PENDING_MARKER, &clean);
            out.push(
                CodeActionItem {
                    title: ActionTitle::RevertToPending,
                    category: ActionCategory::QuickFix,
                    is_preferred: true,
                    line: line_idx,
                    is_insert: false,
                    new_text: text,
                },
            );
        },
        LineKind::Header => {},
        LineKind::Plain => {
            let content = trim(line);
            let text = build_marked_line(&parsed.indent, PENDING_MARKER, &content);
            out.push(
                CodeActionItem {
                    title: ActionTitle::ConvertToTodo,
                    category: ActionCategory::Refactor,
                    is_preferred: true,
                    line: line_idx,
                    is_insert: false,
                    new_text: text,
                },
            );
        },
    }
    let insert_text = build_insert_line(&parsed.indent);
    out.push(
        CodeActionItem {
            title: ActionTitle::InsertTodoBelow,
            category: ActionCategory::Refactor,
            is_preferred: false,
            line: line_idx + 1,
            is_insert: true,
            new_text: insert_text,
        },
    );
    proof {
        assert(models_of(out@) =~= spec_actions(line@, line_idx as int, ts@));
    }
    out
}

} // verus!
