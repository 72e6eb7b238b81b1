//! The editing and command-dispatch engine: one state record holding the
//! input editor, the working buffer, both scroll anchors, the autocomplete
//! selection, the transient messages and the undo/redo history, with one
//! mutation entry point per input event. Every transition is specified as a
//! relation between the engine's abstract views before and after the event.

use vstd::prelude::*;
use vstd::utf8::encode_utf8;
use crate::autocomplete::{cycle_index, cycled_index, filtered_spec, get_filtered_commands};
use crate::base64::{base64_decode, base64_encode, b64_encode_of, decode_outcome, DecodeError};
use crate::css::{css_format, css_minify, css_min_of, css_pretty_of};
use crate::cursor::{col_of, line_col_to_offset, line_of, offset_of, offset_to_line_col};
use crate::hash::{hex_of_bytes, sha256_hex, sha256_of};
use crate::history::{pushed_snapshot, redone, undone, HistModel, HistoryStack, MAX_HISTORY};
use crate::ident::{new_cuid_string, new_uuid_string};
use crate::json::{json_min_of, json_pretty_of, json_format, json_minify};
use crate::registry::{command_names, command_of, lookup_command, requires_nonempty, CommandId};
use crate::render::{rendered_input_line_count, rendered_input_lines};
use crate::scroll::{
    adjust_anchor, adjusted_anchor, count_lines, line_count, lines_spec, scroll_down, scroll_up,
    scrolled_down, scrolled_up, split_lines,
};
use crate::text::{str_to_chars, trim_spec, TextSpan};

verus! {

/// How many input lines the editor window shows at once.
pub const MAX_VISIBLE_LINES: usize = 5;

/// A key press, already stripped of terminal details.
#[derive(Clone, Copy, Debug, PartialEq, Eq, Structural)]
pub enum KeyInput {
    Char(char),
    Enter,
    Tab,
    Backspace,
    Delete,
    Up,
    Down,
    Left,
    Right,
    Home,
    End,
    PageUp,
    PageDown,
    Esc,
}

/// The modifier keys held during a key press.
#[derive(Clone, Copy, Debug, PartialEq, Eq, Structural)]
pub struct Modifiers {
    pub ctrl: bool,
    pub shift: bool,
    pub sup: bool,
}

/// A mouse wheel direction.
#[derive(Clone, Copy, Debug, PartialEq, Eq, Structural)]
pub enum ScrollDir {
    Up,
    Down,
}

/// What the surrounding shell must do after an event: nothing, put text on
/// the system clipboard, or read the clipboard and hand the text back.
#[derive(Debug)]
pub enum EngineAction {
    Nothing,
    CopyText(String),
    RequestPaste,
}

/// The engine's abstract state: every field the event relations speak of.
#[verifier::ext_equal]
pub struct EngineView {
    pub exit: bool,
    pub input: Seq<char>,
    pub cursor: int,
    pub buffer: Seq<char>,
    pub scroll: int,
    pub error: Option<Seq<char>>,
    pub info: Option<Seq<char>>,
    pub ac_index: Option<int>,
    pub input_scroll: int,
    pub undo: Seq<Seq<char>>,
    pub redo: Seq<Seq<char>>,
}

impl EngineView {
    /// Well-formedness: the cursor stays inside the input and the history
    /// stacks stay within their joint bound.
    pub open spec fn wf(self) -> bool {
        &&& 0 <= self.cursor <= self.input.len()
        &&& 0 <= self.scroll
        &&& 0 <= self.input_scroll
        &&& self.undo.len() + self.redo.len() <= MAX_HISTORY
    }

    /// The history discipline's view of this state.
    pub open spec fn hist(self) -> HistModel {
        HistModel { undo: self.undo, redo: self.redo, buffer: self.buffer }
    }
}

/// A view with the input scroll anchor re-adjusted so the cursor's line is
/// inside the five-line window.
pub open spec fn with_adjusted_input_scroll(v: EngineView) -> EngineView {
    EngineView {
        input_scroll: adjusted_anchor(
            line_of(v.input, v.cursor),
            v.input_scroll,
            MAX_VISIBLE_LINES as int,
        ),
        ..v
    }
}

pub open spec fn rel_insert_char(pre: EngineView, post: EngineView, c: char) -> bool {
    post == with_adjusted_input_scroll(
        EngineView {
            input: pre.input.insert(pre.cursor, c),
            cursor: pre.cursor + 1,
            ac_index: Option::<int>::None,
            ..pre
        },
    )
}

/// Shift+Enter: a newline goes in like any character, but the autocomplete
/// selection survives.
pub open spec fn rel_insert_newline(pre: EngineView, post: EngineView) -> bool {
    post == with_adjusted_input_scroll(
        EngineView { input: pre.input.insert(pre.cursor, '\n'), cursor: pre.cursor + 1, ..pre },
    )
}

pub open spec fn rel_backspace(pre: EngineView, post: EngineView) -> bool {
    if pre.cursor > 0 {
        post == with_adjusted_input_scroll(
            EngineView {
                input: pre.input.remove(pre.cursor - 1),
                cursor: pre.cursor - 1,
                ac_index: Option::<int>::None,
                ..pre
            },
        )
    } else {
        post == pre
    }
}

pub open spec fn rel_delete(pre: EngineView, post: EngineView) -> bool {
    if pre.cursor < pre.input.len() {
        post == with_adjusted_input_scroll(
            EngineView {
                input: pre.input.remove(pre.cursor),
                ac_index: Option::<int>::None,
                ..pre
            },
        )
    } else {
        post == pre
    }
}

pub open spec fn rel_left(pre: EngineView, post: EngineView) -> bool {
    if pre.cursor > 0 {
        post == with_adjusted_input_scroll(EngineView { cursor: pre.cursor - 1, ..pre })
    } else {
        post == pre
    }
}

pub open spec fn rel_right(pre: EngineView, post: EngineView) -> bool {
    if pre.cursor < pre.input.len() {
        post == with_adjusted_input_scroll(EngineView { cursor: pre.cursor + 1, ..pre })
    } else {
        post == pre
    }
}

pub open spec fn rel_up(pre: EngineView, post: EngineView) -> bool {
    let l = line_of(pre.input, pre.cursor);
    let c = col_of(pre.input, pre.cursor);
    if l > 0 {
        post == with_adjusted_input_scroll(
            EngineView { cursor: offset_of(pre.input, l - 1, c), ..pre },
        )
    } else {
        post == pre
    }
}

pub open spec fn rel_down(pre: EngineView, post: EngineView) -> bool {
    let l = line_of(pre.input, pre.cursor);
    let c = col_of(pre.input, pre.cursor);
    if l + 1 < rendered_input_lines(pre.input) {
        post == with_adjusted_input_scroll(
            EngineView { cursor: offset_of(pre.input, l + 1, c), ..pre },
        )
    } else {
        post == pre
    }
}

pub open spec fn rel_home(pre: EngineView, post: EngineView) -> bool {
    post == with_adjusted_input_scroll(
        EngineView { cursor: offset_of(pre.input, line_of(pre.input, pre.cursor), 0), ..pre },
    )
}

pub open spec fn rel_end(pre: EngineView, post: EngineView) -> bool {
    let l = line_of(pre.input, pre.cursor);
    let lines = lines_spec(pre.input);
    if l < lines.len() {
        post == with_adjusted_input_scroll(
            EngineView { cursor: offset_of(pre.input, l, lines[l].len() as int), ..pre },
        )
    } else {
        post == with_adjusted_input_scroll(EngineView { cursor: pre.input.len() as int, ..pre })
    }
}

pub open spec fn rel_tab(pre: EngineView, post: EngineView) -> bool {
    let cnt = filtered_spec(command_names(), pre.input).len() as int;
    if cnt == 0 {
        post == pre
    } else {
        post == EngineView { ac_index: cycled_index(pre.ac_index, cnt), ..pre }
    }
}

pub open spec fn rel_esc(pre: EngineView, post: EngineView) -> bool {
    if filtered_spec(command_names(), pre.input).len() > 0 || pre.ac_index is Some {
        post == EngineView {
            ac_index: Option::<int>::None,
            input: Seq::empty(),
            cursor: 0,
            input_scroll: 0,
            ..pre
        }
    } else {
        post == pre
    }
}

pub open spec fn rel_page_up(pre: EngineView, post: EngineView) -> bool {
    post == EngineView { scroll: scrolled_up(pre.scroll, 10), ..pre }
}

pub open spec fn rel_page_down(pre: EngineView, post: EngineView) -> bool {
    post == EngineView { scroll: scrolled_down(pre.scroll, 10, line_count(pre.buffer)), ..pre }
}

pub open spec fn rel_wheel(pre: EngineView, post: EngineView, dir: ScrollDir) -> bool {
    match dir {
        ScrollDir::Up => post == EngineView { scroll: scrolled_up(pre.scroll, 3), ..pre },
        ScrollDir::Down => post == EngineView {
            scroll: scrolled_down(pre.scroll, 3, line_count(pre.buffer)),
            ..pre
        },
    }
}

pub open spec fn rel_undo(pre: EngineView, post: EngineView) -> bool {
    if pre.undo.len() == 0 {
        post == pre
    } else {
        let m = undone(pre.hist());
        post == EngineView {
            buffer: m.buffer,
            undo: m.undo,
            redo: m.redo,
            scroll: 0,
            info: Option::Some("Undo"@),
            ..pre
        }
    }
}

pub open spec fn rel_redo(pre: EngineView, post: EngineView) -> bool {
    if pre.redo.len() == 0 {
        post == pre
    } else {
        let m = redone(pre.hist());
        post == EngineView {
            buffer: m.buffer,
            undo: m.undo,
            redo: m.redo,
            scroll: 0,
            info: Option::Some("Redo"@),
            ..pre
        }
    }
}

/// A bracketed paste: inserted at the cursor, resetting the autocomplete
/// selection and following the cursor with the window.
pub open spec fn rel_paste(pre: EngineView, post: EngineView, text: Seq<char>) -> bool {
    post == with_adjusted_input_scroll(
        EngineView {
            input: pre.input.take(pre.cursor) + text + pre.input.skip(pre.cursor),
            cursor: pre.cursor + text.len(),
            ac_index: Option::<int>::None,
            ..pre
        },
    )
}

/// A clipboard paste via the keyboard shortcut: inserted at the cursor with
/// no autocomplete reset and no scroll adjustment.
pub open spec fn rel_clip_paste(pre: EngineView, post: EngineView, text: Seq<char>) -> bool {
    post == EngineView {
        input: pre.input.take(pre.cursor) + text + pre.input.skip(pre.cursor),
        cursor: pre.cursor + text.len(),
        ..pre
    }
}

/// The state every dispatch starts from: the pre-mutation buffer is
/// snapshotted onto the undo stack, the redo stack is invalidated, and both
/// transient messages are cleared. The snapshot is taken even when the
/// command then aborts on an empty buffer; that redundant undo entry is the
/// dispatcher's documented behaviour, not an accident.
pub open spec fn dispatched_base(pre: EngineView) -> EngineView {
    EngineView {
        undo: pushed_snapshot(pre.undo, pre.buffer),
        redo: Seq::empty(),
        error: Option::<Seq<char>>::None,
        info: Option::<Seq<char>>::None,
        ..pre
    }
}

/// A dispatch that aborted because the command needs a non-empty buffer.
pub open spec fn guard_failed(d: EngineView) -> EngineView {
    EngineView { error: Option::Some("Error: Buffer is empty"@), ..d }
}

/// A dispatch that replaced the buffer and rewound the output scroll.
pub open spec fn with_new_buffer(d: EngineView, t: Seq<char>) -> EngineView {
    EngineView { buffer: t, scroll: 0, ..d }
}

/// The message text of a base64 decode failure.
pub open spec fn decode_error_text(e: DecodeError) -> Seq<char> {
    match e {
        DecodeError::Base64DecodeError(..) => "invalid base64 input"@,
        DecodeError::FromUtf8Error(..) => "decoded base64 is not valid UTF-8"@,
    }
}

/// `post` agrees with `d` on everything except the buffer and the output
/// scroll (used where the new buffer is nondeterministic).
pub open spec fn same_but_buffer(post: EngineView, d: EngineView) -> bool {
    post == EngineView { buffer: post.buffer, scroll: post.scroll, ..d }
}

/// `post` agrees with `d` on everything except the error message (used
/// where only the message's prefix is pinned down).
pub open spec fn same_but_error(post: EngineView, d: EngineView) -> bool {
    post == EngineView { error: post.error, ..d }
}

/// The full dispatch contract: what each command does to the buffer, the
/// messages, the history and the output scroll, and which shell action it
/// requests. Input-editor fields are untouched.
pub open spec fn rel_dispatch(
    pre: EngineView,
    post: EngineView,
    cmd: CommandId,
    action: EngineAction,
) -> bool {
    let d = dispatched_base(pre);
    match cmd {
        CommandId::Base64Decode => action is Nothing && (if pre.buffer.len() == 0 {
            post == guard_failed(d)
        } else {
            match decode_outcome(pre.buffer) {
                Ok(t) => post == with_new_buffer(d, t),
                Err(e) => post == (EngineView {
                    error: Option::Some("Error: "@ + decode_error_text(e)),
                    ..d
                }),
            }
        }),
        CommandId::Base64Encode => action is Nothing && (if pre.buffer.len() == 0 {
            post == guard_failed(d)
        } else {
            post == with_new_buffer(d, b64_encode_of(encode_utf8(pre.buffer)))
        }),
        CommandId::Copy => (if pre.buffer.len() == 0 {
            post == guard_failed(d) && action is Nothing
        } else {
            post == d && (action matches EngineAction::CopyText(s) && s@ == pre.buffer)
        }),
        CommandId::CssFormat => action is Nothing && (if pre.buffer.len() == 0 {
            post == guard_failed(d)
        } else {
            match css_pretty_of(pre.buffer) {
                Option::Some(t) => post == with_new_buffer(d, t),
                Option::None => same_but_error(post, d) && (post.error matches Some(m)
                    && "Error: "@.is_prefix_of(m)),
            }
        }),
        CommandId::CssMinify => action is Nothing && (if pre.buffer.len() == 0 {
            post == guard_failed(d)
        } else {
            match css_min_of(pre.buffer) {
                Option::Some(t) => post == with_new_buffer(d, t),
                Option::None => same_but_error(post, d) && (post.error matches Some(m)
                    && "Error: "@.is_prefix_of(m)),
            }
        }),
        CommandId::Cuid => action is Nothing && same_but_buffer(post, d) && post.scroll == 0 && 1
            <= post.buffer.len() <= 24,
        CommandId::Exit => action is Nothing && post == (EngineView { exit: true, ..d }),
        CommandId::JsonFormat => action is Nothing && (if pre.buffer.len() == 0 {
            post == guard_failed(d)
        } else {
            match json_pretty_of(pre.buffer) {
                Option::Some(t) => post == with_new_buffer(d, t),
                Option::None => same_but_error(post, d) && (post.error matches Some(m) && (
                "Error: "@ + "Invalid JSON - "@).is_prefix_of(m)),
            }
        }),
        CommandId::JsonMinify => action is Nothing && (if pre.buffer.len() == 0 {
            post == guard_failed(d)
        } else {
            match json_min_of(pre.buffer) {
                Option::Some(t) => post == with_new_buffer(d, t),
                Option::None => same_but_error(post, d) && (post.error matches Some(m) && (
                "Error: "@ + "Invalid JSON - "@).is_prefix_of(m)),
            }
        }),
        CommandId::Sha256 => action is Nothing && (if pre.buffer.len() == 0 {
            post == guard_failed(d)
        } else {
            post == with_new_buffer(d, hex_of_bytes(sha256_of(encode_utf8(pre.buffer))))
        }),
        CommandId::Uuid => action is Nothing && same_but_buffer(post, d) && post.scroll == 0
            && post.buffer.len() == 36,
    }
}

/// `mid` restored to the input-editor fields of `pre`: the dispatch part of
/// a confirmation, seen before the input line is cleared.
pub open spec fn restore_input_fields(post: EngineView, pre: EngineView) -> EngineView {
    EngineView {
        input: pre.input,
        cursor: pre.cursor,
        ac_index: pre.ac_index,
        input_scroll: pre.input_scroll,
        ..post
    }
}

/// Enter without Shift. With a valid autocomplete selection the input is
/// replaced by the selected name (no dispatch). Otherwise non-empty input
/// is confirmed: an exact (trimmed) command name dispatches, anything else
/// replaces the buffer wholesale after an undo snapshot; either way the
/// input line is reset.
pub open spec fn rel_confirm(pre: EngineView, post: EngineView, action: EngineAction) -> bool {
    let filt = filtered_spec(command_names(), pre.input);
    if pre.ac_index matches Some(i) && 0 <= i < filt.len() {
        let name = filt[pre.ac_index->0];
        action is Nothing && post == (EngineView {
            input: name,
            cursor: name.len() as int,
            ac_index: Option::<int>::None,
            input_scroll: 0,
            ..pre
        })
    } else if pre.input.len() == 0 {
        action is Nothing && post == pre
    } else {
        match command_of(trim_spec(pre.input)) {
            Option::Some(cmd) => {
                &&& rel_dispatch(pre, restore_input_fields(post, pre), cmd, action)
                &&& post.input == Seq::<char>::empty()
                &&& post.cursor == 0
                &&& post.ac_index is None
                &&& post.input_scroll == 0
            },
            Option::None => action is Nothing && post == (EngineView {
                buffer: pre.input,
                undo: pushed_snapshot(pre.undo, pre.buffer),
                redo: Seq::empty(),
                input: Seq::empty(),
                cursor: 0,
                ac_index: Option::<int>::None,
                input_scroll: 0,
                ..pre
            }),
        }
    }
}

/// The whole key-event step: which relation each key (with its modifiers)
/// enforces, mirroring the dispatch order of the key handler.
pub open spec fn key_step(
    pre: EngineView,
    post: EngineView,
    key: KeyInput,
    mods: Modifiers,
    action: EngineAction,
) -> bool {
    match key {
        KeyInput::Char(c) => {
            if c == 'z' && (mods.ctrl || mods.sup) {
                action is Nothing && (if mods.shift {
                    rel_redo(pre, post)
                } else {
                    rel_undo(pre, post)
                })
            } else if (c == 'c' || c == 'd') && mods.ctrl {
                action is Nothing && post == (EngineView { exit: true, ..pre })
            } else if c == 'a' && mods.ctrl {
                action is Nothing && post == (EngineView { cursor: 0, ..pre })
            } else if c == 'e' && mods.ctrl {
                action is Nothing && post == (EngineView { cursor: pre.input.len() as int, ..pre })
            } else if c == 'v' && (mods.ctrl || mods.sup) {
                action is RequestPaste && post == pre
            } else {
                action is Nothing && rel_insert_char(pre, post, c)
            }
        },
        KeyInput::Enter => if mods.shift {
            action is Nothing && rel_insert_newline(pre, post)
        } else {
            rel_confirm(pre, post, action)
        },
        KeyInput::Tab => action is Nothing && rel_tab(pre, post),
        KeyInput::Backspace => action is Nothing && rel_backspace(pre, post),
        KeyInput::Delete => action is Nothing && rel_delete(pre, post),
        KeyInput::Up => action is Nothing && rel_up(pre, post),
        KeyInput::Down => action is Nothing && rel_down(pre, post),
        KeyInput::Left => action is Nothing && rel_left(pre, post),
        KeyInput::Right => action is Nothing && rel_right(pre, post),
        KeyInput::Home => action is Nothing && rel_home(pre, post),
        KeyInput::End => action is Nothing && rel_end(pre, post),
        KeyInput::PageUp => action is Nothing && rel_page_up(pre, post),
        KeyInput::PageDown => action is Nothing && rel_page_down(pre, post),
        KeyInput::Esc => action is Nothing && rel_esc(pre, post),
    }
}

/// The engine itself: the concrete state behind `EngineView`.
pub struct Engine {
    exit: bool,
    input: TextSpan,
    cursor_pos: usize,
    buffer: String,
    scroll_pos: usize,
    error_message: Option<String>,
    info_message: Option<String>,
    autocomplete_index: Option<usize>,
    input_scroll_line: usize,
    history: HistoryStack,
}

impl View for Engine {
    type V = EngineView;

    closed spec fn view(&self) -> EngineView {
        EngineView {
            exit: self.exit,
            input: self.input@,
            cursor: self.cursor_pos as int,
            buffer: self.buffer@,
            scroll: self.scroll_pos as int,
            error: match self.error_message {
                Option::Some(ref s) => Option::Some(s@),
                Option::None => Option::None,
            },
            info: match self.info_message {
                Option::Some(ref s) => Option::Some(s@),
                Option::None => Option::None,
            },
            ac_index: match self.autocomplete_index {
                Option::Some(i) => Option::Some(i as int),
                Option::None => Option::None,
            },
            input_scroll: self.input_scroll_line as int,
            undo: self.history.undo_view(),
            redo: self.history.redo_view(),
        }
    }
}

impl Engine {
    /// A fresh engine: empty input and buffer, no history, and the hint
    /// message shown on startup.
    pub fn new() -> (r: Engine)
        ensures
            r@.wf(),
            r@ == (EngineView {
                exit: false,
                input: Seq::<char>::empty(),
                cursor: 0,
                buffer: Seq::<char>::empty(),
                scroll: 0,
                error: Option::<Seq<char>>::None,
                info: Option::Some("Press / to show available commands"@),
                ac_index: Option::<int>::None,
                input_scroll: 0,
                undo: Seq::<Seq<char>>::empty(),
                redo: Seq::<Seq<char>>::empty(),
            }),
    {
        let r = Engine {
            exit: false,
            input: TextSpan::new(),
            cursor_pos: 0,
            buffer: String::new(),
            scroll_pos: 0,
            error_message: None,
            info_message: Some(String::from_str("Press / to show available commands")),
            autocomplete_index: None,
            input_scroll_line: 0,
            history: HistoryStack::new(),
        };
        proof {
            assert(r@ =~~= (EngineView {
                exit: false,
                input: Seq::<char>::empty(),
                cursor: 0,
                buffer: Seq::<char>::empty(),
                scroll: 0,
                error: Option::<Seq<char>>::None,
                info: Option::Some("Press / to show available commands"@),
                ac_index: Option::<int>::None,
                input_scroll: 0,
                undo: Seq::<Seq<char>>::empty(),
                redo: Seq::<Seq<char>>::empty(),
            }));
        }
        r
    }

    fn adjust_input_scroll(&mut self)
        requires
            old(self)@.wf(),
        ensures
            final(self)@.wf(),
            final(self)@ == with_adjusted_input_scroll(old(self)@),
    {
        let lc = offset_to_line_col(&self.input, self.cursor_pos);
        self.input_scroll_line = adjust_anchor(lc.0, self.input_scroll_line, MAX_VISIBLE_LINES);
        proof {
            assert(self@ =~~= with_adjusted_input_scroll(old(self)@));
        }
    }

    fn insert_char_at_cursor(&mut self, c: char)
        requires
            old(self)@.wf(),
        ensures
            final(self)@.wf(),
            rel_insert_char(old(self)@, final(self)@, c),
    {
        self.input.insert_char(self.cursor_pos, c);
        let new_len = self.input.len();
        proof {
            assert(self.cursor_pos < new_len);
        }
        self.cursor_pos = self.cursor_pos + 1;
        self.autocomplete_index = None;
        let ghost mid = self@;
        proof {
            assert(mid =~~= (EngineView {
                input: old(self)@.input.insert(old(self)@.cursor, c),
                cursor: old(self)@.cursor + 1,
                ac_index: Option::<int>::None,
                ..old(self)@
            }));
        }
        self.adjust_input_scroll();
    }

    fn insert_newline_at_cursor(&mut self)
        requires
            old(self)@.wf(),
        ensures
            final(self)@.wf(),
            rel_insert_newline(old(self)@, final(self)@),
    {
        self.input.insert_char(self.cursor_pos, '\n');
        let new_len = self.input.len();
        proof {
            assert(self.cursor_pos < new_len);
        }
        self.cursor_pos = self.cursor_pos + 1;
        let ghost mid = self@;
        proof {
            assert(mid =~~= (EngineView {
                input: old(self)@.input.insert(old(self)@.cursor, '\n'),
                cursor: old(self)@.cursor + 1,
                ..old(self)@
            }));
        }
        self.adjust_input_scroll();
    }

    fn backspace(&mut self)
        requires
            old(self)@.wf(),
        ensures
            final(self)@.wf(),
            rel_backspace(old(self)@, final(self)@),
    {
        if self.cursor_pos > 0 {
            self.cursor_pos = self.cursor_pos - 1;
            self.input.remove_char(self.cursor_pos);
            self.autocomplete_index = None;
            let ghost mid = self@;
            proof {
                assert(mid =~~= (EngineView {
                    input: old(self)@.input.remove(old(self)@.cursor - 1),
                    cursor: old(self)@.cursor - 1,
                    ac_index: Option::<int>::None,
                    ..old(self)@
                }));
            }
            self.adjust_input_scroll();
        }
    }

    fn delete_forward(&mut self)
        requires
            old(self)@.wf(),
        ensures
            final(self)@.wf(),
            rel_delete(old(self)@, final(self)@),
    {
        if self.cursor_pos < self.input.len() {
            self.input.remove_char(self.cursor_pos);
            self.autocomplete_index = None;
            let ghost mid = self@;
            proof {
                assert(mid =~~= (EngineView {
                    input: old(self)@.input.remove(old(self)@.cursor),
                    ac_index: Option::<int>::None,
                    ..old(self)@
                }));
            }
            self.adjust_input_scroll();
        }
    }

    fn move_left(&mut self)
        requires
            old(self)@.wf(),
        ensures
            final(self)@.wf(),
            rel_left(old(self)@, final(self)@),
    {
        if self.cursor_pos > 0 {
            self.cursor_pos = self.cursor_pos - 1;
            let ghost mid = self@;
            proof {
                assert(mid =~~= (EngineView { cursor: old(self)@.cursor - 1, ..old(self)@ }));
            }
            self.adjust_input_scroll();
        }
    }

    fn move_right(&mut self)
        requires
            old(self)@.wf(),
        ensures
            final(self)@.wf(),
            rel_right(old(self)@, final(self)@),
    {
        if self.cursor_pos < self.input.len() {
            self.cursor_pos = self.cursor_pos + 1;
            let ghost mid = self@;
            proof {
                assert(mid =~~= (EngineView { cursor: old(self)@.cursor + 1, ..old(self)@ }));
            }
            self.adjust_input_scroll();
        }
    }

    fn cursor_up(&mut self)
        requires
            old(self)@.wf(),
        ensures
            final(self)@.wf(),
            rel_up(old(self)@, final(self)@),
    {
        let lc = offset_to_line_col(&self.input, self.cursor_pos);
        if lc.0 > 0 {
            let p = line_col_to_offset(&self.input, lc.0 - 1, lc.1);
            self.cursor_pos = p;
            let ghost mid = self@;
            proof {
                assert(mid =~~= (EngineView {
                    cursor: offset_of(
                        old(self)@.input,
                        line_of(old(self)@.input, old(self)@.cursor) - 1,
                        col_of(old(self)@.input, old(self)@.cursor),
                    ),
                    ..old(self)@
                }));
            }
            self.adjust_input_scroll();
        }
    }

    fn cursor_down(&mut self)
        requires
            old(self)@.wf(),
        ensures
            final(self)@.wf(),
            rel_down(old(self)@, final(self)@),
    {
        let lc = offset_to_line_col(&self.input, self.cursor_pos);
        let total = rendered_input_line_count(&self.input);
        if lc.0 < total && total - lc.0 > 1 {
            let p = line_col_to_offset(&self.input, lc.0 + 1, lc.1);
            self.cursor_pos = p;
            let ghost mid = self@;
            proof {
                assert(mid =~~= (EngineView {
                    cursor: offset_of(
                        old(self)@.input,
                        line_of(old(self)@.input, old(self)@.cursor) + 1,
                        col_of(old(self)@.input, old(self)@.cursor),
                    ),
                    ..old(self)@
                }));
            }
            self.adjust_input_scroll();
        }
    }

    fn cursor_home(&mut self)
        requires
            old(self)@.wf(),
        ensures
            final(self)@.wf(),
            rel_home(old(self)@, final(self)@),
    {
        let lc = offset_to_line_col(&self.input, self.cursor_pos);
        let p = line_col_to_offset(&self.input, lc.0, 0);
        self.cursor_pos = p;
        let ghost mid = self@;
        proof {
            assert(mid =~~= (EngineView {
                cursor: offset_of(
                    old(self)@.input,
                    line_of(old(self)@.input, old(self)@.cursor),
                    0,
                ),
                ..old(self)@
            }));
        }
        self.adjust_input_scroll();
    }

    fn cursor_end(&mut self)
        requires
            old(self)@.wf(),
        ensures
            final(self)@.wf(),
            rel_end(old(self)@, final(self)@),
    {
        let lc = offset_to_line_col(&self.input, self.cursor_pos);
        let lines = split_lines(self.input.as_chars());
        if lc.0 < lines.len() {
            let target_col = lines[lc.0].len();
            proof {
                assert(lines@[lc.0 as int].deep_view() == lines.deep_view()[lc.0 as int]);
                assert(lines@[lc.0 as int].deep_view() =~= lines@[lc.0 as int]@);
            }
            let p = line_col_to_offset(&self.input, lc.0, target_col);
            self.cursor_pos = p;
            let ghost mid = self@;
            proof {
                let l = line_of(old(self)@.input, old(self)@.cursor);
                assert(mid =~~= (EngineView {
                    cursor: offset_of(
                        old(self)@.input,
                        l,
                        lines_spec(old(self)@.input)[l].len() as int,
                    ),
                    ..old(self)@
                }));
            }
        } else {
            self.cursor_pos = self.input.len();
            let ghost mid = self@;
            proof {
                assert(mid =~~= (EngineView {
                    cursor: old(self)@.input.len() as int,
                    ..old(self)@
                }));
            }
        }
        self.adjust_input_scroll();
    }

    fn cursor_to_start(&mut self)
        requires
            old(self)@.wf(),
        ensures
            final(self)@.wf(),
            final(self)@ == (EngineView { cursor: 0, ..old(self)@ }),
    {
        self.cursor_pos = 0;
        proof {
            assert(self@ =~~= (EngineView { cursor: 0, ..old(self)@ }));
        }
    }

    fn cursor_to_text_end(&mut self)
        requires
            old(self)@.wf(),
        ensures
            final(self)@.wf(),
            final(self)@ == (EngineView { cursor: old(self)@.input.len() as int, ..old(self)@ }),
    {
        self.cursor_pos = self.input.len();
        proof {
            assert(self@ =~~= (EngineView {
                cursor: old(self)@.input.len() as int,
                ..old(self)@
            }));
        }
    }

    fn tab_cycle(&mut self)
        requires
            old(self)@.wf(),
        ensures
            final(self)@.wf(),
            rel_tab(old(self)@, final(self)@),
    {
        let filtered = get_filtered_commands(&self.input);
        if filtered.len() > 0 {
            proof {
                assert(filtered.deep_view().len() == filtered@.len());
            }
            let next = cycle_index(self.autocomplete_index, filtered.len());
            self.autocomplete_index = next;
            proof {
                let cnt = filtered_spec(command_names(), old(self)@.input).len() as int;
                assert(self@ =~~= (EngineView {
                    ac_index: cycled_index(old(self)@.ac_index, cnt),
                    ..old(self)@
                }));
            }
        } else {
            proof {
                assert(filtered.deep_view().len() == filtered@.len());
            }
        }
    }

    fn esc_dismiss(&mut self)
        requires
            old(self)@.wf(),
        ensures
            final(self)@.wf(),
            rel_esc(old(self)@, final(self)@),
    {
        let filtered = get_filtered_commands(&self.input);
        proof {
            assert(filtered.deep_view().len() == filtered@.len());
        }
        if filtered.len() > 0 || self.autocomplete_index.is_some() {
            self.autocomplete_index = None;
            self.input = TextSpan::new();
            self.cursor_pos = 0;
            self.input_scroll_line = 0;
            proof {
                assert(self@ =~~= (EngineView {
                    ac_index: Option::<int>::None,
                    input: Seq::<char>::empty(),
                    cursor: 0,
                    input_scroll: 0,
                    ..old(self)@
                }));
            }
        }
    }

    fn page_up(&mut self)
        requires
            old(self)@.wf(),
        ensures
            final(self)@.wf(),
            rel_page_up(old(self)@, final(self)@),
    {
        self.scroll_pos = scroll_up(self.scroll_pos, 10);
        proof {
            assert(self@ =~~= (EngineView {
                scroll: scrolled_up(old(self)@.scroll, 10),
                ..old(self)@
            }));
        }
    }

    fn page_down(&mut self)
        requires
            old(self)@.wf(),
        ensures
            final(self)@.wf(),
            rel_page_down(old(self)@, final(self)@),
    {
        let chars = str_to_chars(self.buffer.as_str());
        let lines = count_lines(&chars);
        self.scroll_pos = scroll_down(self.scroll_pos, 10, lines);
        proof {
            assert(self@ =~~= (EngineView {
                scroll: scrolled_down(old(self)@.scroll, 10, line_count(old(self)@.buffer)),
                ..old(self)@
            }));
        }
    }

    /// One undo: restores the newest snapshot, remembers the replaced
    /// buffer for redo, rewinds the output scroll and reports "Undo".
    pub fn undo(&mut self)
        requires
            old(self)@.wf(),
        ensures
            final(self)@.wf(),
            rel_undo(old(self)@, final(self)@),
    {
        match self.history.undo(&self.buffer) {
            Some(prev) => {
                self.buffer = prev;
                self.scroll_pos = 0;
                self.info_message = Some(String::from_str("Undo"));
                proof {
                    let m = undone(old(self)@.hist());
                    assert(self@ =~~= (EngineView {
                        buffer: m.buffer,
                        undo: m.undo,
                        redo: m.redo,
                        scroll: 0,
                        info: Option::Some("Undo"@),
                        ..old(self)@
                    }));
                }
            },
            None => {
                proof {
                    assert(self@ =~~= old(self)@);
                }
            },
        }
    }

    /// One redo: restores the newest undone buffer, remembers the replaced
    /// buffer for undo, rewinds the output scroll and reports "Redo".
    pub fn redo(&mut self)
        requires
            old(self)@.wf(),
        ensures
            final(self)@.wf(),
            rel_redo(old(self)@, final(self)@),
    {
        match self.history.redo(&self.buffer) {
            Some(next) => {
                self.buffer = next;
                self.scroll_pos = 0;
                self.info_message = Some(String::from_str("Redo"));
                proof {
                    let m = redone(old(self)@.hist());
                    assert(self@ =~~= (EngineView {
                        buffer: m.buffer,
                        undo: m.undo,
                        redo: m.redo,
                        scroll: 0,
                        info: Option::Some("Redo"@),
                        ..old(self)@
                    }));
                }
            },
            None => {
                proof {
                    assert(self@ =~~= old(self)@);
                }
            },
        }
    }

    /// Dispatches one registry command against the current buffer: snapshot
    /// the buffer for undo, clear the messages, enforce the non-empty-buffer
    /// guard, then run the transform (or request the clipboard action).
    pub fn handle_command(&mut self, cmd: CommandId) -> (r: EngineAction)
        requires
            old(self)@.wf(),
        ensures
            final(self)@.wf(),
            rel_dispatch(old(self)@, final(self)@, cmd, r),
    {
        self.history.push_undo(&self.buffer);
        self.error_message = None;
        self.info_message = None;
        let ghost d = dispatched_base(old(self)@);
        proof {
            assert(self@ =~~= d);
        }
        if requires_nonempty(cmd) && self.buffer.as_str().is_empty() {
            self.error_message = Some(String::from_str("Error: Buffer is empty"));
            proof {
                assert(self@ =~~= guard_failed(d));
            }
            return EngineAction::Nothing;
        }
        match cmd {
            CommandId::Base64Decode => {
                let result = base64_decode(self.buffer.as_str());
                match result {
                    Ok(s) => {
                        self.buffer = s;
                        self.scroll_pos = 0;
                        proof {
                            assert(self@ =~~= with_new_buffer(
                                d,
                                decode_outcome(old(self)@.buffer)->Ok_0,
                            ));
                        }
                    },
                    Err(e) => {
                        let msg = String::from_str("Error: ").concat(e.message());
                        self.error_message = Some(msg);
                        proof {
                            let se = decode_outcome(old(self)@.buffer)->Err_0;
                            assert(self@.error == Option::Some(
                                "Error: "@ + decode_error_text(se),
                            ));
                            assert(self@ =~~= (EngineView {
                                error: Option::Some("Error: "@ + decode_error_text(se)),
                                ..d
                            }));
                        }
                    },
                }
            },
            CommandId::Base64Encode => {
                let encoded = base64_encode(self.buffer.as_str());
                self.buffer = encoded;
                self.scroll_pos = 0;
                proof {
                    assert(self@ =~~= with_new_buffer(
                        d,
                        b64_encode_of(encode_utf8(old(self)@.buffer)),
                    ));
                }
            },
            CommandId::Copy => {
                let text = self.buffer.clone();
                return EngineAction::CopyText(text);
            },
            CommandId::CssFormat => {
                let result = css_format(self.buffer.as_str());
                match result {
                    Ok(s) => {
                        self.buffer = s;
                        self.scroll_pos = 0;
                        proof {
                            assert(self@ =~~= with_new_buffer(
                                d,
                                css_pretty_of(old(self)@.buffer)->Some_0,
                            ));
                        }
                    },
                    Err(e) => {
                        let m = e.message();
                        let msg = String::from_str("Error: ").concat(m.as_str());
                        self.error_message = Some(msg);
                        proof {
                            assert(self@ =~~= (EngineView { error: self@.error, ..d }));
                            let emsg = self@.error->Some_0;
                            assert("Error: "@.is_prefix_of(emsg)) by {
                                assert(emsg.subrange(0, "Error: "@.len() as int) =~= "Error: "@);
                            }
                        }
                    },
                }
            },
            CommandId::CssMinify => {
                let result = css_minify(self.buffer.as_str());
                match result {
                    Ok(s) => {
                        self.buffer = s;
                        self.scroll_pos = 0;
                        proof {
                            assert(self@ =~~= with_new_buffer(
                                d,
                                css_min_of(old(self)@.buffer)->Some_0,
                            ));
                        }
                    },
                    Err(e) => {
                        let m = e.message();
                        let msg = String::from_str("Error: ").concat(m.as_str());
                        self.error_message = Some(msg);
                        proof {
                            assert(self@ =~~= (EngineView { error: self@.error, ..d }));
                            let emsg = self@.error->Some_0;
                            assert("Error: "@.is_prefix_of(emsg)) by {
                                assert(emsg.subrange(0, "Error: "@.len() as int) =~= "Error: "@);
                            }
                        }
                    },
                }
            },
            CommandId::Cuid => {
                let id = new_cuid_string();
                self.buffer = id;
                self.scroll_pos = 0;
                proof {
                    assert(self@ =~~= (EngineView {
                        buffer: self@.buffer,
                        scroll: self@.scroll,
                        ..d
                    }));
                }
            },
            CommandId::Exit => {
                self.exit = true;
                proof {
                    assert(self@ =~~= (EngineView { exit: true, ..d }));
                }
            },
            CommandId::JsonFormat => {
                let result = json_format(self.buffer.as_str());
                match result {
                    Ok(s) => {
                        self.buffer = s;
                        self.scroll_pos = 0;
                        proof {
                            assert(self@ =~~= with_new_buffer(
                                d,
                                json_pretty_of(old(self)@.buffer)->Some_0,
                            ));
                        }
                    },
                    Err(e) => {
                        let m = e.message();
                        let msg = String::from_str("Error: ").concat(m.as_str());
                        self.error_message = Some(msg);
                        proof {
                            assert(self@ =~~= (EngineView { error: self@.error, ..d }));
                            let emsg = self@.error->Some_0;
                            assert(("Error: "@ + "Invalid JSON - "@).is_prefix_of(emsg)) by {
                                assert(emsg.subrange(
                                    0,
                                    ("Error: "@ + "Invalid JSON - "@).len() as int,
                                ) =~= "Error: "@ + "Invalid JSON - "@);
                            }
                        }
                    },
                }
            },
            CommandId::JsonMinify => {
                let result = json_minify(self.buffer.as_str());
                match result {
                    Ok(s) => {
                        self.buffer = s;
                        self.scroll_pos = 0;
                        proof {
                            assert(self@ =~~= with_new_buffer(
                                d,
                                json_min_of(old(self)@.buffer)->Some_0,
                            ));
                        }
                    },
                    Err(e) => {
                        let m = e.message();
                        let msg = String::from_str("Error: ").concat(m.as_str());
                        self.error_message = Some(msg);
                        proof {
                            assert(self@ =~~= (EngineView { error: self@.error, ..d }));
                            let emsg = self@.error->Some_0;
                            assert(("Error: "@ + "Invalid JSON - "@).is_prefix_of(emsg)) by {
                                assert(emsg.subrange(
                                    0,
                                    ("Error: "@ + "Invalid JSON - "@).len() as int,
                                ) =~= "Error: "@ + "Invalid JSON - "@);
                            }
                        }
                    },
                }
            },
            CommandId::Sha256 => {
                let digest = sha256_hex(self.buffer.as_str());
                self.buffer = digest;
                self.scroll_pos = 0;
                proof {
                    assert(self@ =~~= with_new_buffer(
                        d,
                        hex_of_bytes(sha256_of(encode_utf8(old(self)@.buffer))),
                    ));
                }
            },
            CommandId::Uuid => {
                let id = new_uuid_string();
                self.buffer = id;
                self.scroll_pos = 0;
                proof {
                    assert(self@ =~~= (EngineView {
                        buffer: self@.buffer,
                        scroll: self@.scroll,
                        ..d
                    }));
                }
            },
        }
        EngineAction::Nothing
    }

    /// Enter without Shift: select the autocomplete candidate, or confirm
    /// the input line (dispatch a command or replace the buffer).
    fn confirm(&mut self) -> (r: EngineAction)
        requires
            old(self)@.wf(),
        ensures
            final(self)@.wf(),
            rel_confirm(old(self)@, final(self)@, r),
    {
        let filtered = get_filtered_commands(&self.input);
        if let Some(index) = self.autocomplete_index {
            if index < filtered.len() {
                proof {
                    assert(filtered.deep_view().len() == filtered@.len());
                    assert(filtered@[index as int]@ == filtered.deep_view()[index as int]);
                }
                let name: &str = filtered[index];
                self.input = TextSpan::from_str(name);
                self.cursor_pos = self.input.len();
                self.autocomplete_index = None;
                self.input_scroll_line = 0;
                proof {
                    let filt = filtered_spec(command_names(), old(self)@.input);
                    assert(self@ =~~= (EngineView {
                        input: filt[old(self)@.ac_index->0],
                        cursor: filt[old(self)@.ac_index->0].len() as int,
                        ac_index: Option::<int>::None,
                        input_scroll: 0,
                        ..old(self)@
                    }));
                }
                return EngineAction::Nothing;
            }
            proof {
                assert(filtered.deep_view().len() == filtered@.len());
            }
        }
        if self.input.len() > 0 {
            let trimmed = self.input.trimmed();
            match lookup_command(&trimmed) {
                Some(cmd) => {
                    let action = self.handle_command(cmd);
                    let ghost mid = self@;
                    self.input = TextSpan::new();
                    self.cursor_pos = 0;
                    self.autocomplete_index = None;
                    self.input_scroll_line = 0;
                    proof {
                        assert(restore_input_fields(self@, old(self)@) =~~= mid);
                        assert(self@.input =~= Seq::<char>::empty());
                    }
                    action
                },
                None => {
                    let text = self.input.to_string_owned();
                    self.history.push_undo(&self.buffer);
                    self.buffer = text;
                    self.input = TextSpan::new();
                    self.cursor_pos = 0;
                    self.autocomplete_index = None;
                    self.input_scroll_line = 0;
                    proof {
                        assert(self@ =~~= (EngineView {
                            buffer: old(self)@.input,
                            undo: pushed_snapshot(old(self)@.undo, old(self)@.buffer),
                            redo: Seq::<Seq<char>>::empty(),
                            input: Seq::<char>::empty(),
                            cursor: 0,
                            ac_index: Option::<int>::None,
                            input_scroll: 0,
                            ..old(self)@
                        }));
                    }
                    EngineAction::Nothing
                },
            }
        } else {
            proof {
                assert(self@ =~~= old(self)@);
            }
            EngineAction::Nothing
        }
    }

    /// Handles one key press to completion, returning what the shell must
    /// do afterwards.
    pub fn handle_key(&mut self, key: KeyInput, mods: Modifiers) -> (r: EngineAction)
        requires
            old(self)@.wf(),
        ensures
            final(self)@.wf(),
            key_step(old(self)@, final(self)@, key, mods, r),
    {
        match key {
            KeyInput::Char(c) => {
                if c == 'z' && (mods.ctrl || mods.sup) {
                    if mods.shift {
                        self.redo();
                    } else {
                        self.undo();
                    }
                    EngineAction::Nothing
                } else if (c == 'c' || c == 'd') && mods.ctrl {
                    self.exit = true;
                    proof {
                        assert(self@ =~~= (EngineView { exit: true, ..old(self)@ }));
                    }
                    EngineAction::Nothing
                } else if c == 'a' && mods.ctrl {
                    self.cursor_to_start();
                    EngineAction::Nothing
                } else if c == 'e' && mods.ctrl {
                    self.cursor_to_text_end();
                    EngineAction::Nothing
                } else if c == 'v' && (mods.ctrl || mods.sup) {
                    proof {
                        assert(self@ =~~= old(self)@);
                    }
                    EngineAction::RequestPaste
                } else {
                    self.insert_char_at_cursor(c);
                    EngineAction::Nothing
                }
            },
            KeyInput::Enter => {
                if mods.shift {
                    self.insert_newline_at_cursor();
                    EngineAction::Nothing
                } else {
                    self.confirm()
                }
            },
            KeyInput::Tab => {
                self.tab_cycle();
                EngineAction::Nothing
            },
            KeyInput::Backspace => {
                self.backspace();
                EngineAction::Nothing
            },
            KeyInput::Delete => {
                self.delete_forward();
                EngineAction::Nothing
            },
            KeyInput::Up => {
                self.cursor_up();
                EngineAction::Nothing
            },
            KeyInput::Down => {
                self.cursor_down();
                EngineAction::Nothing
            },
            KeyInput::Left => {
                self.move_left();
                EngineAction::Nothing
            },
            KeyInput::Right => {
                self.move_right();
                EngineAction::Nothing
            },
            KeyInput::Home => {
                self.cursor_home();
                EngineAction::Nothing
            },
            KeyInput::End => {
                self.cursor_end();
                EngineAction::Nothing
            },
            KeyInput::PageUp => {
                self.page_up();
                EngineAction::Nothing
            },
            KeyInput::PageDown => {
                self.page_down();
                EngineAction::Nothing
            },
            KeyInput::Esc => {
                self.esc_dismiss();
                EngineAction::Nothing
            },
        }
    }

    /// Handles one mouse-wheel event: three lines up or down on the output
    /// viewport.
    pub fn handle_mouse(&mut self, dir: ScrollDir)
        requires
            old(self)@.wf(),
        ensures
            final(self)@.wf(),
            rel_wheel(old(self)@, final(self)@, dir),
    {
        match dir {
            ScrollDir::Up => {
                self.scroll_pos = scroll_up(self.scroll_pos, 3);
                proof {
                    assert(self@ =~~= (EngineView {
                        scroll: scrolled_up(old(self)@.scroll, 3),
                        ..old(self)@
                    }));
                }
            },
            ScrollDir::Down => {
                let chars = str_to_chars(self.buffer.as_str());
                let lines = count_lines(&chars);
                self.scroll_pos = scroll_down(self.scroll_pos, 3, lines);
                proof {
                    assert(self@ =~~= (EngineView {
                        scroll: scrolled_down(old(self)@.scroll, 3, line_count(old(self)@.buffer)),
                        ..old(self)@
                    }));
                }
            },
        }
    }

    /// Handles a bracketed-paste event: the text goes in at the cursor, the
    /// autocomplete selection resets and the window follows the cursor.
    pub fn paste(&mut self, text: &str)
        requires
            old(self)@.wf(),
        ensures
            final(self)@.wf(),
            rel_paste(old(self)@, final(self)@, text@),
    {
        let chars = str_to_chars(text);
        self.input.insert_chars(self.cursor_pos, &chars);
        let new_len = self.input.len();
        let n = chars.len();
        proof {
            assert(self.cursor_pos + n <= new_len);
        }
        self.cursor_pos = self.cursor_pos + n;
        self.autocomplete_index = None;
        let ghost mid = self@;
        proof {
            assert(mid =~~= (EngineView {
                input: old(self)@.input.take(old(self)@.cursor) + text@ + old(self)@.input.skip(
                    old(self)@.cursor,
                ),
                cursor: old(self)@.cursor + text@.len(),
                ac_index: Option::<int>::None,
                ..old(self)@
            }));
        }
        self.adjust_input_scroll();
    }

    /// Inserts text read from the system clipboard at the cursor, exactly
    /// as the paste shortcut does: no autocomplete reset, no scrolling.
    pub fn insert_clipboard_text(&mut self, text: &str)
        requires
            old(self)@.wf(),
        ensures
            final(self)@.wf(),
            rel_clip_paste(old(self)@, final(self)@, text@),
    {
        let chars = str_to_chars(text);
        self.input.insert_chars(self.cursor_pos, &chars);
        let new_len = self.input.len();
        let n = chars.len();
        proof {
            assert(self.cursor_pos + n <= new_len);
        }
        self.cursor_pos = self.cursor_pos + n;
        proof {
            assert(self@ =~~= (EngineView {
                input: old(self)@.input.take(old(self)@.cursor) + text@ + old(self)@.input.skip(
                    old(self)@.cursor,
                ),
                cursor: old(self)@.cursor + text@.len(),
                ..old(self)@
            }));
        }
    }

    /// Records how the clipboard copy went: a confirmation notice on
    /// success, an error message on failure.
    pub fn note_copy_result(&mut self, ok: bool)
        requires
            old(self)@.wf(),
        ensures
            final(self)@.wf(),
            ok ==> final(self)@ == (EngineView {
                info: Option::Some("Copied to clipboard"@),
                ..old(self)@
            }),
            !ok ==> final(self)@ == (EngineView {
                error: Option::Some("Error: Failed to copy to clipboard"@),
                ..old(self)@
            }),
    {
        if ok {
            self.info_message = Some(String::from_str("Copied to clipboard"));
            proof {
                assert(self@ =~~= (EngineView {
                    info: Option::Some("Copied to clipboard"@),
                    ..old(self)@
                }));
            }
        } else {
            self.error_message = Some(String::from_str("Error: Failed to copy to clipboard"));
            proof {
                assert(self@ =~~= (EngineView {
                    error: Option::Some("Error: Failed to copy to clipboard"@),
                    ..old(self)@
                }));
            }
        }
    }

    pub fn exited(&self) -> (r: bool)
        ensures
            r == self@.exit,
    {
        self.exit
    }

    pub fn buffer_text(&self) -> (r: &String)
        ensures
            r@ == self@.buffer,
    {
        &self.buffer
    }

    pub fn input_span(&self) -> (r: &TextSpan)
        ensures
            r@ == self@.input,
    {
        &self.input
    }

    pub fn cursor(&self) -> (r: usize)
        ensures
            r as int == self@.cursor,
    {
        self.cursor_pos
    }

    pub fn output_scroll(&self) -> (r: usize)
        ensures
            r as int == self@.scroll,
    {
        self.scroll_pos
    }

    pub fn input_scroll(&self) -> (r: usize)
        ensures
            r as int == self@.input_scroll,
    {
        self.input_scroll_line
    }

    pub fn error_text(&self) -> (r: Option<String>)
        ensures
            match (r, self@.error) {
                (Option::Some(s), Option::Some(t)) => s@ == t,
                (Option::None, Option::None) => true,
                _ => false,
            },
    {
        match &self.error_message {
            Some(s) => Some(s.clone()),
            None => None,
        }
    }

    pub fn info_text(&self) -> (r: Option<String>)
        ensures
            match (r, self@.info) {
                (Option::Some(s), Option::Some(t)) => s@ == t,
                (Option::None, Option::None) => true,
                _ => false,
            },
    {
        match &self.info_message {
            Some(s) => Some(s.clone()),
            None => None,
        }
    }

    pub fn autocomplete_selection(&self) -> (r: Option<usize>)
        ensures
            match (r, self@.ac_index) {
                (Option::Some(i), Option::Some(j)) => i as int == j,
                (Option::None, Option::None) => true,
                _ => false,
            },
    {
        self.autocomplete_index
    }

    pub fn history(&self) -> (r: &HistoryStack)
        ensures
            r.undo_view() == self@.undo,
            r.redo_view() == self@.redo,
    {
        &self.history
    }

    /// The cursor's (line, column) coordinates in the input editor.
    pub fn cursor_line_col(&self) -> (r: (usize, usize))
        requires
            self@.wf(),
        ensures
            r.0 == line_of(self@.input, self@.cursor),
            r.1 == col_of(self@.input, self@.cursor),
    {
        offset_to_line_col(&self.input, self.cursor_pos)
    }

    /// Whether the (trimmed) input names a registered command exactly; the
    /// paint boundary bolds the input line when it does.
    pub fn input_matches_command(&self) -> (r: bool)
        ensures
            r == (command_of(trim_spec(self@.input)) is Some),
    {
        let trimmed = self.input.trimmed();
        lookup_command(&trimmed).is_some()
    }
}

} // verus!
