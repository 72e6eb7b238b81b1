use pomp::autocomplete::get_filtered_commands;
use pomp::engine::{Engine, EngineAction, KeyInput, Modifiers, ScrollDir};
use pomp::registry::{get_available_commands, CommandId};

fn no_mods() -> Modifiers {
    Modifiers { ctrl: false, shift: false, sup: false }
}

fn shift() -> Modifiers {
    Modifiers { ctrl: false, shift: true, sup: false }
}

fn type_text(engine: &mut Engine, text: &str) {
    for c in text.chars() {
        engine.handle_key(KeyInput::Char(c), no_mods());
    }
}

fn confirm(engine: &mut Engine) -> EngineAction {
    engine.handle_key(KeyInput::Enter, no_mods())
}

fn set_buffer(engine: &mut Engine, text: &str) {
    type_text(engine, text);
    confirm(engine);
}

fn dispatch(engine: &mut Engine, command: &str) -> EngineAction {
    type_text(engine, command);
    confirm(engine)
}

#[test]
fn test_decode_scenario_replaces_buffer() {
    let mut engine = Engine::new();
    set_buffer(&mut engine, "SGVsbG8gV29ybGQ=");
    assert_eq!(engine.buffer_text(), "SGVsbG8gV29ybGQ=");
    dispatch(&mut engine, "/base64-decode");
    assert_eq!(engine.buffer_text(), "Hello World");
    assert_eq!(engine.error_text(), None);
}

#[test]
fn test_decode_scenario_empty_buffer_errors() {
    let mut engine = Engine::new();
    dispatch(&mut engine, "/base64-decode");
    assert_eq!(engine.buffer_text(), "");
    assert_eq!(engine.error_text().unwrap(), "Error: Buffer is empty");
    assert_eq!(engine.history().undo_len(), 1);
    assert_eq!(engine.history().undo_at(0), "");
}

#[test]
fn test_autocomplete_scenario_js_prefix() {
    let mut engine = Engine::new();
    type_text(&mut engine, "/js");
    let candidates = get_filtered_commands(engine.input_span());
    assert_eq!(candidates, vec!["/json-format", "/json-minify"]);
    assert_eq!(engine.autocomplete_selection(), None);
    engine.handle_key(KeyInput::Tab, no_mods());
    assert_eq!(engine.autocomplete_selection(), Some(0));
    engine.handle_key(KeyInput::Tab, no_mods());
    assert_eq!(engine.autocomplete_selection(), Some(1));
    engine.handle_key(KeyInput::Tab, no_mods());
    assert_eq!(engine.autocomplete_selection(), Some(0));
}

#[test]
fn test_autocomplete_single_candidate_wraps_to_itself() {
    let mut engine = Engine::new();
    type_text(&mut engine, "/uu");
    let candidates = get_filtered_commands(engine.input_span());
    assert_eq!(candidates, vec!["/uuid"]);
    engine.handle_key(KeyInput::Tab, no_mods());
    assert_eq!(engine.autocomplete_selection(), Some(0));
    engine.handle_key(KeyInput::Tab, no_mods());
    assert_eq!(engine.autocomplete_selection(), Some(0));
}

#[test]
fn test_autocomplete_inactive_without_prefix() {
    let mut engine = Engine::new();
    type_text(&mut engine, "json");
    let candidates = get_filtered_commands(engine.input_span());
    assert!(candidates.is_empty());
}

#[test]
fn test_autocomplete_filter_is_idempotent() {
    let mut engine = Engine::new();
    type_text(&mut engine, "/c");
    let first = get_filtered_commands(engine.input_span());
    let second = get_filtered_commands(engine.input_span());
    assert_eq!(first, second);
    assert_eq!(first, vec!["/copy", "/css-format", "/css-minify", "/cuid"]);
}

#[test]
fn test_autocomplete_selection_resets_on_edit() {
    let mut engine = Engine::new();
    type_text(&mut engine, "/js");
    engine.handle_key(KeyInput::Tab, no_mods());
    assert_eq!(engine.autocomplete_selection(), Some(0));
    type_text(&mut engine, "o");
    assert_eq!(engine.autocomplete_selection(), None);
}

#[test]
fn test_autocomplete_confirm_selects_without_dispatch() {
    let mut engine = Engine::new();
    type_text(&mut engine, "/uu");
    engine.handle_key(KeyInput::Tab, no_mods());
    confirm(&mut engine);
    // The selection replaced the input; no command ran yet.
    assert_eq!(engine.input_span().to_string_owned(), "/uuid");
    assert_eq!(engine.buffer_text(), "");
    // A second confirmation dispatches.
    confirm(&mut engine);
    assert_eq!(engine.buffer_text().chars().count(), 36);
}

#[test]
fn test_uuid_scenario_two_fresh_values() {
    let mut engine = Engine::new();
    dispatch(&mut engine, "/uuid");
    let first = engine.buffer_text().clone();
    dispatch(&mut engine, "/uuid");
    let second = engine.buffer_text().clone();
    assert_ne!(first, second);
    for id in [first, second] {
        assert_eq!(id.chars().count(), 36);
        let hyphens: Vec<usize> = id
            .chars()
            .enumerate()
            .filter(|(_, c)| *c == '-')
            .map(|(i, _)| i)
            .collect();
        assert_eq!(hyphens, vec![8, 13, 18, 23]);
    }
}

#[test]
fn test_cuid_generates_id() {
    let mut engine = Engine::new();
    dispatch(&mut engine, "/cuid");
    let first = engine.buffer_text().clone();
    dispatch(&mut engine, "/cuid");
    let second = engine.buffer_text().clone();
    assert_ne!(first, second);
    assert!(!first.is_empty() && first.chars().count() <= 24);
}

#[test]
fn test_input_scroll_scenario_seven_lines() {
    let mut engine = Engine::new();
    type_text(&mut engine, "a");
    for line in ["b", "c", "d", "e", "f", "g"] {
        engine.handle_key(KeyInput::Enter, shift());
        type_text(&mut engine, line);
    }
    // Seven lines typed; the cursor sits on line 6 (zero-based).
    assert_eq!(engine.cursor_line_col().0, 6);
    assert_eq!(engine.input_scroll(), 2);
}

#[test]
fn test_cursor_movement_keys() {
    let mut engine = Engine::new();
    type_text(&mut engine, "ab");
    engine.handle_key(KeyInput::Enter, shift());
    type_text(&mut engine, "cd");
    assert_eq!(engine.cursor_line_col(), (1, 2));
    engine.handle_key(KeyInput::Up, no_mods());
    assert_eq!(engine.cursor_line_col(), (0, 2));
    engine.handle_key(KeyInput::Home, no_mods());
    assert_eq!(engine.cursor_line_col(), (0, 0));
    engine.handle_key(KeyInput::Down, no_mods());
    assert_eq!(engine.cursor_line_col(), (1, 0));
    engine.handle_key(KeyInput::End, no_mods());
    assert_eq!(engine.cursor_line_col(), (1, 2));
    engine.handle_key(KeyInput::Left, no_mods());
    assert_eq!(engine.cursor_line_col(), (1, 1));
    engine.handle_key(KeyInput::Right, no_mods());
    assert_eq!(engine.cursor_line_col(), (1, 2));
}

#[test]
fn test_backspace_and_delete_keys() {
    let mut engine = Engine::new();
    type_text(&mut engine, "abc");
    engine.handle_key(KeyInput::Backspace, no_mods());
    assert_eq!(engine.input_span().to_string_owned(), "ab");
    assert_eq!(engine.cursor(), 2);
    engine.handle_key(KeyInput::Left, no_mods());
    engine.handle_key(KeyInput::Left, no_mods());
    engine.handle_key(KeyInput::Delete, no_mods());
    assert_eq!(engine.input_span().to_string_owned(), "b");
    assert_eq!(engine.cursor(), 0);
    // Backspace at the start and delete at the end are no-ops.
    engine.handle_key(KeyInput::Backspace, no_mods());
    engine.handle_key(KeyInput::Right, no_mods());
    engine.handle_key(KeyInput::Delete, no_mods());
    assert_eq!(engine.input_span().to_string_owned(), "b");
}

#[test]
fn test_sha256_scenario() {
    let mut engine = Engine::new();
    set_buffer(&mut engine, "abc");
    dispatch(&mut engine, "/sha-256");
    assert_eq!(
        engine.buffer_text(),
        "ba7816bf8f01cfea414140de5dae2223b00361a396177a9cb410ff61f20015ad"
    );
}

#[test]
fn test_undo_redo_inverse_over_commands() {
    let mut engine = Engine::new();
    set_buffer(&mut engine, "hello");
    dispatch(&mut engine, "/base64-encode");
    let b1 = engine.buffer_text().clone();
    dispatch(&mut engine, "/sha-256");
    let b2 = engine.buffer_text().clone();
    engine.undo();
    assert_eq!(engine.buffer_text(), &b1);
    engine.undo();
    assert_eq!(engine.buffer_text(), "hello");
    engine.redo();
    assert_eq!(engine.buffer_text(), &b1);
    engine.redo();
    assert_eq!(engine.buffer_text(), &b2);
    assert_eq!(engine.info_text().unwrap(), "Redo");
}

#[test]
fn test_undo_on_empty_history_is_noop() {
    let mut engine = Engine::new();
    engine.undo();
    assert_eq!(engine.buffer_text(), "");
    // The startup hint is untouched because nothing was undone.
    assert_eq!(engine.info_text().unwrap(), "Press / to show available commands");
}

#[test]
fn test_new_edit_clears_redo() {
    let mut engine = Engine::new();
    set_buffer(&mut engine, "one");
    set_buffer(&mut engine, "two");
    engine.undo();
    assert_eq!(engine.buffer_text(), "one");
    assert_eq!(engine.history().redo_len(), 1);
    set_buffer(&mut engine, "three");
    assert_eq!(engine.history().redo_len(), 0);
}

#[test]
fn test_plain_confirm_replaces_buffer_untrimmed() {
    let mut engine = Engine::new();
    set_buffer(&mut engine, "  spaced out  ");
    assert_eq!(engine.buffer_text(), "  spaced out  ");
    assert_eq!(engine.input_span().to_string_owned(), "");
    assert_eq!(engine.cursor(), 0);
}

#[test]
fn test_command_dispatch_trims_input() {
    let mut engine = Engine::new();
    set_buffer(&mut engine, "hi");
    dispatch(&mut engine, "  /base64-encode ");
    assert_eq!(engine.buffer_text(), "aGk=");
}

#[test]
fn test_unknown_slash_text_is_plain_edit() {
    let mut engine = Engine::new();
    dispatch(&mut engine, "/no-such-command");
    assert_eq!(engine.buffer_text(), "/no-such-command");
    assert_eq!(engine.error_text(), None);
}

#[test]
fn test_exit_command_sets_flag() {
    let mut engine = Engine::new();
    assert!(!engine.exited());
    dispatch(&mut engine, "/exit");
    assert!(engine.exited());
}

#[test]
fn test_ctrl_c_exits() {
    let mut engine = Engine::new();
    engine.handle_key(
        KeyInput::Char('c'),
        Modifiers { ctrl: true, shift: false, sup: false },
    );
    assert!(engine.exited());
}

#[test]
fn test_copy_action_and_result_messages() {
    let mut engine = Engine::new();
    set_buffer(&mut engine, "clip me");
    let action = dispatch(&mut engine, "/copy");
    match action {
        EngineAction::CopyText(text) => assert_eq!(text, "clip me"),
        _ => panic!("copy must request the clipboard action"),
    }
    engine.note_copy_result(true);
    assert_eq!(engine.info_text().unwrap(), "Copied to clipboard");
    engine.note_copy_result(false);
    assert_eq!(engine.error_text().unwrap(), "Error: Failed to copy to clipboard");
}

#[test]
fn test_copy_empty_buffer_errors() {
    let mut engine = Engine::new();
    let action = dispatch(&mut engine, "/copy");
    assert!(matches!(action, EngineAction::Nothing));
    assert_eq!(engine.error_text().unwrap(), "Error: Buffer is empty");
}

#[test]
fn test_paste_resets_autocomplete() {
    let mut engine = Engine::new();
    type_text(&mut engine, "/js");
    engine.handle_key(KeyInput::Tab, no_mods());
    engine.paste("on");
    assert_eq!(engine.input_span().to_string_owned(), "/json");
    assert_eq!(engine.autocomplete_selection(), None);
}

#[test]
fn test_clipboard_shortcut_requests_paste() {
    let mut engine = Engine::new();
    let action = engine.handle_key(
        KeyInput::Char('v'),
        Modifiers { ctrl: true, shift: false, sup: false },
    );
    assert!(matches!(action, EngineAction::RequestPaste));
    engine.insert_clipboard_text("pasted");
    assert_eq!(engine.input_span().to_string_owned(), "pasted");
    assert_eq!(engine.cursor(), 6);
}

#[test]
fn test_invalid_json_sets_error_and_keeps_buffer() {
    let mut engine = Engine::new();
    set_buffer(&mut engine, "not json");
    dispatch(&mut engine, "/json-format");
    assert_eq!(engine.buffer_text(), "not json");
    assert!(engine.error_text().unwrap().starts_with("Error: Invalid JSON - "));
}

#[test]
fn test_json_format_via_engine() {
    let mut engine = Engine::new();
    set_buffer(&mut engine, "{\"k\":[1,2]}");
    dispatch(&mut engine, "/json-format");
    assert_eq!(engine.buffer_text(), "{\n  \"k\": [\n    1,\n    2\n  ]\n}");
}

#[test]
fn test_css_minify_via_engine() {
    let mut engine = Engine::new();
    set_buffer(&mut engine, "a { color: red; }");
    dispatch(&mut engine, "/css-minify");
    assert_eq!(engine.buffer_text(), "a{color:red}");
}

#[test]
fn test_output_scroll_clamps() {
    let mut engine = Engine::new();
    let mut text = String::new();
    for i in 0..30 {
        if i > 0 {
            text.push('\n');
        }
        text.push_str(&format!("line {}", i));
    }
    set_buffer(&mut engine, &text);
    engine.handle_key(KeyInput::PageDown, no_mods());
    assert_eq!(engine.output_scroll(), 10);
    engine.handle_key(KeyInput::PageDown, no_mods());
    assert_eq!(engine.output_scroll(), 20);
    engine.handle_key(KeyInput::PageDown, no_mods());
    assert_eq!(engine.output_scroll(), 29);
    engine.handle_mouse(ScrollDir::Up);
    assert_eq!(engine.output_scroll(), 26);
    engine.handle_key(KeyInput::PageUp, no_mods());
    assert_eq!(engine.output_scroll(), 16);
}

#[test]
fn test_escape_dismisses_autocomplete() {
    let mut engine = Engine::new();
    type_text(&mut engine, "/cs");
    engine.handle_key(KeyInput::Tab, no_mods());
    engine.handle_key(KeyInput::Esc, no_mods());
    assert_eq!(engine.input_span().to_string_owned(), "");
    assert_eq!(engine.autocomplete_selection(), None);
}

#[test]
fn test_registry_order_is_stable() {
    let names = get_available_commands();
    assert_eq!(
        names,
        vec![
            "/base64-decode",
            "/base64-encode",
            "/copy",
            "/css-format",
            "/css-minify",
            "/cuid",
            "/exit",
            "/json-format",
            "/json-minify",
            "/sha-256",
            "/uuid",
        ]
    );
}

#[test]
fn test_command_id_dispatch_directly() {
    let mut engine = Engine::new();
    set_buffer(&mut engine, "Hello World");
    engine.handle_command(CommandId::Base64Encode);
    assert_eq!(engine.buffer_text(), "SGVsbG8gV29ybGQ=");
}
