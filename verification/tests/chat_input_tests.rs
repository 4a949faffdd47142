use cmux_preview_proxy::acp_client::{AcpProvider, ChatEntry, ChatUi, PaletteCommand, UiMode};
use cmux_preview_proxy::chat_input::{
    permission_choice, process_demo_event, send_message, Key, UiAction, UiInput,
};

type Entry = ChatEntry<u8, u8, String>;

fn key(key: Key) -> UiInput {
    UiInput::Key { key, control: false, alt: false }
}

fn control(c: char) -> UiInput {
    UiInput::Key { key: Key::Char(c), control: true, alt: false }
}

fn alt(key: Key) -> UiInput {
    UiInput::Key { key, control: false, alt: true }
}

fn press(ui: &mut ChatUi, input: UiInput) -> UiAction {
    ui.handle_input(input, &PaletteCommand::all(), &AcpProvider::all())
}

fn search_text(ui: &ChatUi) -> Option<String> {
    match &ui.ui_mode {
        UiMode::Chat => None,
        UiMode::MainPalette { search } => Some(search.clone()),
        UiMode::ProviderPalette { search } => Some(search.clone()),
    }
}

#[test]
fn control_keys_in_the_chat() {
    let mut ui = ChatUi::new(AcpProvider::Codex);
    for c in ['q', 'c', 'd'] {
        assert!(matches!(press(&mut ui, control(c)), UiAction::Exit));
    }
    assert!(matches!(press(&mut ui, control('j')), UiAction::InsertNewline));
    assert!(matches!(press(&mut ui, control('x')), UiAction::EditInput));
    assert!(matches!(
        press(&mut ui, UiInput::Key { key: Key::Up, control: true, alt: false }),
        UiAction::EditInput
    ));
    assert!(matches!(ui.ui_mode, UiMode::Chat));
    assert!(matches!(press(&mut ui, control('o')), UiAction::Nothing));
    assert!(matches!(ui.ui_mode, UiMode::MainPalette { .. }));
    assert_eq!(ui.palette_selection, 0);
    ui.close_palette();
    ui.current_provider = AcpProvider::Gemini;
    assert!(matches!(press(&mut ui, control('m')), UiAction::Nothing));
    assert!(matches!(ui.ui_mode, UiMode::ProviderPalette { .. }));
    assert_eq!(ui.palette_selection, 3);
}

#[test]
fn enter_sends_once_the_connection_stands() {
    let mut ui = ChatUi::new(AcpProvider::Codex);
    assert!(ui.connecting);
    assert!(matches!(press(&mut ui, key(Key::Enter)), UiAction::Nothing));
    ui.connecting = false;
    assert!(matches!(press(&mut ui, key(Key::Enter)), UiAction::SendMessage));
    assert!(matches!(press(&mut ui, alt(Key::Enter)), UiAction::SendMessage));
    assert!(matches!(press(&mut ui, key(Key::Char('a'))), UiAction::EditInput));
    assert!(matches!(press(&mut ui, key(Key::Backspace)), UiAction::EditInput));
    assert!(matches!(press(&mut ui, UiInput::Other), UiAction::Nothing));
    match press(&mut ui, UiInput::Paste("two\nlines".to_string())) {
        UiAction::InsertText(text) => assert_eq!(text, "two\nlines"),
        other => panic!("unexpected action {other:?}"),
    }
}

#[test]
fn scrolling_in_the_chat() {
    let mut ui = ChatUi::new(AcpProvider::Codex);
    press(&mut ui, key(Key::PageUp));
    assert_eq!(ui.scroll_offset_from_bottom, 10);
    press(&mut ui, UiInput::ScrollUp);
    assert_eq!(ui.scroll_offset_from_bottom, 11);
    press(&mut ui, UiInput::ScrollDown);
    press(&mut ui, UiInput::ScrollDown);
    assert_eq!(ui.scroll_offset_from_bottom, 9);
    press(&mut ui, key(Key::PageDown));
    assert_eq!(ui.scroll_offset_from_bottom, 0);
    press(&mut ui, UiInput::ScrollDown);
    assert_eq!(ui.scroll_offset_from_bottom, 0);
    press(&mut ui, key(Key::Home));
    assert_eq!(ui.scroll_offset_from_bottom, u16::MAX);
    press(&mut ui, key(Key::PageUp));
    assert_eq!(ui.scroll_offset_from_bottom, u16::MAX);
    ui.scroll_down(5);
    ui.scroll_up(3);
    assert_eq!(ui.scroll_offset_from_bottom, u16::MAX - 2);
    ui.scroll_up(3);
    assert_eq!(ui.scroll_offset_from_bottom, u16::MAX);
    press(&mut ui, key(Key::End));
    assert_eq!(ui.scroll_offset_from_bottom, 0);
}

#[test]
fn keys_in_a_palette() {
    let mut ui = ChatUi::new(AcpProvider::Codex);
    ui.open_main_palette();
    for c in "deb ug".chars() {
        assert!(matches!(press(&mut ui, key(Key::Char(c))), UiAction::Nothing));
    }
    assert_eq!(search_text(&ui).as_deref(), Some("deb ug"));
    press(&mut ui, key(Key::Backspace));
    assert_eq!(search_text(&ui).as_deref(), Some("deb u"));
    press(&mut ui, alt(Key::Backspace));
    assert_eq!(search_text(&ui).as_deref(), Some("deb "));
    press(&mut ui, alt(Key::Char('x')));
    assert_eq!(search_text(&ui).as_deref(), Some("deb "));
    press(&mut ui, key(Key::Down));
    assert_eq!(ui.palette_selection, 1);
    press(&mut ui, key(Key::Down));
    assert_eq!(ui.palette_selection, 0);
    press(&mut ui, key(Key::Up));
    assert_eq!(ui.palette_selection, 1);
    press(&mut ui, control('p'));
    assert_eq!(ui.palette_selection, 0);
    press(&mut ui, control('k'));
    assert_eq!(ui.palette_selection, 1);
    press(&mut ui, control('n'));
    assert_eq!(ui.palette_selection, 0);
    press(&mut ui, control('j'));
    assert_eq!(ui.palette_selection, 1);
    press(&mut ui, control('x'));
    press(&mut ui, key(Key::PageUp));
    press(&mut ui, UiInput::ScrollUp);
    press(&mut ui, UiInput::Paste("text".to_string()));
    assert_eq!(search_text(&ui).as_deref(), Some("deb "));
    assert_eq!(ui.palette_selection, 1);
    assert_eq!(ui.scroll_offset_from_bottom, 0);
    press(&mut ui, key(Key::Char('x')));
    assert_eq!(ui.palette_selection, 0);
    for shut in [key(Key::Esc), control('c'), control('g')] {
        ui.open_provider_palette();
        assert!(matches!(press(&mut ui, shut), UiAction::Nothing));
        assert!(matches!(ui.ui_mode, UiMode::Chat));
    }
}

#[test]
fn enter_in_the_palette_of_commands() {
    let mut ui = ChatUi::new(AcpProvider::Opencode);
    ui.open_main_palette();
    assert!(matches!(press(&mut ui, key(Key::Enter)), UiAction::Nothing));
    assert!(matches!(ui.ui_mode, UiMode::Chat));
    assert!(ui.debug_mode);
    ui.add_debug_message("line".to_string());
    ui.open_main_palette();
    press(&mut ui, key(Key::Enter));
    assert!(!ui.debug_mode);
    assert!(ui.debug_messages.is_empty());
    ui.open_main_palette();
    press(&mut ui, key(Key::Down));
    assert!(matches!(press(&mut ui, key(Key::Enter)), UiAction::Nothing));
    assert!(matches!(ui.ui_mode, UiMode::ProviderPalette { .. }));
    assert_eq!(ui.palette_selection, 1);
    ui.open_main_palette();
    ui.palette_selection = 5;
    press(&mut ui, key(Key::Enter));
    assert!(matches!(ui.ui_mode, UiMode::Chat));
    assert!(!ui.debug_mode);
}

#[test]
fn enter_in_the_palette_of_providers() {
    let mut ui = ChatUi::new(AcpProvider::Codex);
    ui.connecting = false;
    ui.open_provider_palette();
    assert!(matches!(press(&mut ui, key(Key::Enter)), UiAction::Nothing));
    assert!(matches!(ui.ui_mode, UiMode::Chat));
    assert!(!ui.connecting);
    ui.open_provider_palette();
    press(&mut ui, key(Key::Up));
    assert_eq!(ui.palette_selection, 3);
    match press(&mut ui, key(Key::Enter)) {
        UiAction::SwitchProvider(p) => assert_eq!(p, AcpProvider::Gemini),
        other => panic!("unexpected action {other:?}"),
    }
    assert_eq!(ui.current_provider, AcpProvider::Gemini);
    assert!(ui.connecting);
    assert!(matches!(ui.ui_mode, UiMode::Chat));
    ui.open_provider_palette();
    let one = vec![AcpProvider::Opencode];
    assert_eq!(ui.filtered_items_count(&PaletteCommand::all(), &one), 1);
    assert!(matches!(
        ui.handle_input(key(Key::Enter), &PaletteCommand::all(), &one),
        UiAction::Nothing
    ));
    assert_eq!(ui.current_provider, AcpProvider::Gemini);
}

#[test]
fn inputs_while_a_chat_is_only_shown() {
    let mut ui = ChatUi::new(AcpProvider::Codex);
    let mut delta: i32 = 0;
    for c in ['q', 'c', 'd'] {
        assert_eq!(process_demo_event(&mut ui, control(c), &mut delta), Some(true));
    }
    assert_eq!(process_demo_event(&mut ui, control('x'), &mut delta), Some(false));
    assert_eq!(process_demo_event(&mut ui, key(Key::Char('q')), &mut delta), Some(true));
    assert_eq!(process_demo_event(&mut ui, key(Key::Char('c')), &mut delta), Some(false));
    assert_eq!(process_demo_event(&mut ui, key(Key::PageUp), &mut delta), Some(false));
    assert_eq!(ui.scroll_offset_from_bottom, 10);
    assert_eq!(process_demo_event(&mut ui, key(Key::Home), &mut delta), Some(false));
    assert_eq!(ui.scroll_offset_from_bottom, u16::MAX);
    assert_eq!(process_demo_event(&mut ui, key(Key::PageDown), &mut delta), Some(false));
    assert_eq!(ui.scroll_offset_from_bottom, u16::MAX - 10);
    assert_eq!(process_demo_event(&mut ui, key(Key::End), &mut delta), Some(false));
    assert_eq!(ui.scroll_offset_from_bottom, 0);
    assert_eq!(process_demo_event(&mut ui, UiInput::ScrollUp, &mut delta), None);
    assert_eq!(process_demo_event(&mut ui, UiInput::ScrollUp, &mut delta), None);
    assert_eq!(process_demo_event(&mut ui, UiInput::ScrollDown, &mut delta), None);
    assert_eq!(delta, 1);
    assert_eq!(ui.scroll_offset_from_bottom, 0);
    assert_eq!(process_demo_event(&mut ui, UiInput::Other, &mut delta), Some(false));
    assert_eq!(
        process_demo_event(&mut ui, UiInput::Paste("q".to_string()), &mut delta),
        Some(false)
    );
}

#[test]
fn a_message_is_taken_unless_it_is_blank() {
    let mut history: Vec<Entry> = Vec::new();
    assert_eq!(send_message(&mut history, &vec![]), None);
    assert_eq!(send_message(&mut history, &vec![" ".to_string(), "\t".to_string()]), None);
    assert!(history.is_empty());
    let lines = vec![" first".to_string(), "".to_string(), "second ".to_string()];
    assert_eq!(send_message(&mut history, &lines).as_deref(), Some(" first\n\nsecond "));
    assert_eq!(send_message(&mut history, &vec!["more".to_string()]).as_deref(), Some("more"));
    assert_eq!(history.len(), 1);
    match &history[0] {
        ChatEntry::Message { role, text, normalized_markdown } => {
            assert_eq!(role, "User");
            assert_eq!(text, " first\n\nsecond more");
            assert!(normalized_markdown.is_none());
        }
        _ => panic!("a message was expected"),
    }
}

#[test]
fn counted_turns_of_the_wheel_are_carried_out() {
    let mut ui = ChatUi::new(AcpProvider::Codex);
    ui.apply_scroll(0);
    assert_eq!(ui.scroll_offset_from_bottom, 0);
    ui.apply_scroll(7);
    assert_eq!(ui.scroll_offset_from_bottom, 7);
    ui.apply_scroll(-3);
    assert_eq!(ui.scroll_offset_from_bottom, 4);
    ui.apply_scroll(-10);
    assert_eq!(ui.scroll_offset_from_bottom, 0);
    ui.apply_scroll(65535);
    assert_eq!(ui.scroll_offset_from_bottom, u16::MAX);
    ui.apply_scroll(-65534);
    assert_eq!(ui.scroll_offset_from_bottom, 1);
    ui.apply_scroll(i32::MAX);
    assert_eq!(ui.scroll_offset_from_bottom, u16::MAX);
    ui.apply_scroll(i32::MIN);
    assert_eq!(ui.scroll_offset_from_bottom, 0);
}

#[test]
fn the_first_option_is_chosen() {
    assert_eq!(permission_choice(&vec!["once".to_string(), "always".to_string()]), "once");
    assert_eq!(permission_choice(&vec!["".to_string()]), "");
    assert_eq!(permission_choice(&Vec::new()), "allow");
}

#[test]
fn blank_messages_are_those_of_white_space_alone() {
    let spaces = [
        '\u{9}', '\u{a}', '\u{b}', '\u{c}', '\u{d}', ' ', '\u{85}', '\u{a0}', '\u{1680}', '\u{2000}',
        '\u{2001}', '\u{2002}', '\u{2003}', '\u{2004}', '\u{2005}', '\u{2006}', '\u{2007}',
        '\u{2008}', '\u{2009}', '\u{200a}', '\u{2028}', '\u{2029}', '\u{202f}', '\u{205f}',
        '\u{3000}',
    ];
    for code in 0u32..0x3100 {
        let Some(c) = char::from_u32(code) else { continue };
        let mut history: Vec<Entry> = Vec::new();
        let taken = send_message(&mut history, &vec![format!("{c}{c}")]);
        assert_eq!(taken.is_none(), spaces.contains(&c), "{code:x}");
        assert_eq!(taken.is_none(), c.is_whitespace(), "{code:x}");
    }
}
