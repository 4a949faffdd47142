use cmux_preview_proxy::acp_client::{
    add_tool_call, entry_matches, filtered_entries, text_contains, AcpProvider, ChatEntry, ChatUi,
    PaletteCommand, UiMode,
};

fn chars(s: &str) -> Vec<char> {
    s.chars().collect()
}

fn texts(items: &[&str]) -> Vec<String> {
    items.iter().map(|s| s.to_string()).collect()
}

fn search(ui: &ChatUi) -> Option<&str> {
    match &ui.ui_mode {
        UiMode::Chat => None,
        UiMode::MainPalette { search } => Some(search),
        UiMode::ProviderPalette { search } => Some(search),
    }
}

#[test]
fn substring_search_agrees_with_the_standard_library() {
    let cases = [
        ("", ""),
        ("abc", ""),
        ("", "a"),
        ("abc", "abc"),
        ("abc", "bc"),
        ("abc", "c"),
        ("abc", "abcd"),
        ("aab", "ab"),
        ("abab", "bab"),
        ("toggle debug mode", "debug"),
        ("toggle debug mode", "debugs"),
    ];
    for (hay, needle) in cases {
        assert_eq!(text_contains(&chars(hay), &chars(needle)), hay.contains(needle), "{hay} {needle}");
    }
}

#[test]
fn entries_answer_to_queries_without_regard_to_case() {
    let entry = texts(&["Toggle Debug Mode", "Show/hide raw ACP protocol messages"]);
    assert!(entry_matches(&entry, ""));
    assert!(entry_matches(&entry, "debug"));
    assert!(entry_matches(&entry, "DEBUG M"));
    assert!(entry_matches(&entry, "acp"));
    assert!(!entry_matches(&entry, "provider"));
    assert!(entry_matches(&vec![], ""));
    assert!(!entry_matches(&vec![], "a"));
    assert!(entry_matches(&texts(&["ÉCOLE"]), "école"));
}

#[test]
fn filtered_entries_keep_their_places() {
    let entries = vec![
        texts(&["Toggle Debug Mode", "Show/hide raw ACP protocol messages"]),
        texts(&["Switch ACP Provider", "Change the provider"]),
        texts(&["Quit"]),
    ];
    assert_eq!(filtered_entries(&entries, ""), vec![0, 1, 2]);
    assert_eq!(filtered_entries(&entries, "acp"), vec![0, 1]);
    assert_eq!(filtered_entries(&entries, "PROVIDER"), vec![1]);
    assert_eq!(filtered_entries(&entries, "q"), vec![2]);
    assert!(filtered_entries(&entries, "zzz").is_empty());
    assert!(filtered_entries(&vec![], "").is_empty());
}

#[test]
fn palettes_open_search_and_close() {
    let mut ui = ChatUi::new(AcpProvider::Gemini);
    assert!(matches!(ui.ui_mode, UiMode::Chat));
    assert!(ui.connecting);

    ui.palette_input('x');
    ui.palette_backspace();
    ui.palette_delete_word();
    assert!(matches!(ui.ui_mode, UiMode::Chat));

    ui.palette_selection = 1;
    ui.open_main_palette();
    assert!(matches!(ui.ui_mode, UiMode::MainPalette { .. }));
    assert_eq!(search(&ui), Some(""));
    assert_eq!(ui.palette_selection, 0);

    for c in "switch  pro".chars() {
        ui.palette_input(c);
    }
    assert_eq!(search(&ui), Some("switch  pro"));
    ui.palette_selection = 1;
    ui.palette_backspace();
    assert_eq!(search(&ui), Some("switch  pr"));
    assert_eq!(ui.palette_selection, 0);
    ui.palette_delete_word();
    assert_eq!(search(&ui), Some("switch  "));
    ui.palette_delete_word();
    assert_eq!(search(&ui), Some(""));
    ui.palette_backspace();
    assert_eq!(search(&ui), Some(""));

    ui.palette_down(2);
    assert_eq!(ui.palette_selection, 1);
    ui.palette_down(2);
    assert_eq!(ui.palette_selection, 0);
    ui.palette_up(2);
    assert_eq!(ui.palette_selection, 1);
    let picked = ui.execute_main_palette_selection(&PaletteCommand::all());
    assert_eq!(picked, Some(PaletteCommand::SwitchProvider));
    assert!(matches!(ui.ui_mode, UiMode::Chat));
    assert_eq!(ui.execute_main_palette_selection(&PaletteCommand::all()), None);

    ui.open_main_palette();
    ui.palette_selection = 5;
    assert_eq!(ui.execute_main_palette_selection(&PaletteCommand::all()), None);
    assert!(matches!(ui.ui_mode, UiMode::Chat));
}

#[test]
fn provider_palette_switches_the_provider() {
    let mut ui = ChatUi::new(AcpProvider::Gemini);
    ui.connecting = false;
    ui.open_provider_palette();
    assert!(matches!(ui.ui_mode, UiMode::ProviderPalette { .. }));
    assert_eq!(ui.palette_selection, 3);

    // The provider in use is selected: nothing changes.
    assert_eq!(ui.execute_provider_palette_selection(&AcpProvider::all()), None);
    assert!(!ui.connecting);
    assert!(matches!(ui.ui_mode, UiMode::Chat));

    ui.open_provider_palette();
    ui.palette_up(4);
    let picked = ui.execute_provider_palette_selection(&AcpProvider::all());
    assert_eq!(picked, Some(AcpProvider::Claude));
    assert_eq!(ui.current_provider, AcpProvider::Claude);
    assert!(ui.connecting);

    ui.open_provider_palette();
    ui.palette_selection = 0;
    let picked = ui.execute_provider_palette_selection(&vec![AcpProvider::Opencode]);
    assert_eq!(picked, Some(AcpProvider::Opencode));

    ui.open_provider_palette();
    ui.palette_selection = 1;
    assert_eq!(ui.execute_provider_palette_selection(&vec![AcpProvider::Codex]), None);
    assert_eq!(ui.current_provider, AcpProvider::Opencode);

    ui.open_main_palette();
    ui.palette_selection = 0;
    assert_eq!(ui.execute_provider_palette_selection(&AcpProvider::all()), None);
    assert_eq!(ui.current_provider, AcpProvider::Opencode);
}

#[test]
fn debug_mode_switches_the_log() {
    let mut ui = ChatUi::new(AcpProvider::Codex);
    ui.add_debug_message("a".to_string());
    assert!(ui.debug_messages.is_empty());
    ui.toggle_debug_mode();
    assert!(ui.debug_mode);
    ui.add_debug_message("a".to_string());
    ui.add_debug_message("b".to_string());
    assert_eq!(ui.debug_messages, vec!["a".to_string(), "b".to_string()]);
    ui.toggle_debug_mode();
    assert!(!ui.debug_mode);
    assert!(ui.debug_messages.is_empty());
}

#[test]
fn tool_calls_are_added_at_the_end() {
    let mut history: Vec<ChatEntry<u8, u8, String>> = vec![ChatEntry::Plan("p".to_string())];
    add_tool_call(&mut history, "t1".to_string(), "Read file".to_string(), 1, 2);
    assert_eq!(history.len(), 2);
    match &history[1] {
        ChatEntry::ToolCall { id, title, kind, status } => {
            assert_eq!((id.as_str(), title.as_str(), *kind, *status), ("t1", "Read file", 1, 2));
        }
        _ => panic!("a tool call was expected"),
    }
}
