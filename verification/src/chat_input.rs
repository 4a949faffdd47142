//! The chat's answer to the keyboard and the mouse: what an input changes in
//! the palettes, the scroll position and the debug mode, and what it leaves
//! to do for the terminal and the connection.

use crate::acp_client::{
    append_message, message_appended, provider_position, without_last_word, AcpProvider,
    ChatEntry, ChatUi, PaletteCommand, UiMode,
};
use crate::codec::{trim_text, unicode_trimmed};
use crate::text::{chars_of, join, join_range, string_of, views};
use vstd::prelude::*;
use vstd::string::{StringExecFns, StrSliceExecFns};

verus! {

/// Mathematical model of a [`UiMode`].
pub enum ModeView {
    Chat,
    MainPalette(Seq<char>),
    ProviderPalette(Seq<char>),
}

/// The model of a mode.
pub open spec fn mode_view(mode: UiMode) -> ModeView {
    match mode {
        UiMode::Chat => ModeView::Chat,
        UiMode::MainPalette { search } => ModeView::MainPalette(search@),
        UiMode::ProviderPalette { search } => ModeView::ProviderPalette(search@),
    }
}

/// The texts of a sequence of lines.
pub open spec fn line_views(lines: Seq<String>) -> Seq<Seq<char>> {
    Seq::new(lines.len(), |i: int| lines[i]@)
}

/// Mathematical model of a [`ChatUi`].
pub struct ChatUiView {
    pub mode: ModeView,
    pub selection: usize,
    pub provider: AcpProvider,
    pub connecting: bool,
    pub debug_mode: bool,
    pub debug_log: Seq<Seq<char>>,
    pub scroll: u16,
}

impl View for ChatUi {
    type V = ChatUiView;

    open spec fn view(&self) -> ChatUiView {
        ChatUiView {
            mode: mode_view(self.ui_mode),
            selection: self.palette_selection,
            provider: self.current_provider,
            connecting: self.connecting,
            debug_mode: self.debug_mode,
            debug_log: line_views(self.debug_messages@),
            scroll: self.scroll_offset_from_bottom,
        }
    }
}

/// A key, as far as the chat tells keys apart.
#[derive(Debug, Clone, Copy, PartialEq, Eq)]
pub enum Key {
    Char(char),
    Enter,
    Esc,
    Up,
    Down,
    Backspace,
    PageUp,
    PageDown,
    Home,
    End,
    Other,
}

/// What the terminal reports.
#[derive(Debug, Clone)]
pub enum UiInput {
    /// A key was pressed, with or without the control and the alt key.
    Key { key: Key, control: bool, alt: bool },
    /// Text was pasted.
    Paste(String),
    /// The wheel of the mouse was turned up.
    ScrollUp,
    /// The wheel of the mouse was turned down.
    ScrollDown,
    /// Anything else.
    Other,
}

/// Mathematical model of a [`UiAction`].
pub enum ActionView {
    Nothing,
    Exit,
    SwitchProvider(AcpProvider),
    SendMessage,
    InsertNewline,
    InsertText(Seq<char>),
    EditInput,
}

/// What an input leaves to do.
#[derive(Debug, Clone)]
pub enum UiAction {
    /// Nothing.
    Nothing,
    /// The chat ends.
    Exit,
    /// The chat connects anew, to this provider.
    SwitchProvider(AcpProvider),
    /// The message in the input field is sent.
    SendMessage,
    /// A line break goes into the input field.
    InsertNewline,
    /// The text goes into the input field.
    InsertText(String),
    /// The key goes to the input field.
    EditInput,
}

impl View for UiAction {
    type V = ActionView;

    open spec fn view(&self) -> ActionView {
        match *self {
            UiAction::Nothing => ActionView::Nothing,
            UiAction::Exit => ActionView::Exit,
            UiAction::SwitchProvider(p) => ActionView::SwitchProvider(p),
            UiAction::SendMessage => ActionView::SendMessage,
            UiAction::InsertNewline => ActionView::InsertNewline,
            UiAction::InsertText(text) => ActionView::InsertText(text@),
            UiAction::EditInput => ActionView::EditInput,
        }
    }
}

/// One place up in a ring of `len` places.
pub open spec fn ring_up(selection: usize, len: nat) -> usize {
    if len > 0 {
        ((selection + len - 1) % (len as int)) as usize
    } else {
        selection
    }
}

/// One place down in a ring of `len` places.
pub open spec fn ring_down(selection: usize, len: nat) -> usize {
    if len > 0 {
        ((selection + 1) % (len as int)) as usize
    } else {
        selection
    }
}

/// The search text of the palette that is open, or the empty text.
pub open spec fn search_text(v: ChatUiView) -> Seq<char> {
    match v.mode {
        ModeView::Chat => Seq::empty(),
        ModeView::MainPalette(s) => s,
        ModeView::ProviderPalette(s) => s,
    }
}

/// The palette that is open gets another search text and its first entry is
/// selected; the chat stays as it is.
pub open spec fn with_search(v: ChatUiView, search: Seq<char>) -> ChatUiView {
    match v.mode {
        ModeView::Chat => v,
        ModeView::MainPalette(_) => ChatUiView {
            mode: ModeView::MainPalette(search),
            selection: 0,
            ..v
        },
        ModeView::ProviderPalette(_) => ChatUiView {
            mode: ModeView::ProviderPalette(search),
            selection: 0,
            ..v
        },
    }
}

/// The palette is shut.
pub open spec fn shut(v: ChatUiView) -> ChatUiView {
    ChatUiView { mode: ModeView::Chat, ..v }
}

/// The palette of commands is opened.
pub open spec fn main_palette(v: ChatUiView) -> ChatUiView {
    ChatUiView { mode: ModeView::MainPalette(Seq::empty()), selection: 0, ..v }
}

/// The palette of providers is opened, with the provider in use selected.
pub open spec fn provider_palette(v: ChatUiView) -> ChatUiView {
    ChatUiView {
        mode: ModeView::ProviderPalette(Seq::empty()),
        selection: provider_position(v.provider),
        ..v
    }
}

/// The debug mode is switched; switching it off empties the debug log.
pub open spec fn toggled(v: ChatUiView) -> ChatUiView {
    ChatUiView {
        debug_mode: !v.debug_mode,
        debug_log: if v.debug_mode {
            Seq::empty()
        } else {
            v.debug_log
        },
        ..v
    }
}

/// The view is moved `lines` up, as far as the number goes.
pub open spec fn scrolled_up(v: ChatUiView, lines: u16) -> ChatUiView {
    ChatUiView {
        scroll: if v.scroll + lines > u16::MAX {
            u16::MAX
        } else {
            (v.scroll + lines) as u16
        },
        ..v
    }
}

/// The view is moved `lines` down, as far as the bottom.
pub open spec fn scrolled_down(v: ChatUiView, lines: u16) -> ChatUiView {
    ChatUiView {
        scroll: if v.scroll < lines {
            0
        } else {
            (v.scroll - lines) as u16
        },
        ..v
    }
}

/// The view is moved to the given place.
pub open spec fn scrolled_to(v: ChatUiView, scroll: u16) -> ChatUiView {
    ChatUiView { scroll: scroll, ..v }
}

/// The number of entries that the palette shows.
pub open spec fn entry_count(
    v: ChatUiView,
    commands: Seq<PaletteCommand>,
    providers: Seq<AcpProvider>,
) -> nat {
    match v.mode {
        ModeView::Chat => 0,
        ModeView::MainPalette(_) => commands.len(),
        ModeView::ProviderPalette(_) => providers.len(),
    }
}

/// The selected command is carried out and the palette of commands is shut.
pub open spec fn command_chosen(v: ChatUiView, commands: Seq<PaletteCommand>) -> ChatUiView {
    if v.selection < commands.len() {
        match commands[v.selection as int] {
            PaletteCommand::ToggleDebugMode => toggled(shut(v)),
            PaletteCommand::SwitchProvider => provider_palette(shut(v)),
        }
    } else {
        shut(v)
    }
}

/// The palette of providers is shut. Where the selected provider is another
/// than the one in use, it is taken into use and the chat connects anew.
pub open spec fn provider_chosen(v: ChatUiView, providers: Seq<AcpProvider>) -> (
    ChatUiView,
    ActionView,
) {
    if v.selection < providers.len() && providers[v.selection as int] != v.provider {
        (
            ChatUiView {
                mode: ModeView::Chat,
                provider: providers[v.selection as int],
                connecting: true,
                ..v
            },
            ActionView::SwitchProvider(providers[v.selection as int]),
        )
    } else {
        (shut(v), ActionView::Nothing)
    }
}

/// What the enter key does in a palette.
pub open spec fn entry_chosen(
    v: ChatUiView,
    commands: Seq<PaletteCommand>,
    providers: Seq<AcpProvider>,
) -> (ChatUiView, ActionView) {
    match v.mode {
        ModeView::Chat => (v, ActionView::Nothing),
        ModeView::MainPalette(_) => (command_chosen(v, commands), ActionView::Nothing),
        ModeView::ProviderPalette(_) => provider_chosen(v, providers),
    }
}

/// The selection is moved one entry up.
pub open spec fn moved_up(v: ChatUiView, len: nat) -> ChatUiView {
    ChatUiView { selection: ring_up(v.selection, len), ..v }
}

/// The selection is moved one entry down.
pub open spec fn moved_down(v: ChatUiView, len: nat) -> ChatUiView {
    ChatUiView { selection: ring_down(v.selection, len), ..v }
}

/// A text without its last character.
pub open spec fn without_last(s: Seq<char>) -> Seq<char> {
    if s.len() > 0 {
        s.drop_last()
    } else {
        s
    }
}

/// What a key does while a palette is open. With the control key, `p` and
/// `k` move up, `n` and `j` move down, `c` and `g` shut the palette; with the
/// alt key, backspace deletes a word; without either, the arrows move, escape
/// shuts the palette, enter chooses, backspace deletes, and a character goes
/// into the search text.
pub open spec fn palette_key(
    v: ChatUiView,
    key: Key,
    control: bool,
    alt: bool,
    commands: Seq<PaletteCommand>,
    providers: Seq<AcpProvider>,
) -> (ChatUiView, ActionView) {
    let len = entry_count(v, commands, providers);
    if control {
        match key {
            Key::Char(c) => if c == 'p' || c == 'k' {
                (moved_up(v, len), ActionView::Nothing)
            } else if c == 'n' || c == 'j' {
                (moved_down(v, len), ActionView::Nothing)
            } else if c == 'c' || c == 'g' {
                (shut(v), ActionView::Nothing)
            } else {
                (v, ActionView::Nothing)
            },
            _ => (v, ActionView::Nothing),
        }
    } else if alt {
        match key {
            Key::Backspace => (
                with_search(v, without_last_word(search_text(v))),
                ActionView::Nothing,
            ),
            _ => (v, ActionView::Nothing),
        }
    } else {
        match key {
            Key::Esc => (shut(v), ActionView::Nothing),
            Key::Up => (moved_up(v, len), ActionView::Nothing),
            Key::Down => (moved_down(v, len), ActionView::Nothing),
            Key::Backspace => (with_search(v, without_last(search_text(v))), ActionView::Nothing),
            Key::Enter => entry_chosen(v, commands, providers),
            Key::Char(c) => (with_search(v, search_text(v).push(c)), ActionView::Nothing),
            _ => (v, ActionView::Nothing),
        }
    }
}

/// What a key does while the chat is shown. With the control key, `q`, `c`
/// and `d` end the chat, `j` breaks the line, `m` opens the palette of
/// providers and `o` that of commands; without it, enter sends the message
/// once the connection stands, and four keys scroll. Every other key goes to
/// the input field.
pub open spec fn chat_key(v: ChatUiView, key: Key, control: bool) -> (ChatUiView, ActionView) {
    if control {
        match key {
            Key::Char(c) => if c == 'q' || c == 'c' || c == 'd' {
                (v, ActionView::Exit)
            } else if c == 'j' {
                (v, ActionView::InsertNewline)
            } else if c == 'm' {
                (provider_palette(v), ActionView::Nothing)
            } else if c == 'o' {
                (main_palette(v), ActionView::Nothing)
            } else {
                (v, ActionView::EditInput)
            },
            _ => (v, ActionView::EditInput),
        }
    } else {
        match key {
            Key::Enter => (
                v,
                if v.connecting {
                    ActionView::Nothing
                } else {
                    ActionView::SendMessage
                },
            ),
            Key::PageUp => (scrolled_up(v, 10), ActionView::Nothing),
            Key::PageDown => (scrolled_down(v, 10), ActionView::Nothing),
            Key::Home => (scrolled_to(v, u16::MAX), ActionView::Nothing),
            Key::End => (scrolled_to(v, 0), ActionView::Nothing),
            _ => (v, ActionView::EditInput),
        }
    }
}

/// What an input does: the state after it, and what it leaves to do. While a
/// palette is open only keys count.
pub open spec fn step(
    v: ChatUiView,
    input: UiInput,
    commands: Seq<PaletteCommand>,
    providers: Seq<AcpProvider>,
) -> (ChatUiView, ActionView) {
    match v.mode {
        ModeView::Chat => match input {
            UiInput::Key { key, control, alt } => chat_key(v, key, control),
            UiInput::Paste(text) => (v, ActionView::InsertText(text@)),
            UiInput::ScrollUp => (scrolled_up(v, 1), ActionView::Nothing),
            UiInput::ScrollDown => (scrolled_down(v, 1), ActionView::Nothing),
            UiInput::Other => (v, ActionView::Nothing),
        },
        _ => match input {
            UiInput::Key { key, control, alt } => palette_key(
                v,
                key,
                control,
                alt,
                commands,
                providers,
            ),
            _ => (v, ActionView::Nothing),
        },
    }
}

impl ChatUi {
    /// Shuts the palette that is open.
    pub fn close_palette(&mut self)
        ensures
            final(self)@ == shut(old(self)@),
    {
        self.ui_mode = UiMode::Chat;
    }

    /// Moves the view `lines` up.
    pub fn scroll_up(&mut self, lines: u16)
        ensures
            final(self)@ == scrolled_up(old(self)@, lines),
    {
        self.scroll_offset_from_bottom = if self.scroll_offset_from_bottom > u16::MAX - lines {
            u16::MAX
        } else {
            self.scroll_offset_from_bottom + lines
        };
    }

    /// Moves the view `lines` down.
    pub fn scroll_down(&mut self, lines: u16)
        ensures
            final(self)@ == scrolled_down(old(self)@, lines),
    {
        self.scroll_offset_from_bottom = if self.scroll_offset_from_bottom < lines {
            0
        } else {
            self.scroll_offset_from_bottom - lines
        };
    }

    /// Moves the view to the top, wherever that is.
    pub fn scroll_to_top(&mut self)
        ensures
            final(self)@ == scrolled_to(old(self)@, u16::MAX),
    {
        self.scroll_offset_from_bottom = u16::MAX;
    }

    /// Moves the view to the bottom.
    pub fn scroll_to_bottom(&mut self)
        ensures
            final(self)@ == scrolled_to(old(self)@, 0),
    {
        self.scroll_offset_from_bottom = 0;
    }

    /// The number of entries that the palette shows, of the commands and the
    /// providers that its search text leaves.
    pub fn filtered_items_count(
        &self,
        commands: &Vec<PaletteCommand>,
        providers: &Vec<AcpProvider>,
    ) -> (len: usize)
        ensures
            len == entry_count(self@, commands@, providers@),
    {
        match &self.ui_mode {
            UiMode::Chat => 0,
            UiMode::MainPalette { .. } => commands.len(),
            UiMode::ProviderPalette { .. } => providers.len(),
        }
    }

    /// Carries out what the enter key does in a palette.
    fn choose_entry(&mut self, commands: &Vec<PaletteCommand>, providers: &Vec<AcpProvider>) -> (r:
        UiAction)
        ensures
            (final(self)@, r@) == entry_chosen(old(self)@, commands@, providers@),
    {
        let in_main = match &self.ui_mode {
            UiMode::Chat => {
                return UiAction::Nothing;
            },
            UiMode::MainPalette { .. } => true,
            UiMode::ProviderPalette { .. } => false,
        };
        if in_main {
            match self.execute_main_palette_selection(commands) {
                Some(PaletteCommand::ToggleDebugMode) => self.toggle_debug_mode(),
                Some(PaletteCommand::SwitchProvider) => self.open_provider_palette(),
                None => {},
            }
            assert(self@.debug_log =~= command_chosen(old(self)@, commands@).debug_log);
            UiAction::Nothing
        } else {
            match self.execute_provider_palette_selection(providers) {
                Some(p) => UiAction::SwitchProvider(p),
                None => UiAction::Nothing,
            }
        }
    }

    /// Carries out what a key does while a palette is open.
    fn palette_key(
        &mut self,
        key: Key,
        control: bool,
        alt: bool,
        commands: &Vec<PaletteCommand>,
        providers: &Vec<AcpProvider>,
    ) -> (r: UiAction)
        requires
            !(old(self).ui_mode is Chat),
        ensures
            (final(self)@, r@) == palette_key(
                old(self)@,
                key,
                control,
                alt,
                commands@,
                providers@,
            ),
    {
        let len = self.filtered_items_count(commands, providers);
        if control {
            match key {
                Key::Char(c) => {
                    if c == 'p' || c == 'k' {
                        self.palette_up(len);
                    } else if c == 'n' || c == 'j' {
                        self.palette_down(len);
                    } else if c == 'c' || c == 'g' {
                        self.close_palette();
                    }
                },
                _ => {},
            }
        } else if alt {
            match key {
                Key::Backspace => self.palette_delete_word(),
                _ => {},
            }
        } else {
            match key {
                Key::Esc => self.close_palette(),
                Key::Up => self.palette_up(len),
                Key::Down => self.palette_down(len),
                Key::Backspace => self.palette_backspace(),
                Key::Enter => {
                    return self.choose_entry(commands, providers);
                },
                Key::Char(c) => self.palette_input(c),
                _ => {},
            }
        }
        UiAction::Nothing
    }

    /// Carries out what a key does while the chat is shown.
    fn chat_key(&mut self, key: Key, control: bool) -> (r: UiAction)
        ensures
            (final(self)@, r@) == chat_key(old(self)@, key, control),
    {
        if control {
            match key {
                Key::Char(c) => {
                    if c == 'q' || c == 'c' || c == 'd' {
                        UiAction::Exit
                    } else if c == 'j' {
                        UiAction::InsertNewline
                    } else if c == 'm' {
                        self.open_provider_palette();
                        UiAction::Nothing
                    } else if c == 'o' {
                        self.open_main_palette();
                        UiAction::Nothing
                    } else {
                        UiAction::EditInput
                    }
                },
                _ => UiAction::EditInput,
            }
        } else {
            match key {
                Key::Enter => {
                    if self.connecting {
                        UiAction::Nothing
                    } else {
                        UiAction::SendMessage
                    }
                },
                Key::PageUp => {
                    self.scroll_up(10);
                    UiAction::Nothing
                },
                Key::PageDown => {
                    self.scroll_down(10);
                    UiAction::Nothing
                },
                Key::Home => {
                    self.scroll_to_top();
                    UiAction::Nothing
                },
                Key::End => {
                    self.scroll_to_bottom();
                    UiAction::Nothing
                },
                _ => UiAction::EditInput,
            }
        }
    }

    /// Takes an input of the terminal: changes the state as [`step`] says and
    /// hands out what is left to do. `commands` and `providers` are the
    /// entries that the search text of the palette leaves.
    pub fn handle_input(
        &mut self,
        input: UiInput,
        commands: &Vec<PaletteCommand>,
        providers: &Vec<AcpProvider>,
    ) -> (action: UiAction)
        ensures
            (final(self)@, action@) == step(old(self)@, input, commands@, providers@),
    {
        let in_chat = match &self.ui_mode {
            UiMode::Chat => true,
            _ => false,
        };
        if in_chat {
            match input {
                UiInput::Key { key, control, alt } => self.chat_key(key, control),
                UiInput::Paste(text) => UiAction::InsertText(text),
                UiInput::ScrollUp => {
                    self.scroll_up(1);
                    UiAction::Nothing
                },
                UiInput::ScrollDown => {
                    self.scroll_down(1);
                    UiAction::Nothing
                },
                UiInput::Other => UiAction::Nothing,
            }
        } else {
            match input {
                UiInput::Key { key, control, alt } => self.palette_key(
                    key,
                    control,
                    alt,
                    commands,
                    providers,
                ),
                _ => UiAction::Nothing,
            }
        }
    }
}

/// What an input does to a chat that is only shown: whether the show ends,
/// the state, and the turns of the wheel that wait to be carried out. With
/// the control key, `q`, `c` and `d` end the show; without it, `q` does, and
/// four keys scroll. A turn of the wheel is counted and says nothing of the
/// end.
pub open spec fn demo_step(v: ChatUiView, input: UiInput, scroll_delta: i32) -> (
    ChatUiView,
    int,
    Option<bool>,
) {
    match input {
        UiInput::Key { key, control, alt } => if control {
            match key {
                Key::Char(c) => (v, scroll_delta as int, Some(c == 'q' || c == 'c' || c == 'd')),
                _ => (v, scroll_delta as int, Some(false)),
            }
        } else {
            match key {
                Key::PageUp => (scrolled_up(v, 10), scroll_delta as int, Some(false)),
                Key::PageDown => (scrolled_down(v, 10), scroll_delta as int, Some(false)),
                Key::Home => (scrolled_to(v, u16::MAX), scroll_delta as int, Some(false)),
                Key::End => (scrolled_to(v, 0), scroll_delta as int, Some(false)),
                Key::Char(c) => (v, scroll_delta as int, Some(c == 'q')),
                _ => (v, scroll_delta as int, Some(false)),
            }
        },
        UiInput::ScrollUp => (v, scroll_delta + 1, None),
        UiInput::ScrollDown => (v, scroll_delta - 1, None),
        _ => (v, scroll_delta as int, Some(false)),
    }
}

/// Takes an input of the terminal while a chat is only shown.
pub fn process_demo_event(ui: &mut ChatUi, input: UiInput, scroll_delta: &mut i32) -> (r: Option<
    bool,
>)
    requires
        input is ScrollUp ==> *old(scroll_delta) < i32::MAX,
        input is ScrollDown ==> *old(scroll_delta) > i32::MIN,
    ensures
        (final(ui)@, *final(scroll_delta) as int, r) == demo_step(
            old(ui)@,
            input,
            *old(scroll_delta),
        ),
{
    match input {
        UiInput::Key { key, control, alt } => {
            if control {
                match key {
                    Key::Char(c) => Some(c == 'q' || c == 'c' || c == 'd'),
                    _ => Some(false),
                }
            } else {
                match key {
                    Key::PageUp => {
                        ui.scroll_up(10);
                        Some(false)
                    },
                    Key::PageDown => {
                        ui.scroll_down(10);
                        Some(false)
                    },
                    Key::Home => {
                        ui.scroll_to_top();
                        Some(false)
                    },
                    Key::End => {
                        ui.scroll_to_bottom();
                        Some(false)
                    },
                    Key::Char(c) => Some(c == 'q'),
                    _ => Some(false),
                }
            }
        },
        UiInput::ScrollUp => {
            *scroll_delta = *scroll_delta + 1;
            None
        },
        UiInput::ScrollDown => {
            *scroll_delta = *scroll_delta - 1;
            None
        },
        _ => Some(false),
    }
}

/// A number of lines as the scroll position counts them: at most 65535.
pub open spec fn capped(n: int) -> u16 {
    if n > u16::MAX {
        u16::MAX
    } else if n < 0 {
        0
    } else {
        n as u16
    }
}

/// The state after the turns of the wheel that were counted have been
/// carried out: up for a positive count, down for a negative one.
pub open spec fn scroll_applied(v: ChatUiView, delta: i32) -> ChatUiView {
    if delta > 0 {
        scrolled_up(v, capped(delta as int))
    } else if delta < 0 {
        scrolled_down(v, capped(-delta))
    } else {
        v
    }
}

impl ChatUi {
    /// Carries out the turns of the wheel that were counted.
    pub fn apply_scroll(&mut self, delta: i32)
        ensures
            final(self)@ == scroll_applied(old(self)@, delta),
    {
        if delta > 0 {
            let lines: u16 = if delta > 65535 {
                u16::MAX
            } else {
                delta as u16
            };
            self.scroll_up(lines);
        } else if delta < 0 {
            let lines: u16 = if delta < -65535 {
                u16::MAX
            } else {
                (-delta) as u16
            };
            self.scroll_down(lines);
        }
    }
}

/// The option that is chosen where an agent asks for permission: the first
/// one, or `allow` where it offers none.
pub open spec fn chosen_option(options: Seq<String>) -> Seq<char> {
    if options.len() > 0 {
        options[0]@
    } else {
        "allow"@
    }
}

/// Chooses among the options that an agent offers when it asks for
/// permission.
pub fn permission_choice(options: &Vec<String>) -> (r: String)
    ensures
        r@ == chosen_option(options@),
{
    if options.len() > 0 {
        options[0].clone()
    } else {
        String::from_str("allow")
    }
}

/// The lines of the input field as one text, with line breaks between them.
pub open spec fn message_text(lines: Seq<String>) -> Seq<char> {
    join(line_views(lines), '\n')
}

/// Takes the message that the input field holds into the chat, as a message
/// of the user, and hands it out to be sent. A message of nothing but white
/// space is not taken.
pub fn send_message<K, S, P>(history: &mut Vec<ChatEntry<K, S, P>>, lines: &Vec<String>) -> (r:
    Option<String>)
    ensures
        match r {
            Some(text) => {
                &&& text@ == message_text(lines@)
                &&& unicode_trimmed(text@).len() > 0
                &&& message_appended(old(history)@, final(history)@, "User"@, text@)
            },
            None => unicode_trimmed(message_text(lines@)).len() == 0 && final(history)@ == old(
                history,
            )@,
        },
{
    let mut pieces: Vec<Vec<char>> = Vec::new();
    let mut i: usize = 0;
    while i < lines.len()
        invariant
            i <= lines.len(),
            pieces@.len() == i,
            forall|k: int| 0 <= k < i ==> (#[trigger] pieces@[k])@ == lines@[k]@,
        decreases lines.len() - i,
    {
        pieces.push(chars_of(lines[i].as_str()));
        i += 1;
    }
    assert(views(pieces@) =~= line_views(lines@));
    assert(views(pieces@).subrange(0, pieces@.len() as int) == views(pieces@));
    let text = string_of(&join_range(&pieces, 0, pieces.len(), '\n'));
    if trim_text(text.as_str()).unicode_len() == 0 {
        return None;
    }
    append_message(history, "User", text.as_str());
    Some(text)
}

} // verus!
