//! What the chat puts on the screen: the heights of its panels, the window
//! on its history, the place of a palette, and the rows of the status bar,
//! the palettes, the messages, the tool calls and the plans.

use crate::acp_client::ChatUi;
use crate::chat_input::{line_views, scrolled_to};
use crate::text::{
    chars_of, lemma_split_has_pieces, slice_of, split, split_on, str_eq, string_of, views,
};
use vstd::prelude::*;
use vstd::string::StringExecFns;

verus! {

/// The heights of the panels below the history.
#[derive(Debug, Clone, Copy, PartialEq, Eq)]
pub struct PanelHeights {
    pub debug: u16,
    pub input: u16,
    pub status: u16,
}

/// The height of the input field: its lines and two borders, at least three
/// and at most twelve.
pub open spec fn input_height(line_count: nat) -> u16 {
    if line_count <= 1 {
        3
    } else if line_count >= 10 {
        12
    } else {
        (line_count + 2) as u16
    }
}

/// The height of the debug panel, which is only there in the debug mode.
pub open spec fn debug_height(debug_mode: bool) -> u16 {
    if debug_mode {
        8
    } else {
        0
    }
}

/// The heights of the panels for an input field of `line_count` lines.
pub fn panel_heights(line_count: usize, debug_mode: bool) -> (h: PanelHeights)
    ensures
        h == (PanelHeights {
            debug: debug_height(debug_mode),
            input: input_height(line_count as nat),
            status: 1,
        }),
{
    let input: u16 = if line_count <= 1 {
        3
    } else if line_count >= 10 {
        12
    } else {
        (line_count + 2) as u16
    };
    let debug: u16 = if debug_mode {
        8
    } else {
        0
    };
    PanelHeights { debug: debug, input: input, status: 1 }
}

/// The number of lines of a history that do not fit into its window.
pub open spec fn max_scroll(total_lines: u16, view_height: u16) -> u16 {
    if total_lines > view_height {
        (total_lines - view_height) as u16
    } else {
        0
    }
}

/// A scroll position kept within what the history offers.
pub open spec fn clamped_scroll(scroll: u16, total_lines: u16, view_height: u16) -> u16 {
    if scroll < max_scroll(total_lines, view_height) {
        scroll
    } else {
        max_scroll(total_lines, view_height)
    }
}

impl ChatUi {
    /// Keeps the scroll position within what a history of `total_lines`
    /// lines offers a window of `view_height` lines, and says how many lines
    /// stand above the window.
    pub fn clamp_scroll(&mut self, total_lines: u16, view_height: u16) -> (from_top: u16)
        ensures
            final(self)@ == scrolled_to(
                old(self)@,
                clamped_scroll(old(self)@.scroll, total_lines, view_height),
            ),
            from_top == max_scroll(total_lines, view_height) - final(self)@.scroll,
    {
        let most: u16 = if total_lines > view_height {
            total_lines - view_height
        } else {
            0
        };
        if self.scroll_offset_from_bottom > most {
            self.scroll_offset_from_bottom = most;
        }
        most - self.scroll_offset_from_bottom
    }
}

/// A rectangle on the screen.
#[derive(Debug, Clone, Copy, PartialEq, Eq)]
pub struct Area {
    pub x: u16,
    pub y: u16,
    pub width: u16,
    pub height: u16,
}

/// `a - b`, or zero where `b` is the larger.
pub open spec fn minus(a: int, b: int) -> int {
    if a > b {
        a - b
    } else {
        0
    }
}

/// The width of a palette on a screen of the given width: seventy columns,
/// or what the screen leaves beside a margin of two on either side.
pub open spec fn palette_width(width: u16) -> int {
    if minus(width as int, 4) < 70 {
        minus(width as int, 4)
    } else {
        70
    }
}

/// The height of a palette of `items` entries on a screen of the given
/// height: six rows more than it has entries, or what the screen leaves.
pub open spec fn palette_height(height: u16, items: nat) -> int {
    if minus(height as int, 4) < items + 6 {
        minus(height as int, 4)
    } else {
        items as int + 6
    }
}

/// The place of a palette: in the middle of the screen.
pub open spec fn palette_place(width: u16, height: u16, items: nat) -> Area {
    Area {
        x: (minus(width as int, palette_width(width)) / 2) as u16,
        y: (minus(height as int, palette_height(height, items)) / 2) as u16,
        width: palette_width(width) as u16,
        height: palette_height(height, items) as u16,
    }
}

/// The place of a palette of `items` entries on a screen of the given size.
pub fn palette_area(width: u16, height: u16, items: usize) -> (area: Area)
    ensures
        area == palette_place(width, height, items as nat),
{
    let room_across: u16 = if width > 4 {
        width - 4
    } else {
        0
    };
    let room_down: u16 = if height > 4 {
        height - 4
    } else {
        0
    };
    let across: u16 = if room_across < 70 {
        room_across
    } else {
        70
    };
    let down: u16 = if items >= room_down as usize {
        room_down
    } else if items + 6 > room_down as usize {
        room_down
    } else {
        (items + 6) as u16
    };
    Area { x: (width - across) / 2, y: (height - down) / 2, width: across, height: down }
}

/// The last `count` items, or all where there are no more.
pub open spec fn tail<T>(s: Seq<T>, count: nat) -> Seq<T> {
    if s.len() > count {
        s.skip(s.len() - count)
    } else {
        s
    }
}

/// The lines of the debug log that a panel of the given height shows: the
/// newest ones, as many as fit between the two borders.
pub fn visible_debug_lines(log: &Vec<String>, panel_height: u16) -> (r: Vec<String>)
    ensures
        line_views(r@) == tail(line_views(log@), minus(panel_height as int, 2) as nat),
{
    let count: usize = if panel_height > 2 {
        (panel_height - 2) as usize
    } else {
        0
    };
    let from: usize = if log.len() > count {
        log.len() - count
    } else {
        0
    };
    let mut r: Vec<String> = Vec::new();
    let mut i: usize = from;
    while i < log.len()
        invariant
            from <= i <= log.len(),
            r@.len() == i - from,
            forall|k: int| 0 <= k < r@.len() ==> (#[trigger] r@[k])@ == log@[from + k]@,
        decreases log.len() - i,
    {
        r.push(log[i].clone());
        i += 1;
    }
    assert(line_views(r@) =~= tail(line_views(log@), count as nat));
    r
}

/// How a piece of text is shown.
#[derive(Debug, Clone, Copy, PartialEq, Eq)]
pub enum Tint {
    Plain,
    Bold,
    DarkGray,
    White,
    Cyan,
    CyanBold,
    Green,
    Yellow,
    YellowBold,
    Red,
    MagentaBold,
    /// The colour that a highlighter gives to a piece of code.
    Highlight { red: u8, green: u8, blue: u8, bold: bool, italic: bool },
}

/// Mathematical model of a [`Piece`].
pub struct PieceView {
    pub text: Seq<char>,
    pub tint: Tint,
}

/// A piece of text with the way in which it is shown. A row of the screen is
/// a sequence of pieces.
#[derive(Debug, Clone)]
pub struct Piece {
    pub text: String,
    pub tint: Tint,
}

impl View for Piece {
    type V = PieceView;

    open spec fn view(&self) -> PieceView {
        PieceView { text: self.text@, tint: self.tint }
    }
}

/// The model of a row.
pub open spec fn row_view(row: Seq<Piece>) -> Seq<PieceView> {
    Seq::new(row.len(), |i: int| row[i]@)
}

/// The models of rows.
pub open spec fn rows_view(rows: Seq<Vec<Piece>>) -> Seq<Seq<PieceView>> {
    Seq::new(rows.len(), |i: int| row_view(rows[i]@))
}

/// A piece of the model.
pub open spec fn piece_of(text: Seq<char>, tint: Tint) -> PieceView {
    PieceView { text: text, tint: tint }
}

/// A row of one piece.
fn row_of(text: String, tint: Tint) -> (r: Vec<Piece>)
    ensures
        row_view(r@) == seq![piece_of(text@, tint)],
{
    let mut r: Vec<Piece> = Vec::new();
    r.push(Piece { text: text, tint: tint });
    assert(row_view(r@) =~= seq![piece_of(text@, tint)]);
    r
}

/// Adds a piece to a row.
fn add_piece(row: &mut Vec<Piece>, text: String, tint: Tint)
    ensures
        row_view(final(row)@) == row_view(old(row)@).push(piece_of(text@, tint)),
{
    row.push(Piece { text: text, tint: tint });
    assert(row_view(row@) =~= row_view(old(row)@).push(piece_of(text@, tint)));
}

/// Adds a row to rows.
fn add_row(rows: &mut Vec<Vec<Piece>>, row: Vec<Piece>)
    ensures
        rows_view(final(rows)@) == rows_view(old(rows)@).push(row_view(row@)),
{
    rows.push(row);
    assert(rows_view(rows@) =~= rows_view(old(rows)@).push(row_view(row@)));
}

/// The status bar: the provider, the state of the connection while it is
/// being set up, the mark of the debug mode, and the hint at the palettes.
pub open spec fn status_row(provider_name: Seq<char>, connecting: bool, debug_mode: bool) -> Seq<
    PieceView,
> {
    seq![piece_of(provider_name, Tint::CyanBold)] + (if connecting {
        seq![piece_of(" (connecting...)"@, Tint::YellowBold)]
    } else {
        Seq::empty()
    }) + (if debug_mode {
        seq![piece_of(" [DEBUG]"@, Tint::Yellow)]
    } else {
        Seq::empty()
    }) + seq![piece_of(" │ ^O: commands │ ^M: switch"@, Tint::DarkGray)]
}

/// The row of the status bar.
pub fn status_pieces(provider_name: &str, connecting: bool, debug_mode: bool) -> (r: Vec<Piece>)
    ensures
        row_view(r@) == status_row(provider_name@, connecting, debug_mode),
{
    let mut r = row_of(String::from_str(provider_name), Tint::CyanBold);
    if connecting {
        add_piece(&mut r, String::from_str(" (connecting...)"), Tint::YellowBold);
    }
    if debug_mode {
        add_piece(&mut r, String::from_str(" [DEBUG]"), Tint::Yellow);
    }
    add_piece(&mut r, String::from_str(" │ ^O: commands │ ^M: switch"), Tint::DarkGray);
    assert(row_view(r@) =~= status_row(provider_name@, connecting, debug_mode));
    r
}

/// An entry of a palette: its label, what is said of it, and whether it is
/// the one in use.
#[derive(Debug, Clone)]
pub struct PaletteItem {
    pub label: String,
    pub description: Option<String>,
    pub is_current: bool,
}

/// The row of the search text. An empty search text is shown as a hint.
pub open spec fn search_row(search: Seq<char>) -> Seq<PieceView> {
    seq![
        piece_of(" > "@, Tint::Cyan),
        if search.len() == 0 {
            piece_of("Type to search..."@, Tint::DarkGray)
        } else {
            piece_of(search, Tint::White)
        },
    ]
}

/// An empty row.
pub open spec fn blank_row() -> Seq<PieceView> {
    seq![piece_of(Seq::empty(), Tint::Plain)]
}

/// The row of an entry: a mark where it is selected, its label, a mark where
/// it is the one in use, and what is said of it.
pub open spec fn item_row(item: PaletteItem, selected: bool) -> Seq<PieceView> {
    let head = piece_of(
        (if selected {
            "▶ "@
        } else {
            "  "@
        }) + item.label@ + (if item.is_current {
            " ●"@
        } else {
            Seq::empty()
        }),
        if selected {
            Tint::CyanBold
        } else if item.is_current {
            Tint::Green
        } else {
            Tint::Plain
        },
    );
    match item.description {
        Some(d) => seq![head, piece_of("  "@ + d@, Tint::DarkGray)],
        None => seq![head],
    }
}

/// The rows of a palette: the search text, the entries or a word that there
/// are none, and the hint at the keys.
pub open spec fn palette_view(search: Seq<char>, selection: usize, items: Seq<PaletteItem>) -> Seq<
    Seq<PieceView>,
> {
    seq![search_row(search), blank_row()] + Seq::new(
        items.len(),
        |i: int| item_row(items[i], i == selection),
    ) + (if items.len() == 0 {
        seq![seq![piece_of("  No matches"@, Tint::DarkGray)]]
    } else {
        Seq::empty()
    }) + seq![
        blank_row(),
        seq![piece_of(" ↑↓: navigate │ Enter: select │ Esc: cancel"@, Tint::DarkGray)],
    ]
}

/// The row of one entry.
fn item_pieces(item: &PaletteItem, selected: bool) -> (r: Vec<Piece>)
    ensures
        row_view(r@) == item_row(*item, selected),
{
    let mut text = if selected {
        String::from_str("▶ ")
    } else {
        String::from_str("  ")
    };
    text.append(item.label.as_str());
    if item.is_current {
        text.append(" ●");
    }
    let tint = if selected {
        Tint::CyanBold
    } else if item.is_current {
        Tint::Green
    } else {
        Tint::Plain
    };
    assert(text@ =~= (if selected {
        "▶ "@
    } else {
        "  "@
    }) + item.label@ + (if item.is_current {
        " ●"@
    } else {
        Seq::empty()
    }));
    let mut r = row_of(text, tint);
    match &item.description {
        Some(d) => {
            let mut said = String::from_str("  ");
            said.append(d.as_str());
            add_piece(&mut r, said, Tint::DarkGray);
        },
        None => {},
    }
    assert(row_view(r@) =~= item_row(*item, selected));
    r
}

/// The rows of a palette.
pub fn palette_rows(search: &str, selection: usize, items: &Vec<PaletteItem>) -> (r: Vec<
    Vec<Piece>,
>)
    ensures
        rows_view(r@) == palette_view(search@, selection, items@),
{
    let mut first = row_of(String::from_str(" > "), Tint::Cyan);
    if search.unicode_len() == 0 {
        add_piece(&mut first, String::from_str("Type to search..."), Tint::DarkGray);
    } else {
        add_piece(&mut first, String::from_str(search), Tint::White);
    }
    assert(row_view(first@) =~= search_row(search@));
    let mut rows: Vec<Vec<Piece>> = Vec::new();
    add_row(&mut rows, first);
    add_row(&mut rows, row_of(String::new(), Tint::Plain));
    let ghost head = seq![search_row(search@), blank_row()];
    assert(rows_view(rows@) =~= head);
    let mut i: usize = 0;
    while i < items.len()
        invariant
            i <= items.len(),
            rows_view(rows@) == head + Seq::new(
                i as nat,
                |k: int| item_row(items@[k], k == selection),
            ),
        decreases items.len() - i,
    {
        let ghost before = rows_view(rows@);
        add_row(&mut rows, item_pieces(&items[i], i == selection));
        assert(rows_view(rows@) =~= head + Seq::new(
            (i + 1) as nat,
            |k: int| item_row(items@[k], k == selection),
        ));
        i += 1;
    }
    if items.len() == 0 {
        add_row(&mut rows, row_of(String::from_str("  No matches"), Tint::DarkGray));
    }
    add_row(&mut rows, row_of(String::new(), Tint::Plain));
    add_row(
        &mut rows,
        row_of(String::from_str(" ↑↓: navigate │ Enter: select │ Esc: cancel"), Tint::DarkGray),
    );
    assert(rows_view(rows@) =~= palette_view(search@, selection, items@));
    rows
}

/// What a tool does.
#[derive(Debug, Clone, Copy, PartialEq, Eq)]
pub enum ToolKind {
    Read,
    Edit,
    Delete,
    Move,
    Search,
    Execute,
    Think,
    Fetch,
    SwitchMode,
    Other,
}

/// How far the call of a tool has come.
#[derive(Debug, Clone, Copy, PartialEq, Eq)]
pub enum ToolCallStatus {
    Pending,
    InProgress,
    Completed,
    Failed,
}

/// How far an entry of a plan has come.
#[derive(Debug, Clone, Copy, PartialEq, Eq)]
pub enum PlanEntryStatus {
    Pending,
    InProgress,
    Completed,
}

/// The sign of a kind of tool.
pub open spec fn tool_sign(kind: ToolKind) -> Seq<char> {
    match kind {
        ToolKind::Read => "📖"@,
        ToolKind::Edit => "✏️"@,
        ToolKind::Delete => "🗑️"@,
        ToolKind::Move => "📦"@,
        ToolKind::Search => "🔍"@,
        ToolKind::Execute => "▶️"@,
        ToolKind::Think => "💭"@,
        ToolKind::Fetch => "🌐"@,
        ToolKind::SwitchMode => "🔄"@,
        ToolKind::Other => "🔧"@,
    }
}

/// The mark of the state of a tool call.
pub open spec fn call_mark(status: ToolCallStatus) -> PieceView {
    match status {
        ToolCallStatus::Pending => piece_of("⏳"@, Tint::Yellow),
        ToolCallStatus::InProgress => piece_of("⚙️"@, Tint::Cyan),
        ToolCallStatus::Completed => piece_of("✓"@, Tint::Green),
        ToolCallStatus::Failed => piece_of("✗"@, Tint::Red),
    }
}

/// The mark of the state of an entry of a plan.
pub open spec fn plan_mark(status: PlanEntryStatus) -> PieceView {
    match status {
        PlanEntryStatus::Pending => piece_of("○"@, Tint::DarkGray),
        PlanEntryStatus::InProgress => piece_of("◐"@, Tint::Yellow),
        PlanEntryStatus::Completed => piece_of("●"@, Tint::Green),
    }
}

/// The row of a tool call: the sign of its kind, its title and the mark of
/// its state.
pub open spec fn tool_call_row(title: Seq<char>, kind: ToolKind, status: ToolCallStatus) -> Seq<
    PieceView,
> {
    seq![
        piece_of(tool_sign(kind) + " "@, Tint::Plain),
        piece_of(title, Tint::Cyan),
        piece_of(" "@, Tint::Plain),
        call_mark(status),
    ]
}

/// The sign of a kind of tool.
pub fn tool_icon(kind: ToolKind) -> (r: &'static str)
    ensures
        r@ == tool_sign(kind),
{
    match kind {
        ToolKind::Read => "📖",
        ToolKind::Edit => "✏️",
        ToolKind::Delete => "🗑️",
        ToolKind::Move => "📦",
        ToolKind::Search => "🔍",
        ToolKind::Execute => "▶️",
        ToolKind::Think => "💭",
        ToolKind::Fetch => "🌐",
        ToolKind::SwitchMode => "🔄",
        ToolKind::Other => "🔧",
    }
}

/// The row of a tool call.
pub fn render_tool_call(title: &str, kind: ToolKind, status: ToolCallStatus) -> (r: Vec<Piece>)
    ensures
        row_view(r@) == tool_call_row(title@, kind, status),
{
    let mut sign = String::from_str(tool_icon(kind));
    sign.append(" ");
    let mut r = row_of(sign, Tint::Plain);
    add_piece(&mut r, String::from_str(title), Tint::Cyan);
    add_piece(&mut r, String::from_str(" "), Tint::Plain);
    match status {
        ToolCallStatus::Pending => add_piece(&mut r, String::from_str("⏳"), Tint::Yellow),
        ToolCallStatus::InProgress => add_piece(&mut r, String::from_str("⚙️"), Tint::Cyan),
        ToolCallStatus::Completed => add_piece(&mut r, String::from_str("✓"), Tint::Green),
        ToolCallStatus::Failed => add_piece(&mut r, String::from_str("✗"), Tint::Red),
    }
    assert(row_view(r@) =~= tool_call_row(title@, kind, status));
    r
}

/// An entry of a plan.
#[derive(Debug, Clone)]
pub struct PlanItem {
    pub content: String,
    pub status: PlanEntryStatus,
}

/// The row of an entry of a plan: the mark of its state and what it says.
pub open spec fn plan_row(item: PlanItem) -> Seq<PieceView> {
    seq![
        piece_of("  "@, Tint::Plain),
        plan_mark(item.status),
        piece_of(" "@, Tint::Plain),
        piece_of(item.content@, Tint::Plain),
    ]
}

/// The rows of a plan: a heading and a row for each entry.
pub open spec fn plan_view(entries: Seq<PlanItem>) -> Seq<Seq<PieceView>> {
    seq![seq![piece_of("📋 Plan"@, Tint::MagentaBold)]] + Seq::new(
        entries.len(),
        |i: int| plan_row(entries[i]),
    )
}

/// The rows of a plan.
pub fn render_plan(entries: &Vec<PlanItem>) -> (r: Vec<Vec<Piece>>)
    ensures
        rows_view(r@) == plan_view(entries@),
{
    let mut rows: Vec<Vec<Piece>> = Vec::new();
    add_row(&mut rows, row_of(String::from_str("📋 Plan"), Tint::MagentaBold));
    let ghost head = seq![seq![piece_of("📋 Plan"@, Tint::MagentaBold)]];
    assert(rows_view(rows@) =~= head);
    let mut i: usize = 0;
    while i < entries.len()
        invariant
            i <= entries.len(),
            rows_view(rows@) == head + Seq::new(i as nat, |k: int| plan_row(entries@[k])),
        decreases entries.len() - i,
    {
        let mut row = row_of(String::from_str("  "), Tint::Plain);
        match entries[i].status {
            PlanEntryStatus::Pending => add_piece(&mut row, String::from_str("○"), Tint::DarkGray),
            PlanEntryStatus::InProgress => add_piece(
                &mut row,
                String::from_str("◐"),
                Tint::Yellow,
            ),
            PlanEntryStatus::Completed => add_piece(&mut row, String::from_str("●"), Tint::Green),
        }
        add_piece(&mut row, String::from_str(" "), Tint::Plain);
        add_piece(&mut row, entries[i].content.clone(), Tint::Plain);
        assert(row_view(row@) =~= plan_row(entries@[i as int]));
        add_row(&mut rows, row);
        assert(rows_view(rows@) =~= head + Seq::new(
            (i + 1) as nat,
            |k: int| plan_row(entries@[k]),
        ));
        i += 1;
    }
    rows
}

/// A line without the carriage return at its end.
pub open spec fn without_return(line: Seq<char>) -> Seq<char> {
    if line.len() > 0 && line.last() == '\r' {
        line.drop_last()
    } else {
        line
    }
}

/// The lines of a text. A line ends with a line feed, or with a carriage
/// return and a line feed, neither of which belongs to it; what follows the
/// last line feed is a line too, unless it is empty.
pub open spec fn text_lines(text: Seq<char>) -> Seq<Seq<char>> {
    let pieces = split_on(text, '\n');
    let ended = Seq::new((pieces.len() - 1) as nat, |i: int| without_return(pieces[i]));
    if pieces.last().len() > 0 {
        ended.push(pieces.last())
    } else {
        ended
    }
}

/// The lines of a text.
pub fn lines_of(text: &str) -> (r: Vec<Vec<char>>)
    ensures
        views(r@) == text_lines(text@),
{
    let pieces = split(&chars_of(text), '\n');
    proof {
        lemma_split_has_pieces(text@, '\n');
    }
    let ghost all = split_on(text@, '\n');
    let n = pieces.len();
    let mut out: Vec<Vec<char>> = Vec::new();
    let mut i: usize = 0;
    while i < n - 1
        invariant
            n == pieces.len(),
            n >= 1,
            i <= n - 1,
            all == views(pieces@),
            out@.len() == i,
            forall|k: int| 0 <= k < i ==> (#[trigger] out@[k])@ == without_return(all[k]),
        decreases n - i,
    {
        let piece = &pieces[i];
        assert(piece@ == all[i as int]);
        let m = piece.len();
        let line = if m > 0 && piece[m - 1] == '\r' {
            slice_of(piece, 0, m - 1)
        } else {
            piece.clone()
        };
        assert(line@ =~= without_return(all[i as int]));
        out.push(line);
        i += 1;
    }
    assert(pieces@[n - 1]@ == all.last());
    if pieces[n - 1].len() > 0 {
        out.push(pieces[n - 1].clone());
    }
    assert(views(out@) =~= text_lines(text@));
    out
}

/// A rule across the screen.
pub open spec fn rule(width: nat) -> Seq<char> {
    Seq::new(width, |i: int| '─')
}

/// The rows of a message of the user: its lines between two rules.
pub open spec fn user_view(text: Seq<char>, width: nat) -> Seq<Seq<PieceView>> {
    seq![seq![piece_of(rule(width), Tint::DarkGray)]] + Seq::new(
        text_lines(text).len(),
        |i: int| seq![piece_of(text_lines(text)[i], Tint::DarkGray)],
    ) + seq![seq![piece_of(rule(width), Tint::DarkGray)]]
}

/// The rows of a message of a role that is shown as it is: its lines, the
/// first behind the role, or the role alone where the message has no line.
pub open spec fn labelled_view(role: Seq<char>, text: Seq<char>) -> Seq<Seq<PieceView>> {
    let lines = text_lines(text);
    if lines.len() == 0 {
        seq![seq![piece_of(role + ": "@, Tint::Bold)]]
    } else {
        Seq::new(
            lines.len(),
            |i: int|
                if i == 0 {
                    seq![piece_of(role + ": "@, Tint::Bold), piece_of(lines[0], Tint::Plain)]
                } else {
                    seq![piece_of(lines[i], Tint::Plain)]
                },
        )
    }
}

/// The rows of a message, unless it is of a role whose messages are shown as
/// markdown.
pub open spec fn message_view(role: Seq<char>, text: Seq<char>, width: nat) -> Option<
    Seq<Seq<PieceView>>,
> {
    if role == "User"@ {
        Some(user_view(text, width))
    } else if role == "Agent"@ || role == "Thought"@ {
        None
    } else {
        Some(labelled_view(role, text))
    }
}

/// A rule across the screen.
fn rule_of(width: usize) -> (r: String)
    ensures
        r@ == rule(width as nat),
{
    let mut r = String::new();
    let mut i: usize = 0;
    while i < width
        invariant
            i <= width,
            r@ == rule(i as nat),
        decreases width - i,
    {
        r.push('─');
        assert(r@ =~= rule((i + 1) as nat));
        i += 1;
    }
    r
}

/// The role with a colon and a space behind it.
fn role_label(role: &str) -> (r: String)
    ensures
        r@ == role@ + ": "@,
{
    let mut r = String::from_str(role);
    r.append(": ");
    r
}

/// The rows of a message of the user.
fn user_rows(text: &str, width: usize) -> (r: Vec<Vec<Piece>>)
    ensures
        rows_view(r@) == user_view(text@, width as nat),
{
    let lines = lines_of(text);
    let ghost all = text_lines(text@);
    let ghost head = seq![seq![piece_of(rule(width as nat), Tint::DarkGray)]];
    let mut rows: Vec<Vec<Piece>> = Vec::new();
    add_row(&mut rows, row_of(rule_of(width), Tint::DarkGray));
    assert(rows_view(rows@) =~= head);
    let mut i: usize = 0;
    while i < lines.len()
        invariant
            i <= lines.len(),
            all == views(lines@),
            rows_view(rows@) == head + Seq::new(
                i as nat,
                |k: int| seq![piece_of(all[k], Tint::DarkGray)],
            ),
        decreases lines.len() - i,
    {
        assert(lines@[i as int]@ == all[i as int]);
        add_row(&mut rows, row_of(string_of(&lines[i]), Tint::DarkGray));
        assert(rows_view(rows@) =~= head + Seq::new(
            (i + 1) as nat,
            |k: int| seq![piece_of(all[k], Tint::DarkGray)],
        ));
        i += 1;
    }
    add_row(&mut rows, row_of(rule_of(width), Tint::DarkGray));
    assert(rows_view(rows@) =~= user_view(text@, width as nat));
    rows
}

/// The rows of a message that is shown as it is.
fn labelled_rows(role: &str, text: &str) -> (r: Vec<Vec<Piece>>)
    ensures
        rows_view(r@) == labelled_view(role@, text@),
{
    let lines = lines_of(text);
    let ghost all = text_lines(text@);
    let mut rows: Vec<Vec<Piece>> = Vec::new();
    if lines.len() == 0 {
        add_row(&mut rows, row_of(role_label(role), Tint::Bold));
        assert(rows_view(rows@) =~= labelled_view(role@, text@));
        return rows;
    }
    let ghost wanted = labelled_view(role@, text@);
    let mut i: usize = 0;
    assert(rows_view(rows@) =~= wanted.take(0));
    while i < lines.len()
        invariant
            i <= lines.len(),
            lines.len() > 0,
            all == views(lines@),
            all == text_lines(text@),
            wanted == labelled_view(role@, text@),
            rows_view(rows@) == wanted.take(i as int),
        decreases lines.len() - i,
    {
        assert(lines@[i as int]@ == all[i as int]);
        let mut row: Vec<Piece> = Vec::new();
        assert(row_view(row@) =~= Seq::<PieceView>::empty());
        if i == 0 {
            add_piece(&mut row, role_label(role), Tint::Bold);
        }
        add_piece(&mut row, string_of(&lines[i]), Tint::Plain);
        assert(row_view(row@) =~= wanted[i as int]);
        add_row(&mut rows, row);
        assert(rows_view(rows@) =~= wanted.take(i + 1));
        i += 1;
    }
    assert(wanted.take(lines.len() as int) =~= wanted);
    rows
}

/// The rows of a message on a screen of the given width, unless it is of a
/// role whose messages are shown as markdown.
pub fn render_message(role: &str, text: &str, width: usize) -> (r: Option<Vec<Vec<Piece>>>)
    ensures
        match r {
            Some(rows) => message_view(role@, text@, width as nat) == Some(rows_view(rows@)),
            None => message_view(role@, text@, width as nat) is None,
        },
{
    if str_eq(role, "User") {
        Some(user_rows(text, width))
    } else if str_eq(role, "Agent") || str_eq(role, "Thought") {
        None
    } else {
        Some(labelled_rows(role, text))
    }
}

/// Rows with the role at the front of the first one, or the role alone
/// where there is no row.
pub open spec fn with_role(rows: Seq<Seq<PieceView>>, role: Seq<char>) -> Seq<Seq<PieceView>> {
    if rows.len() == 0 {
        seq![seq![piece_of(role + ": "@, Tint::Bold)]]
    } else {
        rows.update(0, seq![piece_of(role + ": "@, Tint::Bold)] + rows[0])
    }
}

/// Puts the role at the front of the rows of a message that was shown as
/// markdown.
pub fn render_markdown_message(rows: Vec<Vec<Piece>>, role: &str) -> (r: Vec<Vec<Piece>>)
    ensures
        rows_view(r@) == with_role(rows_view(rows@), role@),
{
    let mut rows = rows;
    let ghost given = rows_view(rows@);
    if rows.len() == 0 {
        add_row(&mut rows, row_of(role_label(role), Tint::Bold));
        assert(rows_view(rows@) =~= with_role(given, role@));
        return rows;
    }
    let first = rows.remove(0);
    let mut row = row_of(role_label(role), Tint::Bold);
    let ghost label = row_view(row@);
    let mut i: usize = 0;
    while i < first.len()
        invariant
            i <= first.len(),
            row_view(row@) == label + row_view(first@).take(i as int),
        decreases first.len() - i,
    {
        let ghost before = row_view(row@);
        row.push(Piece { text: first[i].text.clone(), tint: first[i].tint });
        assert(row_view(row@) =~= before.push(first@[i as int]@));
        assert(row_view(first@).take(i + 1) =~= row_view(first@).take(i as int).push(
            first@[i as int]@,
        ));
        i += 1;
    }
    assert(row_view(first@).take(first.len() as int) =~= row_view(first@));
    rows.insert(0, row);
    assert(rows_view(rows@) =~= with_role(given, role@));
    rows
}

} // verus!
