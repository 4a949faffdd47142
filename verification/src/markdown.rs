//! Markdown as rows of the screen. A parser reads the text and reports what
//! it finds, event by event; the rows are built from the events here. Code
//! blocks are handed out to be highlighted and come back as rows.

use crate::acp_client::{canonical_language, canonical_language_token};
use crate::chat_view::{blank_row, piece_of, row_view, rows_view, Piece, PieceView, Tint};
use crate::text::{
    chars_of, lemma_split_has_pieces, split, split_on, string_of, text_of, views,
};
use vstd::prelude::*;
use vstd::string::{StringExecFns, StrSliceExecFns};

verus! {

/// What a parser reports of a text, as far as the rows depend on it.
#[derive(Debug, Clone)]
pub enum MarkdownEvent {
    /// A code block begins. A fenced block names its language, possibly with
    /// the empty text; an indented block names none.
    CodeBlockStart { fence: Option<String> },
    /// A code block ends.
    CodeBlockEnd,
    /// Text, within a code block or without.
    Text(String),
    /// Code within a line.
    Code(String),
    /// A paragraph ends.
    ParagraphEnd,
    /// A line break, soft or hard.
    Break,
    /// A heading of the given level begins.
    HeadingStart { level: u8 },
    /// A heading ends.
    HeadingEnd,
    /// An item of a list begins.
    ItemStart,
    /// An item of a list ends.
    ItemEnd,
    /// Anything else.
    Other,
}

/// Mathematical model of a [`CodeBlock`].
pub struct CodeView {
    pub code: Seq<char>,
    pub lang: Option<Seq<char>>,
}

/// A code block that waits to be highlighted: its text, and the name that
/// the highlighter knows for its language.
#[derive(Debug, Clone)]
pub struct CodeBlock {
    pub code: String,
    pub lang: Option<String>,
}

impl View for CodeBlock {
    type V = CodeView;

    open spec fn view(&self) -> CodeView {
        CodeView { code: self.code@, lang: text_of(self.lang) }
    }
}

/// Mathematical model of [`MarkdownRows`].
pub struct MarkdownView {
    pub rows: Seq<Seq<PieceView>>,
    pub current: Seq<PieceView>,
    pub in_code_block: bool,
    pub code_lang: Option<Seq<char>>,
    pub code_content: Seq<char>,
}

/// The rows that have been built of a text so far: the rows that are done,
/// the row that is being filled, and the code block that is being read.
#[derive(Debug, Clone)]
pub struct MarkdownRows {
    pub rows: Vec<Vec<Piece>>,
    pub current: Vec<Piece>,
    pub in_code_block: bool,
    pub code_lang: Option<String>,
    pub code_content: String,
}

impl View for MarkdownRows {
    type V = MarkdownView;

    open spec fn view(&self) -> MarkdownView {
        MarkdownView {
            rows: rows_view(self.rows@),
            current: row_view(self.current@),
            in_code_block: self.in_code_block,
            code_lang: text_of(self.code_lang),
            code_content: self.code_content@,
        }
    }
}

/// The state before any event.
pub open spec fn start() -> MarkdownView {
    MarkdownView {
        rows: Seq::empty(),
        current: Seq::empty(),
        in_code_block: false,
        code_lang: None,
        code_content: Seq::empty(),
    }
}

/// The row that is being filled is done, whatever it holds.
pub open spec fn broken(v: MarkdownView) -> MarkdownView {
    MarkdownView { rows: v.rows.push(v.current), current: Seq::empty(), ..v }
}

/// The row that is being filled is done, unless it is empty.
pub open spec fn flushed(v: MarkdownView) -> MarkdownView {
    if v.current.len() > 0 {
        broken(v)
    } else {
        v
    }
}

/// A piece goes into the row that is being filled.
pub open spec fn with_piece(v: MarkdownView, piece: PieceView) -> MarkdownView {
    MarkdownView { current: v.current.push(piece), ..v }
}

/// A part of a text goes into the row that is being filled, unless it is
/// empty.
pub open spec fn with_part(v: MarkdownView, part: Seq<char>) -> MarkdownView {
    if part.len() > 0 {
        with_piece(v, piece_of(part, Tint::Plain))
    } else {
        v
    }
}

/// Each part goes into a row of its own, behind what that row holds.
pub open spec fn with_lines(v: MarkdownView, parts: Seq<Seq<char>>) -> MarkdownView
    decreases parts.len(),
{
    if parts.len() == 0 {
        v
    } else {
        broken(with_part(with_lines(v, parts.drop_last()), parts.last()))
    }
}

/// Text outside a code block: it is cut at its line feeds; each part but the
/// last ends its row.
pub open spec fn with_text(v: MarkdownView, text: Seq<char>) -> MarkdownView {
    let parts = split_on(text, '\n');
    with_part(with_lines(v, parts.drop_last()), parts.last())
}

/// The language of a code block, as the highlighter knows it.
pub open spec fn block_language(fence: Option<Seq<char>>) -> Option<Seq<char>> {
    match fence {
        Some(lang) => if lang.len() > 0 {
            Some(canonical_language(lang))
        } else {
            None
        },
        None => None,
    }
}

/// The mark of a heading: as many `#` as its level says, and a space.
pub open spec fn heading_mark(level: u8) -> Seq<char> {
    Seq::new(level as nat, |i: int| '#').push(' ')
}

/// The state after an event. A code block begins behind an empty row, in a
/// row of its own, and gathers its text; where it ends, its text is handed
/// out and forgotten. Outside a code block, text and code fill the row;
/// headings and items begin with their marks; the end of a paragraph, of a
/// heading or of an item, and a line break, end the row unless it is empty.
pub open spec fn after_event(v: MarkdownView, event: MarkdownEvent) -> MarkdownView {
    match event {
        MarkdownEvent::CodeBlockStart { fence } => MarkdownView {
            rows: flushed(v).rows.push(blank_row()),
            current: Seq::empty(),
            in_code_block: true,
            code_lang: block_language(text_of(fence)),
            code_content: Seq::empty(),
        },
        MarkdownEvent::CodeBlockEnd => MarkdownView {
            in_code_block: false,
            code_lang: None,
            code_content: Seq::empty(),
            ..v
        },
        MarkdownEvent::Text(text) => if v.in_code_block {
            MarkdownView { code_content: v.code_content + text@, ..v }
        } else {
            with_text(v, text@)
        },
        MarkdownEvent::Code(code) => with_piece(
            v,
            piece_of("`"@ + code@ + "`"@, Tint::YellowBold),
        ),
        MarkdownEvent::ParagraphEnd => flushed(v),
        MarkdownEvent::Break => flushed(v),
        MarkdownEvent::HeadingStart { level } => with_piece(
            v,
            piece_of(heading_mark(level), Tint::CyanBold),
        ),
        MarkdownEvent::HeadingEnd => flushed(v),
        MarkdownEvent::ItemStart => with_piece(v, piece_of("• "@, Tint::Plain)),
        MarkdownEvent::ItemEnd => flushed(v),
        MarkdownEvent::Other => v,
    }
}

/// The code block that an event hands out to be highlighted.
pub open spec fn code_of(v: MarkdownView, event: MarkdownEvent) -> Option<CodeView> {
    match event {
        MarkdownEvent::CodeBlockEnd => Some(CodeView { code: v.code_content, lang: v.code_lang }),
        _ => None,
    }
}

/// The state after the rows of a highlighted code block have come back: they
/// stand behind the rows that were done, with an empty row behind them.
pub open spec fn with_code_rows(v: MarkdownView, rows: Seq<Seq<PieceView>>) -> MarkdownView {
    MarkdownView { rows: (v.rows + rows).push(blank_row()), ..v }
}

impl MarkdownRows {
    /// The state before any event.
    pub fn new() -> (r: MarkdownRows)
        ensures
            r@ == start(),
    {
        let r = MarkdownRows {
            rows: Vec::new(),
            current: Vec::new(),
            in_code_block: false,
            code_lang: None,
            code_content: String::new(),
        };
        assert(rows_view(r.rows@) =~= Seq::<Seq<PieceView>>::empty());
        assert(row_view(r.current@) =~= Seq::<PieceView>::empty());
        r
    }

    /// Ends the row that is being filled, whatever it holds.
    fn end_row(&mut self)
        ensures
            final(self)@ == broken(old(self)@),
    {
        let mut row: Vec<Piece> = Vec::new();
        core::mem::swap(&mut row, &mut self.current);
        self.rows.push(row);
        assert(rows_view(self.rows@) =~= rows_view(old(self).rows@).push(
            row_view(old(self).current@),
        ));
        assert(row_view(self.current@) =~= Seq::<PieceView>::empty());
    }

    /// Ends the row that is being filled, unless it is empty.
    fn flush(&mut self)
        ensures
            final(self)@ == flushed(old(self)@),
    {
        if self.current.len() > 0 {
            self.end_row();
        }
    }

    /// Puts a piece into the row that is being filled.
    fn add(&mut self, text: String, tint: Tint)
        ensures
            final(self)@ == with_piece(old(self)@, piece_of(text@, tint)),
    {
        self.current.push(Piece { text: text, tint: tint });
        assert(row_view(self.current@) =~= row_view(old(self).current@).push(
            piece_of(text@, tint),
        ));
    }

    /// Puts a part of a text into the row that is being filled, unless it is
    /// empty.
    fn add_part(&mut self, part: &Vec<char>)
        ensures
            final(self)@ == with_part(old(self)@, part@),
    {
        if part.len() > 0 {
            self.add(string_of(part), Tint::Plain);
        }
    }

    /// Takes text outside a code block.
    fn add_text(&mut self, text: &str)
        ensures
            final(self)@ == with_text(old(self)@, text@),
    {
        let parts = split(&chars_of(text), '\n');
        proof {
            lemma_split_has_pieces(text@, '\n');
        }
        let ghost all = split_on(text@, '\n');
        let n = parts.len();
        let mut i: usize = 0;
        assert(all.drop_last().take(0) =~= Seq::<Seq<char>>::empty());
        while i < n - 1
            invariant
                n == parts.len(),
                n >= 1,
                i <= n - 1,
                all == views(parts@),
                self@ == with_lines(old(self)@, all.drop_last().take(i as int)),
            decreases n - i,
        {
            assert(parts@[i as int]@ == all[i as int]);
            assert(all.drop_last().take(i + 1).drop_last() =~= all.drop_last().take(i as int));
            assert(all.drop_last().take(i + 1).last() == all[i as int]);
            self.add_part(&parts[i]);
            self.end_row();
            i += 1;
        }
        assert(all.drop_last().take(n - 1) =~= all.drop_last());
        assert(parts@[n - 1]@ == all.last());
        self.add_part(&parts[n - 1]);
    }

    /// Takes an event of the parser. Where a code block ends, it is handed
    /// out: its rows are to be given to [`MarkdownRows::add_code_rows`]
    /// before the next event.
    pub fn on_event(&mut self, event: MarkdownEvent) -> (code: Option<CodeBlock>)
        ensures
            final(self)@ == after_event(old(self)@, event),
            match code {
                Some(block) => code_of(old(self)@, event) == Some(block@),
                None => code_of(old(self)@, event) is None,
            },
    {
        match event {
            MarkdownEvent::CodeBlockStart { fence } => {
                self.flush();
                assert(row_view(self.current@) =~= Seq::<PieceView>::empty());
                self.rows.push(blank());
                assert(rows_view(self.rows@) =~= flushed(old(self)@).rows.push(blank_row()));
                self.in_code_block = true;
                self.code_lang = match fence {
                    Some(lang) => {
                        if lang.as_str().unicode_len() > 0 {
                            Some(canonical_language_token(lang.as_str()))
                        } else {
                            None
                        }
                    },
                    None => None,
                };
                self.code_content = String::new();
                None
            },
            MarkdownEvent::CodeBlockEnd => {
                let mut code = String::new();
                core::mem::swap(&mut code, &mut self.code_content);
                let mut lang: Option<String> = None;
                core::mem::swap(&mut lang, &mut self.code_lang);
                self.in_code_block = false;
                Some(CodeBlock { code: code, lang: lang })
            },
            MarkdownEvent::Text(text) => {
                if self.in_code_block {
                    self.code_content.append(text.as_str());
                } else {
                    self.add_text(text.as_str());
                }
                None
            },
            MarkdownEvent::Code(code) => {
                let mut text = String::from_str("`");
                text.append(code.as_str());
                text.append("`");
                self.add(text, Tint::YellowBold);
                None
            },
            MarkdownEvent::ParagraphEnd => {
                self.flush();
                None
            },
            MarkdownEvent::Break => {
                self.flush();
                None
            },
            MarkdownEvent::HeadingStart { level } => {
                let mut mark = String::new();
                let mut i: u8 = 0;
                while i < level
                    invariant
                        i <= level,
                        mark@ == Seq::new(i as nat, |k: int| '#'),
                    decreases level - i,
                {
                    mark.push('#');
                    assert(mark@ =~= Seq::new((i + 1) as nat, |k: int| '#'));
                    i += 1;
                }
                mark.push(' ');
                self.add(mark, Tint::CyanBold);
                None
            },
            MarkdownEvent::HeadingEnd => {
                self.flush();
                None
            },
            MarkdownEvent::ItemStart => {
                self.add(String::from_str("• "), Tint::Plain);
                None
            },
            MarkdownEvent::ItemEnd => {
                self.flush();
                None
            },
            MarkdownEvent::Other => None,
        }
    }

    /// Takes the rows of a code block that has been highlighted.
    pub fn add_code_rows(&mut self, highlighted: Vec<Vec<Piece>>)
        ensures
            final(self)@ == with_code_rows(old(self)@, rows_view(highlighted@)),
    {
        let mut highlighted = highlighted;
        let ghost given = rows_view(highlighted@);
        let ghost before = rows_view(self.rows@);
        self.rows.append(&mut highlighted);
        assert(rows_view(self.rows@) =~= before + given);
        self.rows.push(blank());
        assert(rows_view(self.rows@) =~= (before + given).push(blank_row()));
    }

    /// The rows of the text, once the parser has reported all of it.
    pub fn finish(self) -> (rows: Vec<Vec<Piece>>)
        ensures
            rows_view(rows@) == flushed(self@).rows,
    {
        let mut done = self;
        done.flush();
        done.rows
    }
}

/// An empty row.
fn blank() -> (r: Vec<Piece>)
    ensures
        row_view(r@) == blank_row(),
{
    let mut r: Vec<Piece> = Vec::new();
    r.push(Piece { text: String::new(), tint: Tint::Plain });
    assert(row_view(r@) =~= blank_row());
    r
}

} // verus!
