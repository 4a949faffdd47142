//! The agent providers that the chat client can talk to, the commands of its
//! palette, and the state of a chat: its history, its palette and its log.

use crate::codec::{lowercase_text, trim_text, unicode_lowercase, unicode_trimmed};
use crate::text::{
    chars_of, join, join_range, leading_run, lemma_leading_run, lower, same_text, slice_of, split,
    split_on, starts_with, str_eq, string_of, text_of, to_lower, views,
};
use vstd::prelude::*;
use vstd::string::{StringExecFns, StrSliceExecFns};

verus! {

/// The agent providers.
#[derive(Debug, Clone, Copy, PartialEq, Eq, Default, Structural)]
pub enum AcpProvider {
    #[default]
    Codex,
    Opencode,
    Claude,
    Gemini,
}

/// All providers, in the order in which the palette shows them.
pub open spec fn all_providers() -> Seq<AcpProvider> {
    seq![AcpProvider::Codex, AcpProvider::Opencode, AcpProvider::Claude, AcpProvider::Gemini]
}

/// The place of a provider in the palette.
pub open spec fn provider_position(p: AcpProvider) -> usize {
    match p {
        AcpProvider::Codex => 0,
        AcpProvider::Opencode => 1,
        AcpProvider::Claude => 2,
        AcpProvider::Gemini => 3,
    }
}

impl AcpProvider {
    /// All providers, in the order in which the palette shows them.
    pub fn all() -> (r: Vec<AcpProvider>)
        ensures
            r@ == all_providers(),
    {
        let mut r: Vec<AcpProvider> = Vec::new();
        r.push(AcpProvider::Codex);
        r.push(AcpProvider::Opencode);
        r.push(AcpProvider::Claude);
        r.push(AcpProvider::Gemini);
        assert(r@ =~= all_providers());
        r
    }

    /// The place of this provider in the palette.
    pub fn position(&self) -> (i: usize)
        ensures
            i == provider_position(*self),
            i < 4,
            all_providers()[i as int] == *self,
    {
        match self {
            AcpProvider::Codex => 0,
            AcpProvider::Opencode => 1,
            AcpProvider::Claude => 2,
            AcpProvider::Gemini => 3,
        }
    }
}

/// The commands of the main palette.
#[derive(Debug, Clone, Copy, PartialEq, Eq, Structural)]
pub enum PaletteCommand {
    ToggleDebugMode,
    SwitchProvider,
}

/// The label of a command.
pub open spec fn command_label(c: PaletteCommand) -> Seq<char> {
    match c {
        PaletteCommand::ToggleDebugMode => "Toggle Debug Mode"@,
        PaletteCommand::SwitchProvider => "Switch ACP Provider"@,
    }
}

impl PaletteCommand {
    /// All commands, in the order in which the palette shows them.
    pub fn all() -> (r: Vec<PaletteCommand>)
        ensures
            r@ == seq![PaletteCommand::ToggleDebugMode, PaletteCommand::SwitchProvider],
    {
        let mut r: Vec<PaletteCommand> = Vec::new();
        r.push(PaletteCommand::ToggleDebugMode);
        r.push(PaletteCommand::SwitchProvider);
        assert(r@ =~= seq![PaletteCommand::ToggleDebugMode, PaletteCommand::SwitchProvider]);
        r
    }

    /// The label of this command.
    pub fn label(&self) -> (r: &'static str)
        ensures
            r@ == command_label(*self),
    {
        match self {
            PaletteCommand::ToggleDebugMode => "Toggle Debug Mode",
            PaletteCommand::SwitchProvider => "Switch ACP Provider",
        }
    }
}

/// Going one step round a ring of `len` places.
proof fn lemma_ring_step(selection: int, len: int)
    requires
        selection >= 0,
        len > 0,
    ensures
        (selection + len - 1) % len == if selection % len == 0 {
            len - 1
        } else {
            selection % len - 1
        },
        (selection + 1) % len == if selection % len == len - 1 {
            0
        } else {
            selection % len + 1
        },
{
    let q = selection / len;
    let r = selection % len;
    assert(selection == q * len + r && 0 <= r < len) by (nonlinear_arith)
        requires
            q == selection / len,
            r == selection % len,
            len > 0,
            selection >= 0,
    ;
    if r == 0 {
        vstd::arithmetic::div_mod::lemma_fundamental_div_mod_converse(
            selection + len - 1,
            len,
            q,
            len - 1,
        );
    } else {
        assert((q + 1) * len == q * len + len) by (nonlinear_arith);
        vstd::arithmetic::div_mod::lemma_fundamental_div_mod_converse(
            selection + len - 1,
            len,
            q + 1,
            r - 1,
        );
    }
    if r == len - 1 {
        assert((q + 1) * len == q * len + len) by (nonlinear_arith);
        vstd::arithmetic::div_mod::lemma_fundamental_div_mod_converse(
            selection + 1,
            len,
            q + 1,
            0,
        );
    } else {
        vstd::arithmetic::div_mod::lemma_fundamental_div_mod_converse(
            selection + 1,
            len,
            q,
            r + 1,
        );
    }
}

/// The selection one step up in a list of `len` entries, going round at the
/// top; an empty list leaves it alone.
pub fn palette_up(selection: usize, len: usize) -> (r: usize)
    ensures
        r == if len > 0 {
            (selection + len - 1) % (len as int)
        } else {
            selection as int
        },
{
    if len > 0 {
        proof {
            lemma_ring_step(selection as int, len as int);
        }
        let at = selection % len;
        if at == 0 {
            len - 1
        } else {
            at - 1
        }
    } else {
        selection
    }
}

/// The selection one step down in a list of `len` entries, going round at the
/// bottom; an empty list leaves it alone.
pub fn palette_down(selection: usize, len: usize) -> (r: usize)
    ensures
        r == if len > 0 {
            (selection + 1) % (len as int)
        } else {
            selection as int
        },
{
    if len > 0 {
        proof {
            lemma_ring_step(selection as int, len as int);
        }
        let at = selection % len;
        if at == len - 1 {
            0
        } else {
            at + 1
        }
    } else {
        selection
    }
}

/// The number of spaces that `s` ends with.
pub open spec fn trailing_spaces(s: Seq<char>) -> nat
    decreases s.len(),
{
    if s.len() > 0 && s.last() == ' ' {
        1 + trailing_spaces(s.drop_last())
    } else {
        0
    }
}

/// The number of characters other than spaces that `s` ends with.
pub open spec fn trailing_word(s: Seq<char>) -> nat
    decreases s.len(),
{
    if s.len() > 0 && s.last() != ' ' {
        1 + trailing_word(s.drop_last())
    } else {
        0
    }
}

/// A search text without its last word: the spaces at its end go, and then
/// what stands behind the last space before them.
pub open spec fn without_last_word(s: Seq<char>) -> Seq<char> {
    let body = s.take(s.len() - trailing_spaces(s));
    body.take(body.len() - trailing_word(body))
}

proof fn lemma_trailing_spaces(s: Seq<char>, k: int)
    requires
        0 <= k <= s.len(),
        forall|i: int| s.len() - k <= i < s.len() ==> #[trigger] s[i] == ' ',
        k == s.len() || s[s.len() - k - 1] != ' ',
    ensures
        trailing_spaces(s) == k,
    decreases k,
{
    if k > 0 {
        assert(s[s.len() - 1] == ' ');
        let rest = s.drop_last();
        assert forall|i: int| rest.len() - (k - 1) <= i < rest.len() implies #[trigger] rest[i]
            == ' ' by {
            assert(s[i] == ' ');
        }
        lemma_trailing_spaces(s.drop_last(), k - 1);
    }
}

proof fn lemma_trailing_word(s: Seq<char>, k: int)
    requires
        0 <= k <= s.len(),
        forall|i: int| s.len() - k <= i < s.len() ==> #[trigger] s[i] != ' ',
        k == s.len() || s[s.len() - k - 1] == ' ',
    ensures
        trailing_word(s) == k,
    decreases k,
{
    if k > 0 {
        assert(s[s.len() - 1] != ' ');
        let rest = s.drop_last();
        assert forall|i: int| rest.len() - (k - 1) <= i < rest.len() implies #[trigger] rest[i]
            != ' ' by {
            assert(s[i] != ' ');
        }
        lemma_trailing_word(s.drop_last(), k - 1);
    }
}

/// Deletes the last word of a search text.
pub fn palette_delete_word(search: &str) -> (r: String)
    ensures
        r@ == without_last_word(search@),
{
    let text = chars_of(search);
    let mut end: usize = text.len();
    while end > 0 && text[end - 1] == ' '
        invariant
            end <= text.len(),
            forall|i: int| end <= i < text@.len() ==> #[trigger] text@[i] == ' ',
        decreases end,
    {
        end -= 1;
    }
    proof {
        lemma_trailing_spaces(text@, text.len() - end);
    }
    let ghost body = text@.take(end as int);
    let mut start: usize = end;
    while start > 0 && text[start - 1] != ' '
        invariant
            start <= end <= text.len(),
            body == text@.take(end as int),
            forall|i: int| start <= i < end ==> #[trigger] body[i] != ' ',
        decreases start,
    {
        start -= 1;
    }
    proof {
        lemma_trailing_word(body, end - start);
    }
    let kept = slice_of(&text, 0, start);
    assert(kept@ == body.take(start as int));
    string_of(&kept)
}

/// The line of the debug log for a message.
pub fn debug_line(timestamp: &str, direction: &str, message: &str) -> (r: String)
    ensures
        r@ == "["@ + timestamp@ + "] "@ + direction@ + " "@ + message@,
{
    let mut r = String::from_str("[");
    r.append(timestamp);
    r.append("] ");
    r.append(direction);
    r.append(" ");
    r.append(message);
    r
}

/// The debug log after a line has been added: where that makes more than a
/// hundred lines, the oldest one goes.
pub open spec fn log_with(log: Seq<String>, line: String) -> Seq<String> {
    let all = log.push(line);
    if all.len() > 100 {
        all.skip(1)
    } else {
        all
    }
}

/// Adds a line to the debug log while the debug mode is on.
pub fn add_debug_message(log: &mut Vec<String>, debug_mode: bool, line: String)
    ensures
        final(log)@ == if debug_mode {
            log_with(old(log)@, line)
        } else {
            old(log)@
        },
        old(log)@.len() <= 100 ==> final(log)@.len() <= 100,
{
    if debug_mode {
        log.push(line);
        if log.len() > 100 {
            log.remove(0);
            assert(log@ =~= old(log)@.push(line).skip(1));
        }
    }
}

/// Part 1 of the table of language names: the name that the highlighter
/// knows for an alias, if the alias stands in this part.
pub open spec fn language_alias_1(s: Seq<char>) -> Option<Seq<char>> {
    if s == "js"@ || s == "javascript"@ || s == "node"@ {
        Some("javascript"@)
    } else if s == "jsx"@ {
        Some("jsx"@)
    } else if s == "ts"@ || s == "typescript"@ {
        Some("typescript"@)
    } else if s == "tsx"@ {
        Some("tsx"@)
    } else if s == "py"@ || s == "python"@ {
        Some("python"@)
    } else if s == "rb"@ || s == "ruby"@ {
        Some("ruby"@)
    } else if s == "rs"@ || s == "rust"@ {
        Some("rust"@)
    } else if s == "go"@ || s == "golang"@ {
        Some("go"@)
    } else if s == "java"@ {
        Some("java"@)
    } else {
        None
    }
}

/// Part 2 of the table of language names: the name that the highlighter
/// knows for an alias, if the alias stands in this part.
pub open spec fn language_alias_2(s: Seq<char>) -> Option<Seq<char>> {
    if s == "kt"@ || s == "kotlin"@ {
        Some("kotlin"@)
    } else if s == "swift"@ {
        Some("swift"@)
    } else if s == "php"@ {
        Some("php"@)
    } else if s == "sh"@ || s == "bash"@ || s == "shell"@ {
        Some("bash"@)
    } else if s == "zsh"@ {
        Some("zsh"@)
    } else if s == "ps"@ || s == "ps1"@ || s == "powershell"@ {
        Some("powershell"@)
    } else if s == "c"@ {
        Some("c"@)
    } else if s == "cpp"@ || s == "c++"@ || s == "cxx"@ {
        Some("cpp"@)
    } else if s == "cs"@ || s == "csharp"@ || s == "c#"@ {
        Some("cs"@)
    } else {
        None
    }
}

/// Part 3 of the table of language names: the name that the highlighter
/// knows for an alias, if the alias stands in this part.
pub open spec fn language_alias_3(s: Seq<char>) -> Option<Seq<char>> {
    if s == "objc"@ || s == "objective-c"@ || s == "objectivec"@ {
        Some("objective-c"@)
    } else if s == "json"@ {
        Some("json"@)
    } else if s == "yaml"@ || s == "yml"@ {
        Some("yaml"@)
    } else if s == "toml"@ {
        Some("toml"@)
    } else if s == "xml"@ {
        Some("xml"@)
    } else if s == "sql"@ {
        Some("sql"@)
    } else if s == "html"@ || s == "htm"@ {
        Some("html"@)
    } else if s == "css"@ {
        Some("css"@)
    } else if s == "scss"@ {
        Some("scss"@)
    } else {
        None
    }
}

/// Part 4 of the table of language names: the name that the highlighter
/// knows for an alias, if the alias stands in this part.
pub open spec fn language_alias_4(s: Seq<char>) -> Option<Seq<char>> {
    if s == "less"@ {
        Some("less"@)
    } else if s == "elixir"@ || s == "ex"@ || s == "exs"@ {
        Some("elixir"@)
    } else if s == "dart"@ {
        Some("dart"@)
    } else if s == "scala"@ {
        Some("scala"@)
    } else if s == "clojure"@ || s == "clj"@ {
        Some("clojure"@)
    } else if s == "haskell"@ || s == "hs"@ {
        Some("haskell"@)
    } else if s == "lua"@ {
        Some("lua"@)
    } else if s == "perl"@ || s == "pl"@ {
        Some("perl"@)
    } else if s == "r"@ {
        Some("r"@)
    } else {
        None
    }
}

/// Part 5 of the table of language names: the name that the highlighter
/// knows for an alias, if the alias stands in this part.
pub open spec fn language_alias_5(s: Seq<char>) -> Option<Seq<char>> {
    if s == "julia"@ || s == "jl"@ {
        Some("julia"@)
    } else if s == "erlang"@ || s == "erl"@ {
        Some("erlang"@)
    } else if s == "groovy"@ {
        Some("groovy"@)
    } else if s == "markdown"@ || s == "md"@ {
        Some("markdown"@)
    } else if s == "tex"@ || s == "latex"@ {
        Some("latex"@)
    } else if s == "rst"@ || s == "restructuredtext"@ {
        Some("restructuredtext"@)
    } else if s == "ini"@ || s == "cfg"@ {
        Some("ini"@)
    } else if s == "dockerfile"@ || s == "docker"@ {
        Some("dockerfile"@)
    } else if s == "makefile"@ || s == "make"@ {
        Some("makefile"@)
    } else {
        None
    }
}

/// The name that the highlighter knows for an alias.
pub open spec fn language_alias(s: Seq<char>) -> Option<Seq<char>> {
    if language_alias_1(s) is Some {
        language_alias_1(s)
    } else if language_alias_2(s) is Some {
        language_alias_2(s)
    } else if language_alias_3(s) is Some {
        language_alias_3(s)
    } else if language_alias_4(s) is Some {
        language_alias_4(s)
    } else if language_alias_5(s) is Some {
        language_alias_5(s)
    } else {
        None
    }
}

/// The name that the highlighter knows for the language of a code fence: a
/// leading run of dots goes, ASCII capitals are lowered, and an alias gives
/// way to the name it stands for.
pub open spec fn canonical_language(lang: Seq<char>) -> Seq<char> {
    let l = lower(lang.skip(leading_run(lang, '.', '.') as int));
    match language_alias(l) {
        Some(name) => name,
        None => l,
    }
}

/// Looks an alias up in part 1 of the table.
fn alias_1(s: &Vec<char>) -> (r: Option<&'static str>)
    ensures
        match r {
            Some(name) => language_alias_1(s@) == Some(name@),
            None => language_alias_1(s@) is None,
        },
{
    if same_text(s, &chars_of("js"))
        || same_text(s, &chars_of("javascript"))
        || same_text(s, &chars_of("node")) {
        Some("javascript")
    } else if same_text(s, &chars_of("jsx")) {
        Some("jsx")
    } else if same_text(s, &chars_of("ts")) || same_text(s, &chars_of("typescript")) {
        Some("typescript")
    } else if same_text(s, &chars_of("tsx")) {
        Some("tsx")
    } else if same_text(s, &chars_of("py")) || same_text(s, &chars_of("python")) {
        Some("python")
    } else if same_text(s, &chars_of("rb")) || same_text(s, &chars_of("ruby")) {
        Some("ruby")
    } else if same_text(s, &chars_of("rs")) || same_text(s, &chars_of("rust")) {
        Some("rust")
    } else if same_text(s, &chars_of("go")) || same_text(s, &chars_of("golang")) {
        Some("go")
    } else if same_text(s, &chars_of("java")) {
        Some("java")
    } else {
        None
    }
}

/// Looks an alias up in part 2 of the table.
fn alias_2(s: &Vec<char>) -> (r: Option<&'static str>)
    ensures
        match r {
            Some(name) => language_alias_2(s@) == Some(name@),
            None => language_alias_2(s@) is None,
        },
{
    if same_text(s, &chars_of("kt")) || same_text(s, &chars_of("kotlin")) {
        Some("kotlin")
    } else if same_text(s, &chars_of("swift")) {
        Some("swift")
    } else if same_text(s, &chars_of("php")) {
        Some("php")
    } else if same_text(s, &chars_of("sh"))
        || same_text(s, &chars_of("bash"))
        || same_text(s, &chars_of("shell")) {
        Some("bash")
    } else if same_text(s, &chars_of("zsh")) {
        Some("zsh")
    } else if same_text(s, &chars_of("ps"))
        || same_text(s, &chars_of("ps1"))
        || same_text(s, &chars_of("powershell")) {
        Some("powershell")
    } else if same_text(s, &chars_of("c")) {
        Some("c")
    } else if same_text(s, &chars_of("cpp"))
        || same_text(s, &chars_of("c++"))
        || same_text(s, &chars_of("cxx")) {
        Some("cpp")
    } else if same_text(s, &chars_of("cs"))
        || same_text(s, &chars_of("csharp"))
        || same_text(s, &chars_of("c#")) {
        Some("cs")
    } else {
        None
    }
}

/// Looks an alias up in part 3 of the table.
fn alias_3(s: &Vec<char>) -> (r: Option<&'static str>)
    ensures
        match r {
            Some(name) => language_alias_3(s@) == Some(name@),
            None => language_alias_3(s@) is None,
        },
{
    if same_text(s, &chars_of("objc"))
        || same_text(s, &chars_of("objective-c"))
        || same_text(s, &chars_of("objectivec")) {
        Some("objective-c")
    } else if same_text(s, &chars_of("json")) {
        Some("json")
    } else if same_text(s, &chars_of("yaml")) || same_text(s, &chars_of("yml")) {
        Some("yaml")
    } else if same_text(s, &chars_of("toml")) {
        Some("toml")
    } else if same_text(s, &chars_of("xml")) {
        Some("xml")
    } else if same_text(s, &chars_of("sql")) {
        Some("sql")
    } else if same_text(s, &chars_of("html")) || same_text(s, &chars_of("htm")) {
        Some("html")
    } else if same_text(s, &chars_of("css")) {
        Some("css")
    } else if same_text(s, &chars_of("scss")) {
        Some("scss")
    } else {
        None
    }
}

/// Looks an alias up in part 4 of the table.
fn alias_4(s: &Vec<char>) -> (r: Option<&'static str>)
    ensures
        match r {
            Some(name) => language_alias_4(s@) == Some(name@),
            None => language_alias_4(s@) is None,
        },
{
    if same_text(s, &chars_of("less")) {
        Some("less")
    } else if same_text(s, &chars_of("elixir"))
        || same_text(s, &chars_of("ex"))
        || same_text(s, &chars_of("exs")) {
        Some("elixir")
    } else if same_text(s, &chars_of("dart")) {
        Some("dart")
    } else if same_text(s, &chars_of("scala")) {
        Some("scala")
    } else if same_text(s, &chars_of("clojure")) || same_text(s, &chars_of("clj")) {
        Some("clojure")
    } else if same_text(s, &chars_of("haskell")) || same_text(s, &chars_of("hs")) {
        Some("haskell")
    } else if same_text(s, &chars_of("lua")) {
        Some("lua")
    } else if same_text(s, &chars_of("perl")) || same_text(s, &chars_of("pl")) {
        Some("perl")
    } else if same_text(s, &chars_of("r")) {
        Some("r")
    } else {
        None
    }
}

/// Looks an alias up in part 5 of the table.
fn alias_5(s: &Vec<char>) -> (r: Option<&'static str>)
    ensures
        match r {
            Some(name) => language_alias_5(s@) == Some(name@),
            None => language_alias_5(s@) is None,
        },
{
    if same_text(s, &chars_of("julia")) || same_text(s, &chars_of("jl")) {
        Some("julia")
    } else if same_text(s, &chars_of("erlang")) || same_text(s, &chars_of("erl")) {
        Some("erlang")
    } else if same_text(s, &chars_of("groovy")) {
        Some("groovy")
    } else if same_text(s, &chars_of("markdown")) || same_text(s, &chars_of("md")) {
        Some("markdown")
    } else if same_text(s, &chars_of("tex")) || same_text(s, &chars_of("latex")) {
        Some("latex")
    } else if same_text(s, &chars_of("rst")) || same_text(s, &chars_of("restructuredtext")) {
        Some("restructuredtext")
    } else if same_text(s, &chars_of("ini")) || same_text(s, &chars_of("cfg")) {
        Some("ini")
    } else if same_text(s, &chars_of("dockerfile")) || same_text(s, &chars_of("docker")) {
        Some("dockerfile")
    } else if same_text(s, &chars_of("makefile")) || same_text(s, &chars_of("make")) {
        Some("makefile")
    } else {
        None
    }
}

/// Looks an alias up in the table.
fn alias(s: &Vec<char>) -> (r: Option<&'static str>)
    ensures
        match r {
            Some(name) => language_alias(s@) == Some(name@),
            None => language_alias(s@) is None,
        },
{
    match alias_1(s) {
        Some(name) => {
            return Some(name);
        },
        None => {},
    }
    match alias_2(s) {
        Some(name) => {
            return Some(name);
        },
        None => {},
    }
    match alias_3(s) {
        Some(name) => {
            return Some(name);
        },
        None => {},
    }
    match alias_4(s) {
        Some(name) => {
            return Some(name);
        },
        None => {},
    }
    match alias_5(s) {
        Some(name) => {
            return Some(name);
        },
        None => {},
    }
    None
}

/// The name that the highlighter knows for the language of a code fence.
pub fn canonical_language_token(lang: &str) -> (r: String)
    ensures
        r@ == canonical_language(lang@),
{
    let all = chars_of(lang);
    let mut from: usize = 0;
    while from < all.len() && all[from] == '.'
        invariant
            from <= all.len(),
            forall|i: int| 0 <= i < from ==> (#[trigger] all@[i] == '.' || all@[i] == '.'),
        decreases all.len() - from,
    {
        from += 1;
    }
    proof {
        lemma_leading_run(all@, '.', '.', from as int);
    }
    let rest = slice_of(&all, from, all.len());
    assert(rest@ == all@.skip(from as int));
    let l = to_lower(&rest);
    match alias(&l) {
        Some(name) => String::from_str(name),
        None => string_of(&l),
    }
}

/// One line of a text whose code fences are tidied: a line that begins with
/// three backticks keeps them and gets the canonical name of the language
/// that follows them, if any; every other line stands as it is.
pub open spec fn tidy_fence(line: Seq<char>) -> Seq<char> {
    if "```"@.is_prefix_of(line) {
        let lang = unicode_trimmed(line.skip(3));
        if lang.len() > 0 {
            "```"@ + canonical_language(lang)
        } else {
            "```"@
        }
    } else {
        line
    }
}

/// Every line tidied.
pub open spec fn tidy_fences(lines: Seq<Seq<char>>) -> Seq<Seq<char>> {
    Seq::new(lines.len(), |i: int| tidy_fence(lines[i]))
}

/// A text with its code fences tidied, line by line.
pub open spec fn normalized_fences(content: Seq<char>) -> Seq<char> {
    join(tidy_fences(split_on(content, '\n')), '\n')
}

/// Tidies one line.
fn normalize_line(line: &Vec<char>) -> (r: Vec<char>)
    ensures
        r@ == tidy_fence(line@),
{
    proof {
        reveal_strlit("```");
    }
    let fence = chars_of("```");
    if !starts_with(line, &fence) {
        return line.clone();
    }
    let rest = string_of(&slice_of(line, 3, line.len()));
    assert(rest@ == line@.skip(3));
    let lang = trim_text(rest.as_str());
    let mut out = fence;
    if lang.unicode_len() > 0 {
        let name = chars_of(canonical_language_token(lang).as_str());
        let ghost head = out@;
        let mut i: usize = 0;
        while i < name.len()
            invariant
                i <= name.len(),
                out@ == head + name@.take(i as int),
            decreases name.len() - i,
        {
            out.push(name[i]);
            assert(name@.take(i + 1) == name@.take(i as int).push(name@[i as int]));
            i += 1;
        }
        assert(name@.take(name.len() as int) == name@);
    }
    out
}

/// Tidies the code fences of a text: the language behind the three backticks
/// that open a fence is replaced by its canonical name.
pub fn normalize_code_fences(content: &str) -> (r: String)
    ensures
        r@ == normalized_fences(content@),
{
    let lines = split(&chars_of(content), '\n');
    let ghost all = views(lines@);
    let mut tidied: Vec<Vec<char>> = Vec::new();
    let mut i: usize = 0;
    while i < lines.len()
        invariant
            i <= lines.len(),
            all == views(lines@),
            tidied@.len() == i,
            forall|k: int| 0 <= k < i ==> (#[trigger] tidied@[k])@ == tidy_fence(all[k]),
        decreases lines.len() - i,
    {
        assert(all[i as int] == lines@[i as int]@);
        tidied.push(normalize_line(&lines[i]));
        i += 1;
    }
    assert(views(tidied@) =~= tidy_fences(all));
    let n = tidied.len();
    let out = join_range(&tidied, 0, n, '\n');
    assert(views(tidied@).subrange(0, n as int) == views(tidied@));
    string_of(&out)
}

/// `needle` stands somewhere in `hay`.
pub open spec fn contains_text(hay: Seq<char>, needle: Seq<char>) -> bool {
    exists|i: int| 0 <= i <= hay.len() && needle.is_prefix_of(#[trigger] hay.skip(i))
}

/// Whether `needle` stands somewhere in `hay`.
pub fn text_contains(hay: &Vec<char>, needle: &Vec<char>) -> (r: bool)
    ensures
        r == contains_text(hay@, needle@),
{
    let mut i: usize = 0;
    while i < hay.len()
        invariant
            i <= hay.len(),
            forall|k: int| 0 <= k < i ==> !needle@.is_prefix_of(#[trigger] hay@.skip(k)),
        decreases hay.len() - i,
    {
        let rest = slice_of(hay, i, hay.len());
        assert(rest@ == hay@.skip(i as int));
        if starts_with(&rest, needle) {
            return true;
        }
        i += 1;
    }
    let rest = slice_of(hay, i, hay.len());
    assert(rest@ == hay@.skip(i as int));
    starts_with(&rest, needle)
}

/// Whether an entry of a palette answers to a query: every entry answers to
/// the empty query, and else the query must stand, without regard to case, in
/// one of the texts of the entry.
pub open spec fn answers_to(texts: Seq<String>, query: Seq<char>) -> bool {
    query.len() == 0 || exists|i: int|
        0 <= i < texts.len() && contains_text(
            unicode_lowercase(#[trigger] texts[i]@),
            unicode_lowercase(query),
        )
}

/// Whether an entry with the given texts answers to a query.
pub fn entry_matches(texts: &Vec<String>, query: &str) -> (r: bool)
    ensures
        r == answers_to(texts@, query@),
{
    if query.unicode_len() == 0 {
        return true;
    }
    let wanted = chars_of(lowercase_text(query).as_str());
    let mut i: usize = 0;
    while i < texts.len()
        invariant
            i <= texts.len(),
            query@.len() > 0,
            wanted@ == unicode_lowercase(query@),
            forall|k: int|
                0 <= k < i ==> !contains_text(
                    unicode_lowercase(#[trigger] texts@[k]@),
                    unicode_lowercase(query@),
                ),
        decreases texts.len() - i,
    {
        let text = chars_of(lowercase_text(texts[i].as_str()).as_str());
        if text_contains(&text, &wanted) {
            return true;
        }
        i += 1;
    }
    false
}

/// The places of the entries that answer to a query, in order.
pub open spec fn answering(entries: Seq<Vec<String>>, query: Seq<char>) -> Seq<usize>
    decreases entries.len(),
{
    if entries.len() == 0 {
        Seq::<usize>::empty()
    } else {
        let before = answering(entries.drop_last(), query);
        if answers_to(entries.last()@, query) {
            before.push((entries.len() - 1) as usize)
        } else {
            before
        }
    }
}

/// The places of the entries of a palette that answer to the search text.
pub fn filtered_entries(entries: &Vec<Vec<String>>, search: &str) -> (r: Vec<usize>)
    ensures
        r@ == answering(entries@, search@),
{
    let mut found: Vec<usize> = Vec::new();
    let mut i: usize = 0;
    assert(entries@.take(0).len() == 0);
    while i < entries.len()
        invariant
            i <= entries.len(),
            found@ == answering(entries@.take(i as int), search@),
        decreases entries.len() - i,
    {
        assert(entries@.take(i + 1).drop_last() == entries@.take(i as int));
        assert(entries@.take(i + 1).last() == entries@[i as int]);
        if entry_matches(&entries[i], search) {
            found.push(i);
        }
        i += 1;
    }
    assert(entries@.take(entries.len() as int) == entries@);
    found
}

/// What the chat shows.
#[derive(Debug, Clone)]
pub enum UiMode {
    /// The chat itself.
    Chat,
    /// The palette of commands, with its search text.
    MainPalette { search: String },
    /// The palette of providers, with its search text.
    ProviderPalette { search: String },
}

/// The search text of the palette that is open.
pub open spec fn search_of(mode: UiMode) -> Option<Seq<char>> {
    match mode {
        UiMode::Chat => None,
        UiMode::MainPalette { search } => Some(search@),
        UiMode::ProviderPalette { search } => Some(search@),
    }
}

/// The mode with another search text; the chat has none and stays as it is.
pub open spec fn searching(mode: UiMode, search: Seq<char>) -> spec_fn(UiMode) -> bool {
    |next: UiMode|
        match mode {
            UiMode::Chat => next is Chat,
            UiMode::MainPalette { .. } => next is MainPalette && search_of(next) == Some(search),
            UiMode::ProviderPalette { .. } => next is ProviderPalette && search_of(next) == Some(
                search,
            ),
        }
}

/// The part of the chat's state that the palettes, the debug log and the
/// scrolling work on.
#[derive(Debug, Clone)]
pub struct ChatUi {
    pub ui_mode: UiMode,
    pub palette_selection: usize,
    pub current_provider: AcpProvider,
    pub connecting: bool,
    pub debug_mode: bool,
    pub debug_messages: Vec<String>,
    pub scroll_offset_from_bottom: u16,
}

impl ChatUi {
    /// The provider in use and the state of its connection are those of
    /// `other`.
    pub open spec fn same_session(self, other: ChatUi) -> bool {
        self.current_provider == other.current_provider && self.connecting == other.connecting
    }

    /// The debug mode, the debug log and the scroll position are those of
    /// `other`.
    pub open spec fn same_view(self, other: ChatUi) -> bool {
        &&& self.debug_mode == other.debug_mode
        &&& self.debug_messages == other.debug_messages
        &&& self.scroll_offset_from_bottom == other.scroll_offset_from_bottom
    }

    /// The state of a chat that has just been opened for a provider.
    pub fn new(provider: AcpProvider) -> (ui: ChatUi)
        ensures
            ui.ui_mode is Chat,
            ui.palette_selection == 0,
            ui.current_provider == provider,
            ui.connecting,
            !ui.debug_mode,
            ui.debug_messages@.len() == 0,
            ui.scroll_offset_from_bottom == 0,
    {
        ChatUi {
            ui_mode: UiMode::Chat,
            palette_selection: 0,
            current_provider: provider,
            connecting: true,
            debug_mode: false,
            debug_messages: Vec::new(),
            scroll_offset_from_bottom: 0,
        }
    }

    /// Opens the palette of commands with an empty search text.
    pub fn open_main_palette(&mut self)
        ensures
            final(self).ui_mode is MainPalette,
            search_of(final(self).ui_mode) == Some(Seq::<char>::empty()),
            final(self).palette_selection == 0,
            final(self).same_session(*old(self)),
            final(self).same_view(*old(self)),
    {
        self.ui_mode = UiMode::MainPalette { search: String::new() };
        self.palette_selection = 0;
    }

    /// Opens the palette of providers with an empty search text; the provider
    /// in use is selected.
    pub fn open_provider_palette(&mut self)
        ensures
            final(self).ui_mode is ProviderPalette,
            search_of(final(self).ui_mode) == Some(Seq::<char>::empty()),
            final(self).palette_selection == provider_position(old(self).current_provider),
            all_providers()[final(self).palette_selection as int] == old(self).current_provider,
            final(self).same_session(*old(self)),
            final(self).same_view(*old(self)),
    {
        self.ui_mode = UiMode::ProviderPalette { search: String::new() };
        self.palette_selection = self.current_provider.position();
    }

    /// Changes the search text of the palette that is open and selects its
    /// first entry. Nothing happens while the chat is shown.
    fn search_for(&mut self, search: String)
        ensures
            searching(old(self).ui_mode, search@)(final(self).ui_mode),
            final(self).palette_selection == if old(self).ui_mode is Chat {
                old(self).palette_selection
            } else {
                0
            },
            final(self).same_session(*old(self)),
            final(self).same_view(*old(self)),
    {
        match &self.ui_mode {
            UiMode::Chat => {},
            UiMode::MainPalette { .. } => {
                self.ui_mode = UiMode::MainPalette { search: search };
                self.palette_selection = 0;
            },
            UiMode::ProviderPalette { .. } => {
                self.ui_mode = UiMode::ProviderPalette { search: search };
                self.palette_selection = 0;
            },
        }
    }

    /// The search text of the palette that is open, or the empty text.
    fn search(&self) -> (r: String)
        ensures
            r@ == match search_of(self.ui_mode) {
                Some(s) => s,
                None => Seq::<char>::empty(),
            },
    {
        match &self.ui_mode {
            UiMode::Chat => String::new(),
            UiMode::MainPalette { search } => search.clone(),
            UiMode::ProviderPalette { search } => search.clone(),
        }
    }

    /// Adds a character to the search text of the palette that is open.
    pub fn palette_input(&mut self, c: char)
        ensures
            final(self).same_session(*old(self)),
            final(self).same_view(*old(self)),
            match search_of(old(self).ui_mode) {
                Some(s) => searching(old(self).ui_mode, s.push(c))(final(self).ui_mode)
                    && final(self).palette_selection == 0,
                None => final(self).ui_mode is Chat && final(self).palette_selection == old(
                    self,
                ).palette_selection,
            },
    {
        let mut search = self.search();
        search.push(c);
        self.search_for(search);
    }

    /// Takes the last character off the search text of the palette that is
    /// open.
    pub fn palette_backspace(&mut self)
        ensures
            final(self).same_session(*old(self)),
            final(self).same_view(*old(self)),
            match search_of(old(self).ui_mode) {
                Some(s) => searching(
                    old(self).ui_mode,
                    if s.len() > 0 {
                        s.drop_last()
                    } else {
                        s
                    },
                )(final(self).ui_mode) && final(self).palette_selection == 0,
                None => final(self).ui_mode is Chat && final(self).palette_selection == old(
                    self,
                ).palette_selection,
            },
    {
        let text = chars_of(self.search().as_str());
        let n = text.len();
        let kept = if n > 0 {
            slice_of(&text, 0, n - 1)
        } else {
            text
        };
        self.search_for(string_of(&kept));
    }

    /// Takes the last word off the search text of the palette that is open.
    pub fn palette_delete_word(&mut self)
        ensures
            final(self).same_session(*old(self)),
            final(self).same_view(*old(self)),
            match search_of(old(self).ui_mode) {
                Some(s) => searching(old(self).ui_mode, without_last_word(s))(final(self).ui_mode)
                    && final(self).palette_selection == 0,
                None => final(self).ui_mode is Chat && final(self).palette_selection == old(
                    self,
                ).palette_selection,
            },
    {
        let next = palette_delete_word(self.search().as_str());
        self.search_for(next);
    }

    /// Moves the selection one entry up in a palette of `len` entries.
    pub fn palette_up(&mut self, len: usize)
        ensures
            final(self).ui_mode == old(self).ui_mode,
            final(self).same_session(*old(self)),
            final(self).same_view(*old(self)),
            final(self).palette_selection == if len > 0 {
                (old(self).palette_selection + len - 1) % (len as int)
            } else {
                old(self).palette_selection as int
            },
    {
        self.palette_selection = palette_up(self.palette_selection, len);
    }

    /// Moves the selection one entry down in a palette of `len` entries.
    pub fn palette_down(&mut self, len: usize)
        ensures
            final(self).ui_mode == old(self).ui_mode,
            final(self).same_session(*old(self)),
            final(self).same_view(*old(self)),
            final(self).palette_selection == if len > 0 {
                (old(self).palette_selection + 1) % (len as int)
            } else {
                old(self).palette_selection as int
            },
    {
        self.palette_selection = palette_down(self.palette_selection, len);
    }

    /// Closes the palette of commands and hands out the command that was
    /// selected among those that the search left, if there is one.
    pub fn execute_main_palette_selection(&mut self, filtered: &Vec<PaletteCommand>) -> (r:
        Option<PaletteCommand>)
        ensures
            final(self).palette_selection == old(self).palette_selection,
            final(self).same_session(*old(self)),
            final(self).same_view(*old(self)),
            final(self).ui_mode is Chat,
            r == if old(self).ui_mode is MainPalette && old(self).palette_selection
                < filtered@.len() {
                Some(filtered@[old(self).palette_selection as int])
            } else {
                None
            },
    {
        let in_palette = match &self.ui_mode {
            UiMode::MainPalette { .. } => true,
            _ => false,
        };
        self.ui_mode = UiMode::Chat;
        if in_palette && self.palette_selection < filtered.len() {
            Some(filtered[self.palette_selection])
        } else {
            None
        }
    }

    /// Closes the palette of providers. Where the provider that was selected
    /// among those that the search left is another than the one in use, it is
    /// taken into use, the chat connects anew, and the provider is handed out.
    pub fn execute_provider_palette_selection(&mut self, filtered: &Vec<AcpProvider>) -> (r:
        Option<AcpProvider>)
        ensures
            final(self).palette_selection == old(self).palette_selection,
            final(self).same_view(*old(self)),
            final(self).ui_mode is Chat,
            ({
                let picked = old(self).ui_mode is ProviderPalette && old(self).palette_selection
                    < filtered@.len() && filtered@[old(self).palette_selection as int] != old(
                    self,
                ).current_provider;
                &&& r == if picked {
                    Some(filtered@[old(self).palette_selection as int])
                } else {
                    None
                }
                &&& final(self).current_provider == if picked {
                    filtered@[old(self).palette_selection as int]
                } else {
                    old(self).current_provider
                }
                &&& final(self).connecting == (picked || old(self).connecting)
            }),
    {
        let in_palette = match &self.ui_mode {
            UiMode::ProviderPalette { .. } => true,
            _ => false,
        };
        self.ui_mode = UiMode::Chat;
        if in_palette && self.palette_selection < filtered.len() {
            let selected = filtered[self.palette_selection];
            if selected != self.current_provider {
                self.current_provider = selected;
                self.connecting = true;
                return Some(selected);
            }
        }
        None
    }

    /// Switches the debug mode; switching it off empties the debug log.
    pub fn toggle_debug_mode(&mut self)
        ensures
            final(self).ui_mode == old(self).ui_mode,
            final(self).palette_selection == old(self).palette_selection,
            final(self).same_session(*old(self)),
            final(self).scroll_offset_from_bottom == old(self).scroll_offset_from_bottom,
            final(self).debug_mode == !old(self).debug_mode,
            final(self).debug_messages@ == if old(self).debug_mode {
                Seq::<String>::empty()
            } else {
                old(self).debug_messages@
            },
    {
        self.debug_mode = !self.debug_mode;
        if !self.debug_mode {
            self.debug_messages = Vec::new();
        }
    }

    /// Adds a line to the debug log while the debug mode is on.
    pub fn add_debug_message(&mut self, line: String)
        ensures
            final(self).ui_mode == old(self).ui_mode,
            final(self).palette_selection == old(self).palette_selection,
            final(self).same_session(*old(self)),
            final(self).debug_mode == old(self).debug_mode,
            final(self).scroll_offset_from_bottom == old(self).scroll_offset_from_bottom,
            final(self).debug_messages@ == if old(self).debug_mode {
                log_with(old(self).debug_messages@, line)
            } else {
                old(self).debug_messages@
            },
    {
        add_debug_message(&mut self.debug_messages, self.debug_mode, line);
    }
}

/// Adds the call of a tool to the chat.
pub fn add_tool_call<K, S, P>(
    history: &mut Vec<ChatEntry<K, S, P>>,
    id: String,
    title: String,
    kind: K,
    status: S,
)
    ensures
        final(history)@ == old(history)@.push(
            ChatEntry::ToolCall { id: id, title: title, kind: kind, status: status },
        ),
{
    history.push(ChatEntry::ToolCall { id: id, title: title, kind: kind, status: status });
}

/// One entry of a chat. What a tool call is of a kind and in a state, and
/// what a plan holds, is for the protocol to say.
#[derive(Debug, Clone)]
pub enum ChatEntry<K, S, P> {
    /// A message of the user, of the agent, or a thought of the agent.
    Message { role: String, text: String, normalized_markdown: Option<String> },
    /// A call of a tool.
    ToolCall { id: String, title: String, kind: K, status: S },
    /// The plan of the agent.
    Plan(P),
}

/// Whether the messages of a role are shown as markdown.
pub open spec fn shows_markdown(role: Seq<char>) -> bool {
    role == "Agent"@ || role == "Thought"@
}

/// Whether the last entry is a message of the given role.
pub open spec fn continues_message<K, S, P>(
    history: Seq<ChatEntry<K, S, P>>,
    role: Seq<char>,
) -> bool {
    history.len() > 0 && (history.last() matches ChatEntry::Message { role: r, .. } && r@ == role)
}

/// The position of the last entry that `wanted` holds of, or -1.
pub open spec fn last_where<T>(s: Seq<T>, wanted: spec_fn(T) -> bool) -> int
    decreases s.len(),
{
    if s.len() == 0 {
        -1
    } else if wanted(s.last()) {
        s.len() - 1
    } else {
        last_where(s.drop_last(), wanted)
    }
}

/// Whether an entry is the call of a tool with the given identifier.
pub open spec fn is_call<K, S, P>(id: Seq<char>) -> spec_fn(ChatEntry<K, S, P>) -> bool {
    |e: ChatEntry<K, S, P>| e matches ChatEntry::ToolCall { id: i, .. } && i@ == id
}

/// Whether an entry is a plan.
pub open spec fn is_plan<K, S, P>() -> spec_fn(ChatEntry<K, S, P>) -> bool {
    |e: ChatEntry<K, S, P>| e is Plan
}

/// Whether `after` is the chat `before` with `text` appended under `role`:
/// to the last entry where that is a message of the same role, else as a new
/// message. Messages that are shown as markdown carry their text with tidied
/// code fences beside it.
pub open spec fn message_appended<K, S, P>(
    before: Seq<ChatEntry<K, S, P>>,
    after: Seq<ChatEntry<K, S, P>>,
    role: Seq<char>,
    text: Seq<char>,
) -> bool {
    if continues_message(before, role) {
        &&& after.len() == before.len()
        &&& after.drop_last() == before.drop_last()
        &&& after.last() matches ChatEntry::Message { role: r, text: t, normalized_markdown: m }
        &&& before.last() matches ChatEntry::Message {
            role: r0,
            text: t0,
            normalized_markdown: m0,
        }
        &&& r@ == role
        &&& t@ == t0@ + text
        &&& text_of(m) == if shows_markdown(role) {
            Some(normalized_fences(t0@ + text))
        } else {
            text_of(m0)
        }
    } else {
        &&& after.len() == before.len() + 1
        &&& after.drop_last() == before
        &&& after.last() matches ChatEntry::Message { role: r, text: t, normalized_markdown: m }
        &&& r@ == role
        &&& t@ == text
        &&& text_of(m) == if shows_markdown(role) {
            Some(normalized_fences(text))
        } else {
            None
        }
    }
}

/// Appends text to the chat: to the last entry where that is a message of
/// the same role, else as a new message.
pub fn append_message<K, S, P>(history: &mut Vec<ChatEntry<K, S, P>>, role: &str, text: &str)
    ensures
        message_appended(old(history)@, final(history)@, role@, text@),
{
    let markdown = str_eq(role, "Agent") || str_eq(role, "Thought");
    let n = history.len();
    if n > 0 {
        let last = history.pop().unwrap();
        assert(history@ == old(history)@.drop_last());
        match last {
            ChatEntry::Message { role: last_role, text: mut last_text, normalized_markdown } => {
                if str_eq(last_role.as_str(), role) {
                    last_text.append(text);
                    let normalized = if markdown {
                        Some(normalize_code_fences(last_text.as_str()))
                    } else {
                        normalized_markdown
                    };
                    history.push(
                        ChatEntry::Message {
                            role: last_role,
                            text: last_text,
                            normalized_markdown: normalized,
                        },
                    );
                    assert(history@.drop_last() == old(history)@.drop_last());
                    return ;
                }
                history.push(
                    ChatEntry::Message {
                        role: last_role,
                        text: last_text,
                        normalized_markdown: normalized_markdown,
                    },
                );
            },
            other => {
                history.push(other);
            },
        }
        assert(history@ =~= old(history)@);
    }
    let normalized = if markdown {
        Some(normalize_code_fences(text))
    } else {
        None
    };
    history.push(
        ChatEntry::Message {
            role: String::from_str(role),
            text: String::from_str(text),
            normalized_markdown: normalized,
        },
    );
    assert(history@.drop_last() == old(history)@);
}

/// Puts the plan in the place of the last plan of the chat, or at its end
/// where the chat has none.
pub fn update_plan<K, S, P>(history: &mut Vec<ChatEntry<K, S, P>>, plan: P)
    ensures
        ({
            let at = last_where(old(history)@, is_plan::<K, S, P>());
            final(history)@ == if at >= 0 {
                old(history)@.update(at, ChatEntry::Plan(plan))
            } else {
                old(history)@.push(ChatEntry::Plan(plan))
            }
        }),
{
    let ghost wanted = is_plan::<K, S, P>();
    let mut i: usize = history.len();
    assert(history@.take(history@.len() as int) == history@);
    while i > 0
        invariant
            i <= history.len(),
            *history == *old(history),
            wanted == is_plan::<K, S, P>(),
            last_where(history@, wanted) == last_where(history@.take(i as int), wanted),
        decreases i,
    {
        let found = match &history[i - 1] {
            ChatEntry::Plan(_) => true,
            _ => false,
        };
        assert(history@.take(i as int).last() == history@[i - 1]);
        assert(history@.take(i as int).drop_last() == history@.take(i - 1));
        if found {
            history.set(i - 1, ChatEntry::Plan(plan));
            return ;
        }
        i -= 1;
    }
    assert(history@.take(0).len() == 0);
    history.push(ChatEntry::Plan(plan));
}

/// What an update says of a tool call; what it leaves out stays as it is.
pub struct ToolCallFields<K, S> {
    pub title: Option<String>,
    pub kind: Option<K>,
    pub status: Option<S>,
}

/// A tool call after an update.
pub open spec fn updated_call<K, S, P>(
    entry: ChatEntry<K, S, P>,
    fields: ToolCallFields<K, S>,
) -> ChatEntry<K, S, P> {
    match entry {
        ChatEntry::ToolCall { id, title, kind, status } => ChatEntry::ToolCall {
            id: id,
            title: match fields.title {
                Some(t) => t,
                None => title,
            },
            kind: match fields.kind {
                Some(k) => k,
                None => kind,
            },
            status: match fields.status {
                Some(s) => s,
                None => status,
            },
        },
        other => other,
    }
}

/// The chat after an update of a tool call: the last call with the given
/// identifier takes the fields of the update; where there is none, a call is
/// added if the update has a title, with the given kind and state where the
/// update names none.
pub open spec fn with_tool_call_update<K, S, P>(
    history: Seq<ChatEntry<K, S, P>>,
    id: String,
    fields: ToolCallFields<K, S>,
    kind: K,
    status: S,
) -> Seq<ChatEntry<K, S, P>> {
    let at = last_where(history, is_call::<K, S, P>(id@));
    if at >= 0 {
        history.update(at, updated_call(history[at], fields))
    } else {
        match fields.title {
            Some(title) => history.push(
                ChatEntry::ToolCall {
                    id: id,
                    title: title,
                    kind: match fields.kind {
                        Some(k) => k,
                        None => kind,
                    },
                    status: match fields.status {
                        Some(s) => s,
                        None => status,
                    },
                },
            ),
            None => history,
        }
    }
}

/// Applies an update of a tool call to the chat.
pub fn update_tool_call<K, S, P>(
    history: &mut Vec<ChatEntry<K, S, P>>,
    id: String,
    fields: ToolCallFields<K, S>,
    default_kind: K,
    default_status: S,
)
    ensures
        final(history)@ == with_tool_call_update(
            old(history)@,
            id,
            fields,
            default_kind,
            default_status,
        ),
{
    let ghost wanted = is_call::<K, S, P>(id@);
    let mut i: usize = history.len();
    assert(history@.take(history@.len() as int) == history@);
    while i > 0
        invariant
            i <= history.len(),
            *history == *old(history),
            wanted == is_call::<K, S, P>(id@),
            last_where(history@, wanted) == last_where(history@.take(i as int), wanted),
        decreases i,
    {
        let found = match &history[i - 1] {
            ChatEntry::ToolCall { id: entry_id, .. } => str_eq(entry_id.as_str(), id.as_str()),
            _ => false,
        };
        assert(history@.take(i as int).last() == history@[i - 1]);
        assert(history@.take(i as int).drop_last() == history@.take(i - 1));
        if found {
            let entry = history.remove(i - 1);
            let ghost without = history@;
            let next = match entry {
                ChatEntry::ToolCall { id: entry_id, title, kind, status } => ChatEntry::ToolCall {
                    id: entry_id,
                    title: match fields.title {
                        Some(t) => t,
                        None => title,
                    },
                    kind: match fields.kind {
                        Some(k) => k,
                        None => kind,
                    },
                    status: match fields.status {
                        Some(s) => s,
                        None => status,
                    },
                },
                other => other,
            };
            history.insert(i - 1, next);
            assert(history@ =~= old(history)@.update(i - 1, next));
            return ;
        }
        i -= 1;
    }
    assert(history@.take(0).len() == 0);
    match fields.title {
        Some(title) => {
            history.push(
                ChatEntry::ToolCall {
                    id: id,
                    title: title,
                    kind: match fields.kind {
                        Some(k) => k,
                        None => default_kind,
                    },
                    status: match fields.status {
                        Some(s) => s,
                        None => default_status,
                    },
                },
            );
        },
        None => {},
    }
}

/// What a session reports to the chat.
pub enum SessionEvent<K, S, P> {
    /// A piece of a message of the user.
    UserText(String),
    /// A piece of a message of the agent.
    AgentText(String),
    /// A piece of a thought of the agent.
    ThoughtText(String),
    /// The call of a tool.
    ToolCall { id: String, title: String, kind: K, status: S },
    /// News of a tool call, with the kind and the state that a call gets
    /// where neither the chat nor the news names one.
    ToolCallUpdate { id: String, fields: ToolCallFields<K, S>, kind: K, status: S },
    /// The plan of the agent.
    Plan(P),
    /// Anything that the chat does not show.
    Silent,
}

/// Whether `after` is the chat `before` with the event taken in.
pub open spec fn event_taken_in<K, S, P>(
    before: Seq<ChatEntry<K, S, P>>,
    after: Seq<ChatEntry<K, S, P>>,
    event: SessionEvent<K, S, P>,
) -> bool {
    match event {
        SessionEvent::UserText(text) => message_appended(before, after, "User"@, text@),
        SessionEvent::AgentText(text) => message_appended(before, after, "Agent"@, text@),
        SessionEvent::ThoughtText(text) => message_appended(before, after, "Thought"@, text@),
        SessionEvent::ToolCall { id, title, kind, status } => after == before.push(
            ChatEntry::ToolCall { id: id, title: title, kind: kind, status: status },
        ),
        SessionEvent::ToolCallUpdate { id, fields, kind, status } => after
            == with_tool_call_update(before, id, fields, kind, status),
        SessionEvent::Plan(plan) => {
            let at = last_where(before, is_plan::<K, S, P>());
            after == if at >= 0 {
                before.update(at, ChatEntry::Plan(plan))
            } else {
                before.push(ChatEntry::Plan(plan))
            }
        },
        SessionEvent::Silent => after == before,
    }
}

/// Takes an event of the session into the chat: text goes to the message of
/// its role, a tool call is added, news of a tool call and a plan replace
/// what the chat holds of them, and anything else leaves the chat as it is.
pub fn on_session_update<K, S, P>(
    history: &mut Vec<ChatEntry<K, S, P>>,
    event: SessionEvent<K, S, P>,
)
    ensures
        event_taken_in(old(history)@, final(history)@, event),
{
    match event {
        SessionEvent::UserText(text) => append_message(history, "User", text.as_str()),
        SessionEvent::AgentText(text) => append_message(history, "Agent", text.as_str()),
        SessionEvent::ThoughtText(text) => append_message(history, "Thought", text.as_str()),
        SessionEvent::ToolCall { id, title, kind, status } => add_tool_call(
            history,
            id,
            title,
            kind,
            status,
        ),
        SessionEvent::ToolCallUpdate { id, fields, kind, status } => update_tool_call(
            history,
            id,
            fields,
            kind,
            status,
        ),
        SessionEvent::Plan(plan) => update_plan(history, plan),
        SessionEvent::Silent => {},
    }
}

} // verus!
