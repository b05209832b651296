//! Syntax highlighting of code blocks: syntect splits the code into pieces with colors,
//! and the pieces are written out as escape-coded text.
use vstd::prelude::*;

use syntect::easy::HighlightLines;
use syntect::highlighting::ThemeSet;
use syntect::parsing::SyntaxSet;
use syntect::util::LinesWithEndings;

use crate::ansi::{tag_code, AnsiTag, AnsiWriter};
use crate::markup::{theme_name, SyntaxHighlightTheme};

verus! {

#[verifier::external_type_specification]
#[verifier::external_body]
pub struct ExSyntaxSet(SyntaxSet);

#[verifier::external_type_specification]
#[verifier::external_body]
pub struct ExThemeSet(ThemeSet);

/// A piece of highlighted code: its text and, where its style has one, its color.
pub type CodeSpan = (Seq<char>, Option<(u8, u8, u8)>);

/// What syntect makes of `code` with the syntaxes and themes that come with it: the
/// syntax `token` names (by file extension, then by name), or plain text when there is no
/// token or it names none; the theme named `theme`; the code taken line by line, newlines
/// kept. Each piece comes with the foreground color of its style; a line that cannot be
/// parsed comes whole, without a color.
pub uninterp spec fn highlighted_spans(token: Option<Seq<char>>, code: Seq<char>, theme: Seq<char>) -> Seq<CodeSpan>;

/// The name of one of the themes that come with syntect.
pub open spec fn known_theme(name: Seq<char>) -> bool {
    exists|t: SyntaxHighlightTheme| theme_name(t) == name
}

/// A token as plain values.
pub open spec fn token_view(token: Option<&str>) -> Option<Seq<char>> {
    match token {
        Some(t) => Some(t@),
        None => None,
    }
}

/// The syntaxes and themes that come with syntect; nothing else can be put in it.
pub struct CodeHighlighter {
    syntaxes: SyntaxSet,
    themes: ThemeSet,
}

impl CodeHighlighter {
    /// Loads the syntaxes (`SyntaxSet::load_defaults_newlines`) and the themes
    /// (`ThemeSet::load_defaults`) that syntect carries inside it.
    #[verifier::external_body]
    pub fn new() -> (h: Self) {
        CodeHighlighter {
            syntaxes: SyntaxSet::load_defaults_newlines(),
            themes: ThemeSet::load_defaults(),
        }
    }

    /// Highlights `code` with syntect (`SyntaxSet::find_syntax_by_token`, falling back to
    /// `find_syntax_plain_text`; `HighlightLines::highlight_line` on each of the
    /// `LinesWithEndings`): the pieces are `highlighted_spans` of the token, the code and
    /// the theme's name. The theme must be one syntect carries, as indexing its themes
    /// by a name it lacks panics.
    #[verifier::external_body]
    fn spans(&self, token: Option<&str>, code: &str, theme: &str) -> (r: Vec<(String, Option<(u8, u8, u8)>)>)
        requires
            known_theme(theme@),
        ensures
            r@.map_values(|p: (String, Option<(u8, u8, u8)>)| (p.0@, p.1)) == highlighted_spans(
                token_view(token),
                code@,
                theme@,
            ),
    {
        let set = &self.syntaxes;
        let syntax = token.and_then(|t| set.find_syntax_by_token(t)).unwrap_or_else(|| set.find_syntax_plain_text());
        let mut lines = HighlightLines::new(syntax, &self.themes.themes[theme]);
        let mut spans = Vec::new();
        for line in LinesWithEndings::from(code) {
            match lines.highlight_line(line, set) {
                Ok(v) => spans.extend(v.into_iter().map(|(s, t)| (t.to_string(), Some((s.foreground.r, s.foreground.g, s.foreground.b))))),
                Err(_) => spans.push((line.to_string(), None)),
            }
        }
        spans
    }
}

/// A piece written out: in its color and then back to the default style when it has a
/// color, as it is otherwise.
pub open spec fn span_ansi(s: CodeSpan) -> Seq<char> {
    match s.1 {
        Some((r, g, b)) => tag_code(AnsiTag::FgTrueColor(r, g, b)) + s.0 + tag_code(AnsiTag::Reset),
        None => s.0,
    }
}

/// The pieces written out one after another.
pub open spec fn code_ansi(spans: Seq<CodeSpan>) -> Seq<char>
    decreases spans.len(),
{
    if spans.len() == 0 {
        seq![]
    } else {
        code_ansi(spans.drop_last()) + span_ansi(spans.last())
    }
}

/// The token a code block's language gives the highlighter: none when it is empty.
pub open spec fn language_token(language: Seq<char>) -> Option<Seq<char>> {
    if language.len() == 0 {
        None
    } else {
        Some(language)
    }
}

/// A code block in the language `language`, highlighted with `theme` and written out.
pub open spec fn highlighted_code(code: Seq<char>, language: Seq<char>, theme: SyntaxHighlightTheme) -> Seq<char> {
    code_ansi(highlighted_spans(language_token(language), code, theme_name(theme)))
}

/// Highlights a code block, as `highlighted_code` says.
pub fn highlight_code(h: &CodeHighlighter, code: &str, language: &str, theme: SyntaxHighlightTheme) -> (s: String)
    ensures
        s@ == highlighted_code(code@, language@, theme),
{
    let token = if language.unicode_len() == 0 {
        None
    } else {
        Some(language)
    };
    let name = theme.as_str();
    let spans = h.spans(token, code, name);
    let ghost sv = spans@.map_values(|p: (String, Option<(u8, u8, u8)>)| (p.0@, p.1));
    proof {
        assert(token_view(token) == language_token(language@));
        assert(sv == highlighted_spans(language_token(language@), code@, theme_name(theme)));
    }
    let mut writer = AnsiWriter::new();
    let mut i: usize = 0;
    while i < spans.len()
        invariant
            i <= spans@.len(),
            sv == spans@.map_values(|p: (String, Option<(u8, u8, u8)>)| (p.0@, p.1)),
            writer@ == code_ansi(sv.take(i as int)),
        decreases spans@.len() - i,
    {
        let ghost before = writer@;
        match spans[i].1 {
            Some((r, g, b)) => {
                writer.push_tag(AnsiTag::FgTrueColor(r, g, b));
                writer.push_str(spans[i].0.as_str());
                writer.push_tag(AnsiTag::Reset);
            },
            None => {
                writer.push_str(spans[i].0.as_str());
            },
        }
        proof {
            assert(sv[i as int] == (spans@[i as int].0@, spans@[i as int].1));
            assert(sv.take(i + 1).drop_last() =~= sv.take(i as int));
            assert(writer@ =~= before + span_ansi(sv[i as int]));
        }
        i = i + 1;
    }
    proof {
        assert(sv.take(spans@.len() as int) =~= sv);
    }
    crate::text::to_string(writer.as_str())
}

} // verus!
