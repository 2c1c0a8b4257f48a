//! Colours and text styles, and text painted in them.

use crate::text::{decimal, join};
use nu_ansi_term::{Color, Style};
use vstd::prelude::*;

verus! {

broadcast use vstd::string::group_string_axioms;

#[derive(Debug, Clone, Copy, PartialEq, Eq, Structural)]
pub enum Shade {
    Black,
    DarkGray,
    Red,
    Green,
    Yellow,
    Purple,
    Magenta,
    Cyan,
    LightCyan,
    /// A colour of the 256-colour palette.
    Fixed(u8),
    Rgb(u8, u8, u8),
}

/// How text is drawn.
#[derive(Debug, Clone, Copy, PartialEq, Eq)]
pub struct Ink {
    pub foreground: Option<Shade>,
    pub background: Option<Shade>,
    pub bold: bool,
    pub dim: bool,
    pub italic: bool,
    pub underline: bool,
    pub reverse: bool,
}

/// A piece of text with its style.
#[derive(Debug, PartialEq, Eq)]
pub struct Span {
    pub text: String,
    pub ink: Ink,
}

pub struct SpanModel {
    pub text: Seq<char>,
    pub ink: Ink,
}

impl View for Span {
    type V = SpanModel;

    open spec fn view(&self) -> SpanModel {
        SpanModel { text: self.text@, ink: self.ink }
    }
}

/// What a row of pieces says.
pub open spec fn span_models(spans: Seq<Span>) -> Seq<SpanModel> {
    spans.map_values(|s: Span| s@)
}

pub proof fn span_models_push(spans: Seq<Span>, s: Span)
    ensures
        span_models(spans.push(s)) == span_models(spans).push(s@),
{
    assert(span_models(spans.push(s)) =~= span_models(spans).push(s@));
}

/// The style that changes nothing.
pub open spec fn plain() -> Ink {
    Ink {
        foreground: None,
        background: None,
        bold: false,
        dim: false,
        italic: false,
        underline: false,
        reverse: false,
    }
}

/// Plain but for the colour.
pub open spec fn colour(shade: Shade) -> Ink {
    Ink { foreground: Some(shade), ..plain() }
}

/// Bold in a colour.
pub open spec fn bold_colour(shade: Shade) -> Ink {
    Ink { bold: true, ..colour(shade) }
}

/// Dim in the default colour.
pub open spec fn dimmed() -> Ink {
    Ink { dim: true, ..plain() }
}

impl Ink {
    pub fn plain() -> (r: Ink)
        ensures
            r == plain(),
    {
        Ink {
            foreground: None,
            background: None,
            bold: false,
            dim: false,
            italic: false,
            underline: false,
            reverse: false,
        }
    }

    pub fn colour(shade: Shade) -> (r: Ink)
        ensures
            r == colour(shade),
    {
        let mut ink: Ink = Ink::plain();
        ink.foreground = Some(shade);
        ink
    }

    pub fn bold_colour(shade: Shade) -> (r: Ink)
        ensures
            r == bold_colour(shade),
    {
        let mut ink: Ink = Ink::colour(shade);
        ink.bold = true;
        ink
    }

    pub fn dimmed() -> (r: Ink)
        ensures
            r == dimmed(),
    {
        let mut ink: Ink = Ink::plain();
        ink.dim = true;
        ink
    }

    fn shade_same(a: Option<Shade>, b: Option<Shade>) -> (r: bool)
        ensures
            r == (a == b),
    {
        match (a, b) {
            (None, None) => true,
            (Some(x), Some(y)) => x == y,
            _ => false,
        }
    }

    /// Whether two styles draw alike.
    pub fn same(self, other: Ink) -> (r: bool)
        ensures
            r == (self == other),
    {
        Ink::shade_same(self.foreground, other.foreground) && Ink::shade_same(
            self.background,
            other.background,
        ) && self.bold == other.bold && self.dim == other.dim && self.italic == other.italic
            && self.underline == other.underline && self.reverse == other.reverse
    }
}

impl Span {
    pub fn new(text: &str, ink: Ink) -> (r: Span)
        ensures
            r@ == (SpanModel { text: text@, ink }),
    {
        Span { text: text.to_owned(), ink }
    }
}

// ---- escape sequences ---------------------------------------------------

/// The foreground code of a shade.
pub open spec fn foreground_code(shade: Shade) -> Seq<char> {
    match shade {
        Shade::Black => "30"@,
        Shade::Red => "31"@,
        Shade::Green => "32"@,
        Shade::Yellow => "33"@,
        Shade::Purple => "35"@,
        Shade::Magenta => "35"@,
        Shade::Cyan => "36"@,
        Shade::DarkGray => "90"@,
        Shade::LightCyan => "96"@,
        Shade::Fixed(n) => "38;5;"@ + decimal(n as nat),
        Shade::Rgb(r, g, b) => "38;2;"@ + decimal(r as nat) + ";"@ + decimal(g as nat) + ";"@
            + decimal(b as nat),
    }
}

/// The background code of a shade.
pub open spec fn background_code(shade: Shade) -> Seq<char> {
    match shade {
        Shade::Black => "40"@,
        Shade::Red => "41"@,
        Shade::Green => "42"@,
        Shade::Yellow => "43"@,
        Shade::Purple => "45"@,
        Shade::Magenta => "45"@,
        Shade::Cyan => "46"@,
        Shade::DarkGray => "100"@,
        Shade::LightCyan => "106"@,
        Shade::Fixed(n) => "48;5;"@ + decimal(n as nat),
        Shade::Rgb(r, g, b) => "48;2;"@ + decimal(r as nat) + ";"@ + decimal(g as nat) + ";"@
            + decimal(b as nat),
    }
}

/// The code alone, or nothing.
pub open spec fn code_if(present: bool, code: Seq<char>) -> Seq<Seq<char>> {
    if present {
        seq![code]
    } else {
        Seq::empty()
    }
}

/// The codes of a style, in the order in which they are written.
pub open spec fn ink_codes(ink: Ink) -> Seq<Seq<char>> {
    code_if(ink.bold, "1"@) + code_if(ink.dim, "2"@) + code_if(ink.italic, "3"@) + code_if(
        ink.underline,
        "4"@,
    ) + code_if(ink.reverse, "7"@) + (match ink.background {
        Some(shade) => seq![background_code(shade)],
        None => Seq::empty(),
    }) + (match ink.foreground {
        Some(shade) => seq![foreground_code(shade)],
        None => Seq::empty(),
    })
}

/// Text between the escape sequence that sets its style and the one that
/// resets it; plain text stands alone.
pub open spec fn painted(ink: Ink, text: Seq<char>) -> Seq<char> {
    if ink == plain() {
        text
    } else {
        "\x1b["@ + join(ink_codes(ink), ";"@) + "m"@ + text + "\x1b[0m"@
    }
}

/// `nu_ansi_term::Style::paint`: the text between the style's prefix (its
/// codes, joined by semicolons) and the reset; nothing is added by a style
/// without properties. A shade is the `Color` of the same name.
#[verifier::external_body]
pub(crate) fn paint(ink: Ink, text: &str) -> (r: String)
    ensures
        r@ == painted(ink, text@),
{
    let colour = |shade: Shade| match shade {
        Shade::Black => Color::Black, Shade::DarkGray => Color::DarkGray,
        Shade::Red => Color::Red, Shade::Green => Color::Green,
        Shade::Yellow => Color::Yellow, Shade::Purple => Color::Purple,
        Shade::Magenta => Color::Magenta, Shade::Cyan => Color::Cyan,
        Shade::LightCyan => Color::LightCyan, Shade::Fixed(n) => Color::Fixed(n),
        Shade::Rgb(r, g, b) => Color::Rgb(r, g, b),
    };
    let style = Style {
        foreground: ink.foreground.map(colour), background: ink.background.map(colour),
        is_bold: ink.bold, is_dimmed: ink.dim, is_italic: ink.italic,
        is_underline: ink.underline, is_reverse: ink.reverse, ..Style::new()
    };
    style.paint(text).to_string()
}

} // verus!
