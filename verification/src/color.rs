//! Terminal colours for names shown to the user.
use vstd::prelude::*;

verus! {

/// A foreground colour.
#[derive(Debug, Clone, Copy, PartialEq, Eq, Structural)]
pub enum TextColor {
    /// Red.
    Red,
    /// Green.
    Green,
    /// Yellow.
    Yellow,
    /// Blue.
    Blue,
}

/// The ANSI code of a foreground colour.
pub open spec fn color_code(c: TextColor) -> Seq<char> {
    match c {
        TextColor::Red => "31"@,
        TextColor::Green => "32"@,
        TextColor::Yellow => "33"@,
        TextColor::Blue => "34"@,
    }
}

/// Distinct colours have distinct codes.
pub proof fn law_color_codes_distinct(a: TextColor, b: TextColor)
    ensures
        a != b ==> color_code(a) != color_code(b),
{
    reveal_strlit("31");
    reveal_strlit("32");
    reveal_strlit("33");
    reveal_strlit("34");
    assert(color_code(a).len() == 2 && color_code(b).len() == 2);
    if color_code(a) == color_code(b) {
        assert(color_code(a)[1] == color_code(b)[1]);
    }
}

/// The reset sequence, four characters long.
pub open spec fn reset_sequence() -> Seq<char> {
    "\x1b[0m"@
}

/// The text that `colored` writes between the colour code and the final
/// reset: the input, with the colour's escape sequence written again after
/// each reset sequence that the input already holds (read from left to
/// right, without overlaps).
pub open spec fn reset_escaped(input: Seq<char>, code: Seq<char>) -> Seq<char>
    decreases input.len(),
{
    if input.len() == 0 {
        input
    } else if input.len() >= 4 && input.subrange(0, 4) == reset_sequence() {
        reset_sequence() + "\x1b["@ + code + "m"@ + reset_escaped(input.skip(4), code)
    } else {
        seq![input[0]] + reset_escaped(input.skip(1), code)
    }
}

/// Text in a colour: the escape sequence of the colour, the text, and the
/// reset sequence.
pub open spec fn painted(input: Seq<char>, c: TextColor) -> Seq<char> {
    "\x1b["@ + color_code(c) + "m"@ + reset_escaped(input, color_code(c)) + "\x1b[0m"@
}

/// Calls `colored::Colorize::color` on `s` and formats the result.
/// `colored` writes the text as it is when colours are off (which it
/// decides from the environment and the terminal), and otherwise the
/// escape sequence of the colour, the text and the reset sequence.  The
/// contract claims one of these two outcomes.
#[verifier::external_body]
pub(crate) fn paint(s: &str, c: TextColor) -> (res: String)
    ensures
        res@ == s@ || res@ == "\x1b["@ + color_code(c) + "m"@ + reset_escaped(s@, color_code(c)) + "\x1b[0m"@,
{
    let color = match c {
        TextColor::Red => colored::Color::Red,
        TextColor::Green => colored::Color::Green,
        TextColor::Yellow => colored::Color::Yellow,
        TextColor::Blue => colored::Color::Blue,
    };
    colored::Colorize::color(s, color).to_string()
}

} // verus!
