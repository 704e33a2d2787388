//! Terminal styling of field values: color names, SGR sequences, the palette.
use vstd::prelude::*;
use crate::text::{push_char, push_text, same_text};

verus! {

/// Name of the field whose value is the color palette, styled already.
pub const PALETTE_FIELD: &'static str = "colors";

/// Color used for a field that the color table does not name.
pub const DEFAULT_COLOR_NAME: &'static str = "white";

/// Opens a Select Graphic Rendition sequence.
pub const SGR_OPEN: &'static str = "\x1b[";

/// Closes the parameters of an SGR sequence.
pub const SGR_CLOSE: &'static str = "m";

/// Resets every attribute.
pub const SGR_RESET: &'static str = "\x1b[0m";

/// The sixteen ANSI foreground colors.
#[derive(Clone, Copy, Debug, PartialEq, Eq, Structural)]
pub enum AnsiColor {
    Black,
    Red,
    Green,
    Yellow,
    Blue,
    Magenta,
    Cyan,
    White,
    BrightBlack,
    BrightRed,
    BrightGreen,
    BrightYellow,
    BrightBlue,
    BrightMagenta,
    BrightCyan,
    BrightWhite,
}

/// The color a name denotes; an unknown name denotes white.
pub open spec fn color_named(name: Seq<char>) -> AnsiColor {
    if name == "black"@ {
        AnsiColor::Black
    } else if name == "red"@ {
        AnsiColor::Red
    } else if name == "green"@ {
        AnsiColor::Green
    } else if name == "yellow"@ {
        AnsiColor::Yellow
    } else if name == "blue"@ {
        AnsiColor::Blue
    } else if name == "magenta"@ {
        AnsiColor::Magenta
    } else if name == "cyan"@ {
        AnsiColor::Cyan
    } else if name == "bright_black"@ {
        AnsiColor::BrightBlack
    } else if name == "bright_red"@ {
        AnsiColor::BrightRed
    } else if name == "bright_green"@ {
        AnsiColor::BrightGreen
    } else if name == "bright_yellow"@ {
        AnsiColor::BrightYellow
    } else if name == "bright_blue"@ {
        AnsiColor::BrightBlue
    } else if name == "bright_magenta"@ {
        AnsiColor::BrightMagenta
    } else if name == "bright_cyan"@ {
        AnsiColor::BrightCyan
    } else if name == "bright_white"@ {
        AnsiColor::BrightWhite
    } else {
        AnsiColor::White
    }
}

/// SGR parameter selecting `c` as foreground.
pub open spec fn fg_code(c: AnsiColor) -> Seq<char> {
    match c {
        AnsiColor::Black => "30"@,
        AnsiColor::Red => "31"@,
        AnsiColor::Green => "32"@,
        AnsiColor::Yellow => "33"@,
        AnsiColor::Blue => "34"@,
        AnsiColor::Magenta => "35"@,
        AnsiColor::Cyan => "36"@,
        AnsiColor::White => "37"@,
        AnsiColor::BrightBlack => "90"@,
        AnsiColor::BrightRed => "91"@,
        AnsiColor::BrightGreen => "92"@,
        AnsiColor::BrightYellow => "93"@,
        AnsiColor::BrightBlue => "94"@,
        AnsiColor::BrightMagenta => "95"@,
        AnsiColor::BrightCyan => "96"@,
        AnsiColor::BrightWhite => "97"@,
    }
}

/// `text` between the SGR sequence with parameters `code` and a reset.
/// Each reset inside `text` (scanning left to right) followed by `style`
/// again, so that the style holds after a nested styled piece ends.
pub open spec fn restyled(text: Seq<char>, style: Seq<char>) -> Seq<char>
    decreases text.len(),
{
    if text.len() == 0 {
        seq![]
    } else if text.len() >= 4 && text.take(4) == SGR_RESET@ {
        SGR_RESET@ + style + restyled(text.skip(4), style)
    } else {
        seq![text[0]] + restyled(text.skip(1), style)
    }
}

/// `text` between the SGR sequence with parameters `code` and a reset, the
/// sequence repeated after each reset inside `text`.
pub open spec fn sgr(code: Seq<char>, text: Seq<char>) -> Seq<char> {
    SGR_OPEN@ + code + SGR_CLOSE@ + restyled(text, SGR_OPEN@ + code + SGR_CLOSE@) + SGR_RESET@
}

/// `text` styled with `code` when styling is on, else `text` itself.
pub open spec fn styled(code: Seq<char>, text: Seq<char>, ansi: bool) -> Seq<char> {
    if ansi {
        sgr(code, text)
    } else {
        text
    }
}

/// The last entry for `key` in a table of (key, value) pairs.
pub open spec fn lookup(table: Seq<(String, String)>, key: Seq<char>) -> Option<Seq<char>>
    decreases table.len(),
{
    if table.len() == 0 {
        None
    } else if table.last().0@ == key {
        Some(table.last().1@)
    } else {
        lookup(table.drop_last(), key)
    }
}

/// The color name that a table gives a field, white where it gives none.
pub open spec fn color_name_for(table: Seq<(String, String)>, field: Seq<char>) -> Seq<char> {
    match lookup(table, field) {
        Some(n) => n,
        None => DEFAULT_COLOR_NAME@,
    }
}

/// What `colorize` returns.
pub open spec fn colorized(
    field: Seq<char>,
    value: Seq<char>,
    table: Seq<(String, String)>,
    enabled: bool,
) -> Seq<char> {
    if !enabled || field == PALETTE_FIELD@ {
        value
    } else {
        sgr(fg_code(color_named(color_name_for(table, field))), value)
    }
}

/// Looks up the last entry for `key`.
pub fn lookup_entry<'a>(table: &'a Vec<(String, String)>, key: &str) -> (r: Option<&'a String>)
    ensures
        match r {
            Some(v) => lookup(table@, key@) == Some(v@),
            None => lookup(table@, key@) is None,
        },
{
    let mut i: usize = table.len();
    assert(table@.subrange(0, i as int) =~= table@);
    while i > 0
        invariant
            i <= table@.len(),
            lookup(table@, key@) == lookup(table@.subrange(0, i as int), key@),
        decreases i,
    {
        assert(table@.subrange(0, i as int).drop_last() =~= table@.subrange(0, i - 1));
        if same_text(table[i - 1].0.as_str(), key) {
            return Some(&table[i - 1].1);
        }
        i = i - 1;
    }
    None
}

/// The color a name denotes; white for a name it does not know.
pub fn color_from_name(name: &str) -> (r: AnsiColor)
    ensures
        r == color_named(name@),
{
    if same_text(name, "black") {
        AnsiColor::Black
    } else if same_text(name, "red") {
        AnsiColor::Red
    } else if same_text(name, "green") {
        AnsiColor::Green
    } else if same_text(name, "yellow") {
        AnsiColor::Yellow
    } else if same_text(name, "blue") {
        AnsiColor::Blue
    } else if same_text(name, "magenta") {
        AnsiColor::Magenta
    } else if same_text(name, "cyan") {
        AnsiColor::Cyan
    } else if same_text(name, "bright_black") {
        AnsiColor::BrightBlack
    } else if same_text(name, "bright_red") {
        AnsiColor::BrightRed
    } else if same_text(name, "bright_green") {
        AnsiColor::BrightGreen
    } else if same_text(name, "bright_yellow") {
        AnsiColor::BrightYellow
    } else if same_text(name, "bright_blue") {
        AnsiColor::BrightBlue
    } else if same_text(name, "bright_magenta") {
        AnsiColor::BrightMagenta
    } else if same_text(name, "bright_cyan") {
        AnsiColor::BrightCyan
    } else if same_text(name, "bright_white") {
        AnsiColor::BrightWhite
    } else {
        AnsiColor::White
    }
}

/// The SGR parameter of a foreground color.
pub fn fg_code_of(c: AnsiColor) -> (r: &'static str)
    ensures
        r@ == fg_code(c),
{
    match c {
        AnsiColor::Black => "30",
        AnsiColor::Red => "31",
        AnsiColor::Green => "32",
        AnsiColor::Yellow => "33",
        AnsiColor::Blue => "34",
        AnsiColor::Magenta => "35",
        AnsiColor::Cyan => "36",
        AnsiColor::White => "37",
        AnsiColor::BrightBlack => "90",
        AnsiColor::BrightRed => "91",
        AnsiColor::BrightGreen => "92",
        AnsiColor::BrightYellow => "93",
        AnsiColor::BrightBlue => "94",
        AnsiColor::BrightMagenta => "95",
        AnsiColor::BrightCyan => "96",
        AnsiColor::BrightWhite => "97",
    }
}

/// Appends `text` wrapped in the SGR sequence `code` and a reset.
pub fn push_sgr(out: &mut String, code: &str, text: &str)
    ensures
        final(out)@ == old(out)@ + sgr(code@, text@),
{
    let mut style = String::new();
    push_text(&mut style, SGR_OPEN);
    push_text(&mut style, code);
    push_text(&mut style, SGR_CLOSE);
    push_text(out, style.as_str());
    push_restyled(out, text, style.as_str());
    push_text(out, SGR_RESET);
    assert(out@ =~= old(out)@ + sgr(code@, text@));
}

/// Appends `text` with `style` inserted after each reset inside it.
fn push_restyled(out: &mut String, text: &str, style: &str)
    ensures
        final(out)@ == old(out)@ + restyled(text@, style@),
{
    proof {
        reveal_strlit("\x1b[0m");
    }
    let ghost start = out@;
    let n = text.unicode_len();
    let mut i: usize = 0;
    assert(text@.skip(0) =~= text@);
    while i < n
        invariant
            n == text@.len(),
            i <= n,
            SGR_RESET@ == seq!['\x1b', '[', '0', 'm'],
            out@ + restyled(text@.skip(i as int), style@) == start + restyled(text@, style@),
        decreases n - i,
    {
        let ghost rest = text@.skip(i as int);
        if n - i >= 4 && text.get_char(i) == '\x1b' && text.get_char(i + 1) == '[' && text.get_char(i + 2) == '0'
            && text.get_char(i + 3) == 'm' {
            assert(rest.take(4) =~= SGR_RESET@);
            assert(rest.skip(4) =~= text@.skip(i + 4));
            push_text(out, SGR_RESET);
            push_text(out, style);
            i = i + 4;
            assert(out@ + restyled(text@.skip(i as int), style@) =~= start + restyled(text@, style@));
        } else {
            let c = text.get_char(i);
            assert(!(rest.len() >= 4 && rest.take(4) == SGR_RESET@)) by {
                if rest.len() >= 4 && rest.take(4) == SGR_RESET@ {
                    assert(rest.take(4)[0] == text@[i as int]);
                    assert(rest.take(4)[1] == text@[i + 1]);
                    assert(rest.take(4)[2] == text@[i + 2]);
                    assert(rest.take(4)[3] == text@[i + 3]);
                }
            }
            assert(rest[0] == c);
            assert(rest.skip(1) =~= text@.skip(i + 1));
            push_char(out, c);
            i = i + 1;
            assert(out@ + restyled(text@.skip(i as int), style@) =~= start + restyled(text@, style@));
        }
    }
    assert(text@.skip(n as int) =~= seq![]);
    assert(restyled(text@.skip(n as int), style@) =~= seq![]);
    assert(out@ =~= start + restyled(text@, style@));
}

/// Appends `text`, styled with `code` when `ansi` is set.
pub fn push_styled(out: &mut String, code: &str, text: &str, ansi: bool)
    ensures
        final(out)@ == old(out)@ + styled(code@, text@, ansi),
{
    if ansi {
        push_sgr(out, code, text);
    } else {
        push_text(out, text);
    }
}

/// Styles a field's value in the color that `table` gives the field (white
/// where it gives none, or names an unknown color). The palette field, and
/// every value when `enabled` is off, come back unchanged.
pub fn colorize(field: &str, value: &str, table: &Vec<(String, String)>, enabled: bool) -> (r: String)
    ensures
        r@ == colorized(field@, value@, table@, enabled),
{
    let mut out = String::new();
    if !enabled || same_text(field, PALETTE_FIELD) {
        push_text(&mut out, value);
        assert(out@ =~= value@);
        return out;
    }
    let color = match lookup_entry(table, field) {
        Some(name) => color_from_name(name.as_str()),
        None => color_from_name(DEFAULT_COLOR_NAME),
    };
    push_sgr(&mut out, fg_code_of(color), value);
    assert(out@ =~= colorized(field@, value@, table@, enabled));
    out
}

/// With styling disabled, a value comes back exactly as given.
pub proof fn colorize_disabled_is_identity(
    field: Seq<char>,
    value: Seq<char>,
    table: Seq<(String, String)>,
)
    ensures
        colorized(field, value, table, false) == value,
{
}

/// Block of three full cells shown for each palette color.
pub const PALETTE_BLOCK: &'static str = "\u{2588}\u{2588}\u{2588}";

/// SGR parameters of the eight normal palette cells: foreground and the same
/// background, as `"{bg};{fg}"`.
pub open spec fn palette_code(i: int) -> Seq<char> {
    if i == 0 {
        "40;30"@
    } else if i == 1 {
        "41;31"@
    } else if i == 2 {
        "42;32"@
    } else if i == 3 {
        "43;33"@
    } else if i == 4 {
        "44;34"@
    } else if i == 5 {
        "45;35"@
    } else if i == 6 {
        "46;36"@
    } else if i == 7 {
        "47;37"@
    } else if i == 8 {
        "100;90"@
    } else if i == 9 {
        "101;91"@
    } else if i == 10 {
        "102;92"@
    } else if i == 11 {
        "103;93"@
    } else if i == 12 {
        "104;94"@
    } else if i == 13 {
        "105;95"@
    } else if i == 14 {
        "106;96"@
    } else {
        "107;97"@
    }
}

fn palette_code_of(i: usize) -> (r: &'static str)
    requires
        i < 16,
    ensures
        r@ == palette_code(i as int),
{
    if i == 0 {
        "40;30"
    } else if i == 1 {
        "41;31"
    } else if i == 2 {
        "42;32"
    } else if i == 3 {
        "43;33"
    } else if i == 4 {
        "44;34"
    } else if i == 5 {
        "45;35"
    } else if i == 6 {
        "46;36"
    } else if i == 7 {
        "47;37"
    } else if i == 8 {
        "100;90"
    } else if i == 9 {
        "101;91"
    } else if i == 10 {
        "102;92"
    } else if i == 11 {
        "103;93"
    } else if i == 12 {
        "104;94"
    } else if i == 13 {
        "105;95"
    } else if i == 14 {
        "106;96"
    } else {
        "107;97"
    }
}

/// Palette cells `from .. to`, each styled with its own code when `ansi` is set.
pub open spec fn palette_run(from: int, to: int, ansi: bool) -> Seq<char>
    decreases to - from,
{
    if to <= from {
        seq![]
    } else {
        palette_run(from, to - 1, ansi) + styled(palette_code(to - 1), PALETTE_BLOCK@, ansi)
    }
}

/// The palette: the eight normal colors, a newline, the eight bright ones.
pub open spec fn palette_text(ansi: bool) -> Seq<char> {
    palette_run(0, 8, ansi) + seq!['\n'] + palette_run(8, 16, ansi)
}

fn push_palette_run(out: &mut String, from: usize, to: usize, ansi: bool)
    requires
        from <= to <= 16,
    ensures
        final(out)@ == old(out)@ + palette_run(from as int, to as int, ansi),
{
    let ghost start = out@;
    let mut i: usize = from;
    assert(palette_run(from as int, from as int, ansi) =~= seq![]);
    assert(out@ =~= start + palette_run(from as int, from as int, ansi));
    while i < to
        invariant
            from <= i <= to <= 16,
            out@ == start + palette_run(from as int, i as int, ansi),
        decreases to - i,
    {
        push_styled(out, palette_code_of(i), PALETTE_BLOCK, ansi);
        i = i + 1;
        assert(out@ =~= start + palette_run(from as int, i as int, ansi));
    }
}

/// The two rows of color blocks shown as the palette field.
pub fn palette_blocks(ansi: bool) -> (r: String)
    ensures
        r@ == palette_text(ansi),
{
    let mut out = String::new();
    push_palette_run(&mut out, 0, 8, ansi);
    push_text(&mut out, "\n");
    proof {
        reveal_strlit("\n");
    }
    push_palette_run(&mut out, 8, 16, ansi);
    assert(out@ =~= palette_text(ansi));
    out
}

} // verus!
