//! Composition of the info block and the logo into the final output.
use vstd::prelude::*;
use crate::color::{
    color_name_for, color_named, colorize, colorized, fg_code, lookup, restyled, lookup_entry, push_styled, styled, AnsiColor,
    PALETTE_FIELD, SGR_CLOSE, SGR_OPEN, SGR_RESET,
};
use crate::config::{AsciiArtSource, Config, DisplayConfig};
use crate::logo::{art_result, get_ascii_art, host_fits, resolves, ArtView, HostContext, LogoArtifact, LogoError, LogoLine};
use crate::text::{
    decimal, display_width_capped, display_width_of, lemma_split_single, pieces, split_acc, push_char, push_decimal, push_repeated, push_text, repeated, same_text, single_line,
    split_pieces, trim_end_blank, trimmed_end,
};

verus! {

/// Name of the field shown as the header line.
pub const USERHOST_FIELD: &'static str = "userhost";

/// SGR parameters of the header (bold bright green).
pub const HEADER_STYLE: &'static str = "1;92";

/// SGR parameter of the separator and the colon (dim).
pub const DIM_STYLE: &'static str = "2";

/// SGR parameters of labels (bold cyan).
pub const LABEL_STYLE: &'static str = "1;36";

/// SGR parameter of text-art logo lines (bright blue).
pub const LOGO_STYLE: &'static str = "94";

/// Columns between the logo and the info text.
pub const LOGO_GAP: usize = 2;

/// Columns between an image's right edge and the info text.
pub const IMAGE_MARGIN: u64 = 5;

/// Upper-case form of a character's first upper-case character, as Unicode
/// defines it.
pub uninterp spec fn upper_first_of(c: char) -> char;

/// Relies on `char::to_uppercase`: the first character of the Unicode
/// upper-case mapping (which is never empty), depending on `c` alone.
#[verifier::external_body]
fn upper_first(c: char) -> (r: char)
    ensures
        r == upper_first_of(c),
{
    c.to_uppercase().next().unwrap_or(c)
}

/// The first letter of a custom label: the upper-case form of `c`, or `c`
/// itself where that form would be a line break (a label is one line).
pub open spec fn label_initial(c: char) -> char {
    if upper_first_of(c) == '\n' {
        c
    } else {
        upper_first_of(c)
    }
}

/// `s` with each underscore turned into a space.
pub open spec fn underscores_to_spaces(s: Seq<char>) -> Seq<char> {
    s.map_values(|c: char| if c == '_' { ' ' } else { c })
}

/// Label of a field that has no fixed label: first letter upper-cased,
/// underscores shown as spaces.
pub open spec fn custom_label(field: Seq<char>) -> Seq<char> {
    if field.len() == 0 {
        seq![]
    } else {
        underscores_to_spaces(seq![label_initial(field[0])] + field.drop_first())
    }
}

/// The label shown before a field's value.
pub open spec fn field_label(field: Seq<char>) -> Seq<char> {
    if field == "os"@ {
        "OS"@
    } else if field == "hostname"@ {
        "Host"@
    } else if field == "kernel"@ {
        "Kernel"@
    } else if field == "uptime"@ {
        "Uptime"@
    } else if field == "packages"@ {
        "Packages"@
    } else if field == "shell"@ {
        "Shell"@
    } else if field == "resolution"@ {
        "Resolution"@
    } else if field == "de"@ {
        "DE"@
    } else if field == "wm"@ {
        "WM"@
    } else if field == "terminal"@ {
        "Terminal"@
    } else if field == "cpu"@ {
        "CPU"@
    } else if field == "memory"@ {
        "Memory"@
    } else if field == "disk"@ {
        "Disk"@
    } else if field == "colors"@ {
        "Colors"@
    } else {
        custom_label(field)
    }
}

fn fixed_label(field: &str) -> (r: Option<&'static str>)
    ensures
        match r {
            Some(l) => field_label(field@) == l@,
            None => field_label(field@) == custom_label(field@),
        },
{
    if same_text(field, "os") {
        Some("OS")
    } else if same_text(field, "hostname") {
        Some("Host")
    } else if same_text(field, "kernel") {
        Some("Kernel")
    } else if same_text(field, "uptime") {
        Some("Uptime")
    } else if same_text(field, "packages") {
        Some("Packages")
    } else if same_text(field, "shell") {
        Some("Shell")
    } else if same_text(field, "resolution") {
        Some("Resolution")
    } else if same_text(field, "de") {
        Some("DE")
    } else if same_text(field, "wm") {
        Some("WM")
    } else if same_text(field, "terminal") {
        Some("Terminal")
    } else if same_text(field, "cpu") {
        Some("CPU")
    } else if same_text(field, "memory") {
        Some("Memory")
    } else if same_text(field, "disk") {
        Some("Disk")
    } else if same_text(field, "colors") {
        Some("Colors")
    } else {
        None
    }
}

/// The label of a field: a fixed one for the known fields, else the name
/// with its first letter upper-cased and underscores as spaces.
pub fn get_field_label(field: &str) -> (r: String)
    ensures
        r@ == field_label(field@),
{
    let mut out = String::new();
    if let Some(l) = fixed_label(field) {
        push_text(&mut out, l);
        assert(out@ =~= field_label(field@));
        return out;
    }
    let n = field.unicode_len();
    let mut i: usize = 0;
    while i < n
        invariant
            n == field@.len(),
            i <= n,
            field_label(field@) == custom_label(field@),
            i == 0 ==> out@.len() == 0,
            i > 0 ==> out@ == underscores_to_spaces(
                (seq![label_initial(field@[0])] + field@.drop_first()).subrange(0, i as int),
            ),
        decreases n - i,
    {
        let c0 = field.get_char(i);
        let c = if i == 0 {
            let u = upper_first(c0);
            if u == '\n' {
                c0
            } else {
                u
            }
        } else {
            c0
        };
        let shown = if c == '_' {
            ' '
        } else {
            c
        };
        push_char(&mut out, shown);
        i = i + 1;
        assert(out@ =~= underscores_to_spaces(
            (seq![label_initial(field@[0])] + field@.drop_first()).subrange(0, i as int),
        ));
    }
    if n > 0 {
        assert((seq![label_initial(field@[0])] + field@.drop_first()).subrange(0, n as int) =~= seq![
            label_initial(field@[0]),
        ] + field@.drop_first());
    } else {
        assert(out@ =~= seq![]);
    }
    out
}

/// Header entries: the user@host line and a rule as wide as it, where the
/// info holds `userhost`.
pub open spec fn header_entries(info: Seq<(String, String)>, ansi: bool) -> Seq<Seq<char>> {
    match lookup(info, USERHOST_FIELD@) {
        Some(u) => seq![styled(HEADER_STYLE@, u, ansi), styled(DIM_STYLE@, repeated('-', display_width_capped(u)), ansi)],
        None => seq![],
    }
}

/// The entry of one field with value `v`: the palette's raw value when its
/// label is off, else `"{Label}: {value}"`.
pub open spec fn field_entry(f: Seq<char>, v: Seq<char>, d: DisplayConfig, ansi: bool) -> Seq<char> {
    if f == PALETTE_FIELD@ && !d.show_colors_label {
        v
    } else {
        styled(LABEL_STYLE@, field_label(f), ansi) + styled(DIM_STYLE@, ":"@, ansi) + seq![' '] + colorized(
            f,
            v,
            d.field_colors@,
            d.color_values && ansi,
        )
    }
}

/// Entries of the fields in `order` that have a value, `userhost` left out.
pub open spec fn field_entries(
    order: Seq<String>,
    info: Seq<(String, String)>,
    d: DisplayConfig,
    ansi: bool,
) -> Seq<Seq<char>>
    decreases order.len(),
{
    if order.len() == 0 {
        seq![]
    } else {
        let rest = field_entries(order.drop_last(), info, d, ansi);
        let f = order.last()@;
        if f == USERHOST_FIELD@ {
            rest
        } else {
            match lookup(info, f) {
                Some(v) => rest.push(field_entry(f, v, d, ansi)),
                None => rest,
            }
        }
    }
}

/// The pieces between newlines of each entry, in order.
pub open spec fn flat_pieces(entries: Seq<Seq<char>>) -> Seq<Seq<char>>
    decreases entries.len(),
{
    if entries.len() == 0 {
        seq![]
    } else {
        flat_pieces(entries.drop_last()) + pieces(entries.last())
    }
}

/// Lines of the info block.
pub open spec fn info_lines(
    order: Seq<String>,
    info: Seq<(String, String)>,
    d: DisplayConfig,
    ansi: bool,
) -> Seq<Seq<char>> {
    let st = ansi && d.color_values;
    flat_pieces(header_entries(info, st) + field_entries(order, info, d, st))
}

/// Lines joined with newlines, none after the last.
pub open spec fn joined(lines: Seq<Seq<char>>) -> Seq<char>
    decreases lines.len(),
{
    if lines.len() == 0 {
        seq![]
    } else if lines.len() == 1 {
        lines[0]
    } else {
        joined(lines.drop_last()) + seq!['\n'] + lines.last()
    }
}

fn push_pieces(out: &mut Vec<String>, entry: &str)
    ensures
        final(out)@.len() == old(out)@.len() + pieces(entry@).len(),
        forall|j: int| 0 <= j < old(out)@.len() ==> #[trigger] final(out)@[j] == old(out)@[j],
        forall|j: int|
            0 <= j < pieces(entry@).len() ==> #[trigger] final(out)@[old(out)@.len() + j]@ == pieces(entry@)[j],
{
    let mut ps = split_pieces(entry, false);
    let ghost start = out@;
    let ghost model = ps@;
    let mut i: usize = 0;
    while i < ps.len()
        invariant
            i <= ps@.len(),
            ps@ == model,
            model.len() == pieces(entry@).len(),
            forall|j: int| 0 <= j < model.len() ==> #[trigger] model[j]@ == pieces(entry@)[j],
            out@.len() == start.len() + i,
            forall|j: int| 0 <= j < start.len() ==> #[trigger] out@[j] == start[j],
            forall|j: int| 0 <= j < i ==> #[trigger] out@[start.len() + j]@ == pieces(entry@)[j],
        decreases ps@.len() - i,
    {
        out.push(ps[i].clone());
        i = i + 1;
    }
}

/// Lines of the info block: the header and rule where `userhost` has a
/// value, then one entry per field of `fields` that has a value (`userhost`
/// excepted), each split at its newlines.
pub fn render_info_lines(
    fields: &Vec<String>,
    info: &Vec<(String, String)>,
    display: &DisplayConfig,
    ansi: bool,
) -> (r: Vec<String>)
    ensures
        r@.len() == info_lines(fields@, info@, *display, ansi).len(),
        forall|j: int| 0 <= j < r@.len() ==> #[trigger] r@[j]@ == info_lines(fields@, info@, *display, ansi)[j],
{
    let ansi_on = ansi && display.color_values;
    let mut entries: Vec<String> = Vec::new();
    if let Some(u) = lookup_entry(info, USERHOST_FIELD) {
        let mut head = String::new();
        push_styled(&mut head, HEADER_STYLE, u.as_str(), ansi_on);
        entries.push(head);
        let mut rule = String::new();
        push_repeated(&mut rule, '-', display_width_of(u.as_str()));
        let mut sep = String::new();
        push_styled(&mut sep, DIM_STYLE, rule.as_str(), ansi_on);
        entries.push(sep);
    }
    let ghost head_model = header_entries(info@, ansi_on);
    assert(entries@.len() == head_model.len());
    assert(forall|j: int| 0 <= j < entries@.len() ==> #[trigger] entries@[j]@ == head_model[j]);
    let mut k: usize = 0;
    while k < fields.len()
        invariant
            k <= fields@.len(),
            head_model == header_entries(info@, ansi_on),
            entries@.len() == (head_model + field_entries(fields@.subrange(0, k as int), info@, *display, ansi_on)).len(),
            forall|j: int|
                0 <= j < entries@.len() ==> #[trigger] entries@[j]@ == (head_model + field_entries(
                    fields@.subrange(0, k as int),
                    info@,
                    *display,
                    ansi_on,
                ))[j],
        decreases fields@.len() - k,
    {
        let f = fields[k].as_str();
        assert(fields@.subrange(0, k + 1).drop_last() =~= fields@.subrange(0, k as int));
        if !same_text(f, USERHOST_FIELD) {
            if let Some(v) = lookup_entry(info, f) {
                let mut line = String::new();
                if same_text(f, PALETTE_FIELD) && !display.show_colors_label {
                    push_text(&mut line, v.as_str());
                } else {
                    let label = get_field_label(f);
                    push_styled(&mut line, LABEL_STYLE, label.as_str(), ansi_on);
                    push_styled(&mut line, DIM_STYLE, ":", ansi_on);
                    push_char(&mut line, ' ');
                    let value = colorize(f, v.as_str(), &display.field_colors, display.color_values && ansi_on);
                    push_text(&mut line, value.as_str());
                }
                assert(line@ =~= field_entry(f@, v@, *display, ansi_on));
                entries.push(line);
            }
        }
        k = k + 1;
        assert(entries@.len() == (head_model + field_entries(fields@.subrange(0, k as int), info@, *display, ansi_on)).len());
        assert(forall|j: int|
            0 <= j < entries@.len() ==> #[trigger] entries@[j]@ == (head_model + field_entries(
                fields@.subrange(0, k as int),
                info@,
                *display,
                ansi_on,
            ))[j]);
    }
    assert(fields@.subrange(0, fields@.len() as int) =~= fields@);
    let ghost all = head_model + field_entries(fields@, info@, *display, ansi_on);
    let mut lines: Vec<String> = Vec::new();
    let mut e: usize = 0;
    while e < entries.len()
        invariant
            e <= entries@.len(),
            entries@.len() == all.len(),
            forall|j: int| 0 <= j < entries@.len() ==> #[trigger] entries@[j]@ == all[j],
            lines@.len() == flat_pieces(all.subrange(0, e as int)).len(),
            forall|j: int| 0 <= j < lines@.len() ==> #[trigger] lines@[j]@ == flat_pieces(all.subrange(0, e as int))[j],
        decreases entries@.len() - e,
    {
        assert(all.subrange(0, e + 1).drop_last() =~= all.subrange(0, e as int));
        push_pieces(&mut lines, entries[e].as_str());
        e = e + 1;
        assert(lines@.len() == flat_pieces(all.subrange(0, e as int)).len());
        assert forall|j: int| 0 <= j < lines@.len() implies #[trigger] lines@[j]@ == flat_pieces(
            all.subrange(0, e as int),
        )[j] by {
            let prev = flat_pieces(all.subrange(0, e - 1));
            if j >= prev.len() {
                assert(lines@[prev.len() + (j - prev.len())]@ == pieces(all[e - 1])[j - prev.len()]);
            }
        }
    }
    assert(all.subrange(0, all.len() as int) =~= all);
    lines
}

/// Widest declared width of the logo lines, 0 for none.
pub open spec fn max_width(logo: Seq<(Seq<char>, nat)>) -> nat
    decreases logo.len(),
{
    if logo.len() == 0 {
        0
    } else {
        let m = max_width(logo.drop_last());
        if logo.last().1 > m {
            logo.last().1
        } else {
            m
        }
    }
}

/// Row `i` of the side-by-side layout: the styled logo line (empty past the
/// logo's end), then, where the info line is not empty, padding to the logo
/// width plus the gap and the info line.
pub open spec fn text_row(logo: Seq<(Seq<char>, nat)>, info: Seq<Seq<char>>, i: int, ansi: bool) -> Seq<char> {
    let (t, w) = if i < logo.len() {
        logo[i]
    } else {
        (seq![], 0nat)
    };
    let inf = if i < info.len() {
        info[i]
    } else {
        seq![]
    };
    let lg = styled(LOGO_STYLE@, t, ansi);
    if inf.len() == 0 {
        lg
    } else {
        lg + repeated(' ', (max_width(logo) - w + LOGO_GAP) as nat) + inf
    }
}

/// Rows of the side-by-side layout: as many as the longer of the two blocks.
pub open spec fn text_rows(logo: Seq<(Seq<char>, nat)>, info: Seq<Seq<char>>, ansi: bool) -> Seq<Seq<char>> {
    let n = if logo.len() >= info.len() {
        logo.len()
    } else {
        info.len()
    };
    Seq::new(n, |i: int| text_row(logo, info, i, ansi))
}

proof fn lemma_max_width(logo: Seq<(Seq<char>, nat)>, i: int)
    requires
        0 <= i < logo.len(),
    ensures
        logo[i].1 <= max_width(logo),
    decreases logo.len(),
{
    if i < logo.len() - 1 {
        lemma_max_width(logo.drop_last(), i);
    }
}

fn logo_width(lines: &Vec<LogoLine>) -> (r: usize)
    ensures
        r as nat == max_width(lines@.map_values(|l: LogoLine| (l.text@, l.width as nat))),
{
    let ghost model = lines@.map_values(|l: LogoLine| (l.text@, l.width as nat));
    let mut m: usize = 0;
    let mut i: usize = 0;
    while i < lines.len()
        invariant
            i <= lines@.len(),
            model == lines@.map_values(|l: LogoLine| (l.text@, l.width as nat)),
            m as nat == max_width(model.subrange(0, i as int)),
        decreases lines@.len() - i,
    {
        assert(model.subrange(0, i + 1).drop_last() =~= model.subrange(0, i as int));
        if lines[i].width > m {
            m = lines[i].width;
        }
        i = i + 1;
    }
    assert(model.subrange(0, lines@.len() as int) =~= model);
    m
}

/// Appends one row to `out`, after a newline unless it is the first.
fn push_joined_row(out: &mut String, row: &str, first: bool)
    ensures
        final(out)@ == (if first {
            old(out)@ + row@
        } else {
            old(out)@ + seq!['\n'] + row@
        }),
{
    if !first {
        push_char(out, '\n');
    }
    push_text(out, row);
}

proof fn lemma_joined_push(lines: Seq<Seq<char>>, row: Seq<char>)
    ensures
        joined(lines.push(row)) == (if lines.len() == 0 {
            row
        } else {
            joined(lines) + seq!['\n'] + row
        }),
{
    assert(lines.push(row).drop_last() =~= lines);
}

/// Side-by-side layout of text-art lines and info lines, rows joined with
/// newlines.
pub fn compose_text(logo: &Vec<LogoLine>, info: &Vec<String>, ansi: bool) -> (r: String)
    ensures
        r@ == joined(
            text_rows(
                logo@.map_values(|l: LogoLine| (l.text@, l.width as nat)),
                info@.map_values(|s: String| s@),
                ansi,
            ),
        ),
{
    let ghost lm = logo@.map_values(|l: LogoLine| (l.text@, l.width as nat));
    let ghost im = info@.map_values(|s: String| s@);
    let ghost rows = text_rows(lm, im, ansi);
    let width = logo_width(logo);
    let n = if logo.len() >= info.len() {
        logo.len()
    } else {
        info.len()
    };
    let mut out = String::new();
    let mut i: usize = 0;
    while i < n
        invariant
            i <= n,
            n == rows.len(),
            n == (if logo@.len() >= info@.len() { logo@.len() } else { info@.len() }),
            lm == logo@.map_values(|l: LogoLine| (l.text@, l.width as nat)),
            im == info@.map_values(|s: String| s@),
            rows == text_rows(lm, im, ansi),
            width as nat == max_width(lm),
            out@ == joined(rows.subrange(0, i as int)),
        decreases n - i,
    {
        let mut row = String::new();
        let mut w: usize = 0;
        if i < logo.len() {
            push_styled(&mut row, LOGO_STYLE, logo[i].text.as_str(), ansi);
            w = logo[i].width;
            proof {
                lemma_max_width(lm, i as int);
            }
        } else {
            push_styled(&mut row, LOGO_STYLE, "", ansi);
            proof {
                reveal_strlit("");
            }
        }
        if i < info.len() && info[i].as_str().unicode_len() > 0 {
            let ghost before = row@;
            push_repeated(&mut row, ' ', width - w);
            push_repeated(&mut row, ' ', LOGO_GAP);
            assert(row@ =~= before + repeated(' ', (width - w + LOGO_GAP) as nat));
            push_text(&mut row, info[i].as_str());
        }
        assert(row@ =~= text_row(lm, im, i as int, ansi));
        push_joined_row(&mut out, row.as_str(), i == 0);
        proof {
            lemma_joined_push(rows.subrange(0, i as int), row@);
            assert(rows.subrange(0, i as int).push(row@) =~= rows.subrange(0, i + 1));
        }
        i = i + 1;
    }
    assert(rows.subrange(0, n as int) =~= rows);
    out
}

/// Cursor movement: `ESC [ n <dir>`.
pub open spec fn cursor_move(n: nat, dir: char) -> Seq<char> {
    seq!['\x1b', '['] + decimal(n) + seq![dir]
}

/// Info lines streamed down the right edge of an image: each moved `col`
/// columns right and ended with a newline.
pub open spec fn beside_image(info: Seq<Seq<char>>, col: nat) -> Seq<char>
    decreases info.len(),
{
    if info.len() == 0 {
        seq![]
    } else {
        beside_image(info.drop_last(), col) + cursor_move(col, 'C') + info.last() + seq!['\n']
    }
}

/// Output for an image command of `w` x `h` cells beside the info lines: the
/// command without trailing whitespace, a move up to the image's top row, the
/// info lines right of the image, then a move down past the rows the info
/// did not fill.
pub open spec fn blob_output(data: Seq<char>, w: nat, h: nat, info: Seq<Seq<char>>) -> Seq<char> {
    trim_end_blank(data) + cursor_move(h, 'A') + beside_image(info, (w + IMAGE_MARGIN) as nat) + if info.len() < h {
        cursor_move((h - info.len()) as nat, 'B')
    } else {
        seq![]
    }
}

fn push_cursor_move(out: &mut String, n: u64, dir: char)
    ensures
        final(out)@ == old(out)@ + cursor_move(n as nat, dir),
{
    push_char(out, '\x1b');
    push_char(out, '[');
    push_decimal(out, n);
    push_char(out, dir);
    assert(out@ =~= old(out)@ + cursor_move(n as nat, dir));
}

/// Positions the info lines beside an image command that draws itself over
/// `cell_width` x `cell_height` cells.
pub fn compose_blob(data: &str, cell_width: u32, cell_height: u32, info: &Vec<String>) -> (r: String)
    ensures
        r@ == blob_output(data@, cell_width as nat, cell_height as nat, info@.map_values(|s: String| s@)),
{
    let ghost im = info@.map_values(|s: String| s@);
    let mut out = trimmed_end(data);
    push_cursor_move(&mut out, cell_height as u64, 'A');
    let ghost before = out@;
    let col: u64 = cell_width as u64 + IMAGE_MARGIN;
    let mut i: usize = 0;
    while i < info.len()
        invariant
            i <= info@.len(),
            im == info@.map_values(|s: String| s@),
            col == cell_width as u64 + IMAGE_MARGIN,
            out@ == before + beside_image(im.subrange(0, i as int), col as nat),
        decreases info@.len() - i,
    {
        assert(im.subrange(0, i + 1).drop_last() =~= im.subrange(0, i as int));
        push_cursor_move(&mut out, col, 'C');
        push_text(&mut out, info[i].as_str());
        push_char(&mut out, '\n');
        i = i + 1;
        assert(out@ =~= before + beside_image(im.subrange(0, i as int), col as nat));
    }
    assert(im.subrange(0, info@.len() as int) =~= im);
    if (info.len() as u64) < (cell_height as u64) {
        push_cursor_move(&mut out, cell_height as u64 - info.len() as u64, 'B');
    }
    assert(out@ =~= blob_output(data@, cell_width as nat, cell_height as nat, im));
    out
}

/// Joins lines with newlines.
pub fn join_lines(lines: &Vec<String>) -> (r: String)
    ensures
        r@ == joined(lines@.map_values(|s: String| s@)),
{
    let ghost m = lines@.map_values(|s: String| s@);
    let mut out = String::new();
    let mut i: usize = 0;
    while i < lines.len()
        invariant
            i <= lines@.len(),
            m == lines@.map_values(|s: String| s@),
            out@ == joined(m.subrange(0, i as int)),
        decreases lines@.len() - i,
    {
        push_joined_row(&mut out, lines[i].as_str(), i == 0);
        proof {
            lemma_joined_push(m.subrange(0, i as int), m[i as int]);
            assert(m.subrange(0, i as int).push(m[i as int]) =~= m.subrange(0, i + 1));
        }
        i = i + 1;
    }
    assert(m.subrange(0, lines@.len() as int) =~= m);
    out
}

/// Output for a resolved logo model beside the info lines.
pub open spec fn composed(logo: ArtView, info: Seq<Seq<char>>, ansi: bool) -> Seq<char> {
    match logo {
        ArtView::Lines(l) => joined(text_rows(l, info, ansi)),
        ArtView::Blob(d, w, h) => blob_output(d, w, h, info),
    }
}

/// Merges a logo and the info lines into the final output.
pub fn compose(logo: &LogoArtifact, info: &Vec<String>, ansi: bool) -> (r: String)
    ensures
        r@ == composed(logo@, info@.map_values(|s: String| s@), ansi),
{
    match logo {
        LogoArtifact::TextLines(lines) => compose_text(lines, info, ansi),
        LogoArtifact::ProtocolBlob { data, cell_width, cell_height } => compose_blob(
            data.as_str(),
            *cell_width,
            *cell_height,
            info,
        ),
    }
}

/// `r` is what `Display::render` may produce for a configuration and
/// collected values (one output, but for an image's block-rendered pixels).
pub open spec fn renders(
    config: Config,
    info: Seq<(String, String)>,
    host: HostContext,
    ansi: bool,
    r: Result<Seq<char>, LogoError>,
) -> bool {
    let lines = info_lines(config.info.fields@, info, config.display, ansi);
    if !config.display.show_logo {
        r == Ok::<Seq<char>, LogoError>(joined(lines))
    } else {
        exists|logo: Result<ArtView, LogoError>|
            #[trigger] resolves(config.ascii_art, host, logo) && r == match logo {
                Ok(v) => Ok::<Seq<char>, LogoError>(composed(v, lines, ansi)),
                Err(e) => Err(e),
            }
    }
}

/// Renders collected field values beside the configured logo.
pub struct Display {
    pub config: Config,
}

impl Display {
    pub fn new(config: Config) -> (r: Self)
        ensures
            r.config == config,
    {
        Display { config }
    }

    /// The final output for `info`, a list of (field name, value) pairs in
    /// which the last pair of a name counts; `ansi` turns terminal styling on.
    pub fn render(&self, info: &Vec<(String, String)>, host: &HostContext, ansi: bool) -> (r: Result<
        String,
        LogoError,
    >)
        requires
            host_fits(*host),
        ensures
            renders(self.config, info@, *host, ansi, match r {
                Ok(s) => Ok(s@),
                Err(e) => Err(e),
            }),
    {
        let lines = render_info_lines(&self.config.info.fields, info, &self.config.display, ansi);
        let ghost im = lines@.map_values(|s: String| s@);
        assert(im =~= info_lines(self.config.info.fields@, info@, self.config.display, ansi));
        if !self.config.display.show_logo {
            return Ok(join_lines(&lines));
        }
        let logo = get_ascii_art(&self.config, host);
        let ghost lv = art_result(logo);
        match logo {
            Ok(a) => {
                let out = compose(&a, &lines, ansi);
                assert(resolves(self.config.ascii_art, *host, lv));
                Ok(out)
            },
            Err(e) => {
                assert(resolves(self.config.ascii_art, *host, lv));
                Err(e)
            },
        }
    }
}

/// Number of fields in `order` that have a value, `userhost` left out.
pub open spec fn shown_count(order: Seq<String>, info: Seq<(String, String)>) -> nat
    decreases order.len(),
{
    if order.len() == 0 {
        0
    } else {
        let rest = shown_count(order.drop_last(), info);
        let f = order.last()@;
        if f != USERHOST_FIELD@ && lookup(info, f) is Some {
            rest + 1
        } else {
            rest
        }
    }
}

proof fn lemma_concat_single(a: Seq<char>, b: Seq<char>)
    requires
        single_line(a),
        single_line(b),
    ensures
        single_line(a + b),
{
    assert forall|i: int| 0 <= i < (a + b).len() implies (a + b)[i] != '\n' by {
        if i >= a.len() {
            assert((a + b)[i] == b[i - a.len()]);
        }
    }
}

proof fn lemma_styled_single(code: Seq<char>, t: Seq<char>, ansi: bool)
    requires
        single_line(code),
        single_line(t),
    ensures
        single_line(styled(code, t, ansi)),
{
    reveal_strlit("\x1b[");
    reveal_strlit("m");
    reveal_strlit("\x1b[0m");
    lemma_concat_single(SGR_OPEN@, code);
    lemma_concat_single(SGR_OPEN@ + code, SGR_CLOSE@);
    let style = SGR_OPEN@ + code + SGR_CLOSE@;
    lemma_restyled_single(t, style);
    lemma_concat_single(style, restyled(t, style));
    lemma_concat_single(style + restyled(t, style), SGR_RESET@);
}

proof fn lemma_restyled_single(t: Seq<char>, style: Seq<char>)
    requires
        single_line(t),
        single_line(style),
    ensures
        single_line(restyled(t, style)),
    decreases t.len(),
{
    reveal_strlit("\x1b[0m");
    if t.len() > 0 {
        if t.len() >= 4 && t.take(4) == SGR_RESET@ {
            let r = t.skip(4);
            assert forall|i: int| 0 <= i < r.len() implies r[i] != '\n' by {
                assert(r[i] == t[i + 4]);
            }
            lemma_restyled_single(r, style);
            lemma_concat_single(SGR_RESET@, style);
            lemma_concat_single(SGR_RESET@ + style, restyled(r, style));
        } else {
            let r = t.skip(1);
            assert forall|i: int| 0 <= i < r.len() implies r[i] != '\n' by {
                assert(r[i] == t[i + 1]);
            }
            lemma_restyled_single(r, style);
            assert(t[0] != '\n');
            lemma_concat_single(seq![t[0]], restyled(r, style));
        }
    }
}

proof fn lemma_fg_code_single(c: AnsiColor)
    ensures
        single_line(fg_code(c)),
{
    reveal_strlit("30");
    reveal_strlit("31");
    reveal_strlit("32");
    reveal_strlit("33");
    reveal_strlit("34");
    reveal_strlit("35");
    reveal_strlit("36");
    reveal_strlit("37");
    reveal_strlit("90");
    reveal_strlit("91");
    reveal_strlit("92");
    reveal_strlit("93");
    reveal_strlit("94");
    reveal_strlit("95");
    reveal_strlit("96");
    reveal_strlit("97");
}

proof fn lemma_lookup_is_value(info: Seq<(String, String)>, k: Seq<char>)
    requires
        lookup(info, k) is Some,
    ensures
        exists|i: int| 0 <= i < info.len() && lookup(info, k) == Some(#[trigger] info[i].1@),
    decreases info.len(),
{
    if info.last().0@ != k {
        lemma_lookup_is_value(info.drop_last(), k);
        let i = choose|i: int| 0 <= i < info.drop_last().len() && lookup(info.drop_last(), k) == Some(
            #[trigger] info.drop_last()[i].1@,
        );
        assert(info[i] == info.drop_last()[i]);
    } else {
        assert(lookup(info, k) == Some(info[info.len() - 1].1@));
    }
}

/// Every value of `info` and every label of `order` is a single line.
pub open spec fn single_line_fields(order: Seq<String>, info: Seq<(String, String)>) -> bool {
    &&& forall|i: int| 0 <= i < info.len() ==> single_line(#[trigger] info[i].1@)
    &&& forall|i: int| 0 <= i < order.len() ==> single_line(#[trigger] order[i]@)
}

proof fn lemma_label_single(f: Seq<char>)
    requires
        single_line(f),
    ensures
        single_line(field_label(f)),
{
    reveal_strlit("OS");
    reveal_strlit("Host");
    reveal_strlit("Kernel");
    reveal_strlit("Uptime");
    reveal_strlit("Packages");
    reveal_strlit("Shell");
    reveal_strlit("Resolution");
    reveal_strlit("DE");
    reveal_strlit("WM");
    reveal_strlit("Terminal");
    reveal_strlit("CPU");
    reveal_strlit("Memory");
    reveal_strlit("Disk");
    reveal_strlit("Colors");
    if f.len() > 0 {
        let raw = seq![label_initial(f[0])] + f.drop_first();
        assert forall|i: int| 0 <= i < raw.len() implies raw[i] != '\n' by {
            if i > 0 {
                assert(raw[i] == f[i]);
            }
        }
    }
}

proof fn lemma_value_single(info: Seq<(String, String)>, k: Seq<char>)
    requires
        lookup(info, k) is Some,
        forall|i: int| 0 <= i < info.len() ==> single_line(#[trigger] info[i].1@),
    ensures
        single_line(lookup(info, k)->Some_0),
{
    lemma_lookup_is_value(info, k);
}

proof fn lemma_field_entries(order: Seq<String>, info: Seq<(String, String)>, d: DisplayConfig, ansi: bool)
    requires
        single_line_fields(order, info),
    ensures
        field_entries(order, info, d, ansi).len() == shown_count(order, info),
        forall|j: int|
            0 <= j < field_entries(order, info, d, ansi).len() ==> single_line(
                #[trigger] field_entries(order, info, d, ansi)[j],
            ),
    decreases order.len(),
{
    if order.len() > 0 {
        let rest = order.drop_last();
        assert forall|i: int| 0 <= i < rest.len() implies single_line(#[trigger] rest[i]@) by {
            assert(rest[i] == order[i]);
        }
        lemma_field_entries(rest, info, d, ansi);
        let f = order.last()@;
        if f != USERHOST_FIELD@ && lookup(info, f) is Some {
            let v = lookup(info, f)->Some_0;
            lemma_value_single(info, f);
            assert(single_line(order[order.len() - 1]@));
            lemma_label_single(f);
            if !(f == PALETTE_FIELD@ && !d.show_colors_label) {
                reveal_strlit("1;36");
                reveal_strlit("2");
                reveal_strlit(":");
                lemma_styled_single(LABEL_STYLE@, field_label(f), ansi);
                lemma_styled_single(DIM_STYLE@, ":"@, ansi);
                let c = color_named(color_name_for(d.field_colors@, f));
                lemma_fg_code_single(c);
                lemma_styled_single(fg_code(c), v, true);
                lemma_concat_single(styled(LABEL_STYLE@, field_label(f), ansi), styled(DIM_STYLE@, ":"@, ansi));
                lemma_concat_single(
                    styled(LABEL_STYLE@, field_label(f), ansi) + styled(DIM_STYLE@, ":"@, ansi),
                    seq![' '],
                );
                lemma_concat_single(
                    styled(LABEL_STYLE@, field_label(f), ansi) + styled(DIM_STYLE@, ":"@, ansi) + seq![' '],
                    colorized(f, v, d.field_colors@, d.color_values && ansi),
                );
            }
        }
    }
}

proof fn lemma_flat_single(entries: Seq<Seq<char>>)
    requires
        forall|j: int| 0 <= j < entries.len() ==> single_line(#[trigger] entries[j]),
    ensures
        flat_pieces(entries) == entries,
    decreases entries.len(),
{
    if entries.len() > 0 {
        lemma_flat_single(entries.drop_last());
        lemma_split_single(entries.last());
        assert(pieces(entries.last()) =~= seq![entries.last()]);
        assert(entries.drop_last() + seq![entries.last()] =~= entries);
    }
}

proof fn lemma_split_append_single(x: Seq<char>, y: Seq<char>)
    requires
        single_line(y),
    ensures
        split_acc(x + y) == (split_acc(x).0, split_acc(x).1 + y),
    decreases y.len(),
{
    if y.len() == 0 {
        assert(x + y =~= x);
        assert(split_acc(x).1 + y =~= split_acc(x).1);
    } else {
        let yd = y.drop_last();
        assert forall|i: int| 0 <= i < yd.len() implies yd[i] != '\n' by {
            assert(yd[i] == y[i]);
        }
        lemma_split_append_single(x, yd);
        assert((x + y).drop_last() =~= x + yd);
        assert((x + y).last() == y.last());
        assert(y[y.len() - 1] != '\n');
        assert(split_acc(x).1 + yd + seq![y.last()] =~= split_acc(x).1 + y);
        assert((split_acc(x).1 + yd).push(y.last()) =~= split_acc(x).1 + y);
    }
}

proof fn lemma_pieces_joined(rows: Seq<Seq<char>>)
    requires
        rows.len() > 0,
        forall|i: int| 0 <= i < rows.len() ==> single_line(#[trigger] rows[i]),
    ensures
        pieces(joined(rows)) == rows,
    decreases rows.len(),
{
    if rows.len() == 1 {
        lemma_split_append_single(seq![], rows[0]);
        assert(seq![] + rows[0] =~= rows[0]);
        assert(split_acc(Seq::<char>::empty()) == (Seq::<Seq<char>>::empty(), Seq::<char>::empty()));
        assert(Seq::<char>::empty() + rows[0] =~= rows[0]);
        assert(pieces(joined(rows)) =~= rows);
    } else {
        let rd = rows.drop_last();
        assert forall|i: int| 0 <= i < rd.len() implies single_line(#[trigger] rd[i]) by {
            assert(rd[i] == rows[i]);
        }
        lemma_pieces_joined(rd);
        let j = joined(rd);
        let jn = j + seq!['\n'];
        assert(jn.drop_last() =~= j);
        assert(split_acc(jn) == (pieces(j), Seq::<char>::empty()));
        assert(single_line(rows[rows.len() - 1]));
        lemma_split_append_single(jn, rows.last());
        assert(joined(rows) == jn + rows.last());
        assert(Seq::<char>::empty() + rows.last() =~= rows.last());
        assert(pieces(joined(rows)) =~= rows);
    }
}

/// Side by side, the text layout has exactly as many rows as the longer of
/// the logo and the info block, and the info block has one line per shown
/// field plus two for the header and its rule. Where the field names,
/// values and logo lines hold no line break, the output's lines between
/// newlines are exactly these rows; each row starts with its styled logo line
/// (empty past the logo) and ends with its info line: no line is dropped or
/// duplicated.
pub proof fn text_layout_row_count(
    logo: Seq<(Seq<char>, nat)>,
    order: Seq<String>,
    info: Seq<(String, String)>,
    d: DisplayConfig,
    ansi: bool,
)
    requires
        single_line_fields(order, info),
        forall|i: int| 0 <= i < logo.len() ==> single_line(#[trigger] logo[i].0),
    ensures
        ({
            let n = (if lookup(info, USERHOST_FIELD@) is Some {
                2nat
            } else {
                0nat
            }) + shown_count(order, info);
            let lines = info_lines(order, info, d, ansi);
            let rows = text_rows(logo, lines, ansi);
            &&& lines.len() == n
            &&& rows.len() == if logo.len() >= n {
                logo.len()
            } else {
                n
            }
            &&& rows.len() > 0 ==> pieces(joined(rows)) == rows
            &&& forall|i: int|
                0 <= i < rows.len() ==> has_prefix(
                    #[trigger] rows[i],
                    styled(LOGO_STYLE@, if i < logo.len() { logo[i].0 } else { seq![] }, ansi),
                )
            &&& forall|i: int|
                0 <= i < lines.len() && lines[i].len() > 0 ==> has_suffix(#[trigger] rows[i], lines[i])
        }),
{
    let st = ansi && d.color_values;
    lemma_field_entries(order, info, d, st);
    let head = header_entries(info, st);
    let fe = field_entries(order, info, d, st);
    reveal_strlit("1;92");
    reveal_strlit("2");
    reveal_strlit("94");
    if lookup(info, USERHOST_FIELD@) is Some {
        let u = lookup(info, USERHOST_FIELD@)->Some_0;
        lemma_value_single(info, USERHOST_FIELD@);
        lemma_styled_single(HEADER_STYLE@, u, st);
        lemma_styled_single(DIM_STYLE@, repeated('-', display_width_capped(u)), st);
    }
    assert forall|j: int| 0 <= j < (head + fe).len() implies single_line(#[trigger] (head + fe)[j]) by {
        if j >= head.len() {
            assert((head + fe)[j] == fe[j - head.len()]);
        }
    }
    lemma_flat_single(head + fe);
    let lines = info_lines(order, info, d, ansi);
    let rows = text_rows(logo, lines, ansi);
    assert forall|i: int| 0 <= i < rows.len() implies single_line(#[trigger] rows[i]) && has_prefix(
        rows[i],
        styled(LOGO_STYLE@, if i < logo.len() { logo[i].0 } else { seq![] }, ansi),
    ) by {
        let t: Seq<char> = if i < logo.len() { logo[i].0 } else { seq![] };
        let lg = styled(LOGO_STYLE@, t, ansi);
        lemma_styled_single(LOGO_STYLE@, t, ansi);
        assert(rows[i] == text_row(logo, lines, i, ansi));
        let inf: Seq<char> = if i < lines.len() { lines[i] } else { seq![] };
        if inf.len() > 0 {
            let w: nat = if i < logo.len() { logo[i].1 } else { 0nat };
            let pad = repeated(' ', (max_width(logo) - w + LOGO_GAP) as nat);
            lemma_concat_single(lg, pad);
            lemma_concat_single(lg + pad, inf);
            assert((lg + pad + inf).subrange(0, lg.len() as int) =~= lg);
        } else {
            assert(lg.subrange(0, lg.len() as int) =~= lg);
        }
    }
    if rows.len() > 0 {
        lemma_pieces_joined(rows);
    }
    assert forall|i: int| 0 <= i < lines.len() && lines[i].len() > 0 implies has_suffix(#[trigger] rows[i], lines[i]) by {
        let row = rows[i];
        assert(row == text_row(logo, lines, i, ansi));
        let k = row.len() - lines[i].len();
        assert(row.subrange(k, row.len() as int) =~= lines[i]);
    }
}

/// `head` starts `s`.
pub open spec fn has_prefix(s: Seq<char>, head: Seq<char>) -> bool {
    head.len() <= s.len() && s.subrange(0, head.len() as int) == head
}

/// `tail` ends `s`.
pub open spec fn has_suffix(s: Seq<char>, tail: Seq<char>) -> bool {
    tail.len() <= s.len() && s.subrange(s.len() - tail.len(), s.len() as int) == tail
}

/// With the logo turned off, the output is the info block alone: its lines
/// joined, with no logo column or padding.
pub proof fn no_logo_is_info_block(
    config: Config,
    info: Seq<(String, String)>,
    host: HostContext,
    ansi: bool,
    r: Result<Seq<char>, LogoError>,
)
    requires
        !config.display.show_logo,
    ensures
        renders(config, info, host, ansi, r) <==> r == Ok::<Seq<char>, LogoError>(
            joined(info_lines(config.info.fields@, info, config.display, ansi)),
        ),
{
}

/// What `Display::render` gives with a text-art logo (any source but an
/// image file), where field names, values and logo lines hold no line
/// break: the output's lines between newlines are the side-by-side rows,
/// as many as the longer of the logo and the info block (one line per shown
/// field, two more for the header and its rule), each starting with its
/// styled logo line and ending with its info line.
pub proof fn rendered_text_layout(
    config: Config,
    info: Seq<(String, String)>,
    host: HostContext,
    ansi: bool,
    logo: Seq<(Seq<char>, nat)>,
    r: Result<Seq<char>, LogoError>,
)
    requires
        config.display.show_logo,
        config.ascii_art.source != AsciiArtSource::Image,
        resolves(config.ascii_art, host, Ok(ArtView::Lines(logo))),
        renders(config, info, host, ansi, r),
        single_line_fields(config.info.fields@, info),
        forall|i: int| 0 <= i < logo.len() ==> single_line(#[trigger] logo[i].0),
    ensures
        ({
            let order = config.info.fields@;
            let n = (if lookup(info, USERHOST_FIELD@) is Some {
                2nat
            } else {
                0nat
            }) + shown_count(order, info);
            let lines = info_lines(order, info, config.display, ansi);
            let rows = text_rows(logo, lines, ansi);
            &&& r == Ok::<Seq<char>, LogoError>(joined(rows))
            &&& rows.len() == if logo.len() >= n {
                logo.len()
            } else {
                n
            }
            &&& rows.len() > 0 ==> pieces(joined(rows)) == rows
            &&& forall|i: int|
                0 <= i < rows.len() ==> has_prefix(
                    #[trigger] rows[i],
                    styled(LOGO_STYLE@, if i < logo.len() { logo[i].0 } else { seq![] }, ansi),
                )
            &&& forall|i: int|
                0 <= i < lines.len() && lines[i].len() > 0 ==> has_suffix(#[trigger] rows[i], lines[i])
        }),
{
    let lines = info_lines(config.info.fields@, info, config.display, ansi);
    let lr = choose|lr: Result<ArtView, LogoError>|
        #[trigger] resolves(config.ascii_art, host, lr) && r == match lr {
            Ok(v) => Ok::<Seq<char>, LogoError>(composed(v, lines, ansi)),
            Err(e) => Err(e),
        };
    assert(lr == Ok::<ArtView, LogoError>(ArtView::Lines(logo)));
    text_layout_row_count(logo, config.info.fields@, info, config.display, ansi);
}

} // verus!
