//! Raster images as logos: terminal image protocols, or a block rendering.
use vstd::prelude::*;
use crate::color::SGR_RESET;
use crate::logo::{ArtView, ImageError, LogoArtifact, LogoLine};
use crate::text::{decimal, has_infix, push_decimal, push_text, contains_text, same_text};
use base64::Engine;

verus! {

/// Width, in character cells, that an image is shown at.
pub const IMAGE_CELLS_WIDE: u32 = 30;

/// Height, in character cells, that an image is shown at.
pub const IMAGE_CELLS_HIGH: u32 = 15;

/// Width, in cells, of the block rendering.
pub const RASTER_CELLS_WIDE: u32 = 29;

/// Height, in cells, of the block rendering.
pub const RASTER_CELLS_HIGH: u32 = 15;

/// What the terminal says about itself.
#[derive(Clone, Debug)]
pub struct TerminalEnv {
    /// The program-identification signal (`TERM_PROGRAM`), if set.
    pub term_program: Option<String>,
    /// The terminal type signal (`TERM`), if set.
    pub term: Option<String>,
    /// Whether output passes through a terminal multiplexer (tmux).
    pub multiplexed: bool,
}

/// The ways an image can reach the terminal.
#[derive(Clone, Copy, Debug, PartialEq, Eq, Structural)]
pub enum ImageProtocol {
    /// The inline-file escape of iTerm2.
    InlineFile,
    /// The graphics protocol of kitty.
    KittyGraphics,
    /// Colored block characters, for every other terminal.
    BlockRaster,
}

/// Program name by which iTerm2 identifies itself.
pub const INLINE_TERMINAL_PROGRAM: &'static str = "iTerm.app";

/// Marker of kitty in the terminal type.
pub const KITTY_TERM_MARKER: &'static str = "kitty";

/// The protocol for a terminal: the first that applies, in priority order.
pub open spec fn protocol_for(env: TerminalEnv) -> ImageProtocol {
    if env.term_program is Some && env.term_program->Some_0@ == INLINE_TERMINAL_PROGRAM@ {
        ImageProtocol::InlineFile
    } else if env.term is Some && has_infix(env.term->Some_0@, KITTY_TERM_MARKER@) {
        ImageProtocol::KittyGraphics
    } else {
        ImageProtocol::BlockRaster
    }
}

/// Chooses the image protocol for a terminal.
pub fn select_protocol(env: &TerminalEnv) -> (r: ImageProtocol)
    ensures
        r == protocol_for(*env),
{
    if let Some(p) = &env.term_program {
        if same_text(p.as_str(), INLINE_TERMINAL_PROGRAM) {
            return ImageProtocol::InlineFile;
        }
    }
    if let Some(t) = &env.term {
        if contains_text(t.as_str(), KITTY_TERM_MARKER) {
            return ImageProtocol::KittyGraphics;
        }
    }
    ImageProtocol::BlockRaster
}

/// The standard base64 alphabet.
pub const BASE64_ALPHABET: &'static str = "ABCDEFGHIJKLMNOPQRSTUVWXYZabcdefghijklmnopqrstuvwxyz0123456789+/";

/// The base64 digit of a 6-bit value.
pub open spec fn b64_digit(v: int) -> char {
    BASE64_ALPHABET@[v]
}

/// Standard base64 with padding: each group of three bytes becomes four
/// digits; a final group of one or two bytes becomes two or three digits and
/// `=` up to four.
pub open spec fn base64_of(b: Seq<u8>) -> Seq<char>
    decreases b.len(),
{
    if b.len() == 0 {
        seq![]
    } else if b.len() == 1 {
        seq![b64_digit(b[0] as int / 4), b64_digit((b[0] as int % 4) * 16), '=', '=']
    } else if b.len() == 2 {
        seq![
            b64_digit(b[0] as int / 4),
            b64_digit((b[0] as int % 4) * 16 + b[1] as int / 16),
            b64_digit((b[1] as int % 16) * 4),
            '=',
        ]
    } else {
        seq![
            b64_digit(b[0] as int / 4),
            b64_digit((b[0] as int % 4) * 16 + b[1] as int / 16),
            b64_digit((b[1] as int % 16) * 4 + b[2] as int / 64),
            b64_digit(b[2] as int % 64),
        ] + base64_of(b.skip(3))
    }
}

/// Relies on base64's `Engine::encode` with the `STANDARD` engine: the
/// padded standard-alphabet encoding of the input. It panics only when the
/// encoded length overflows `usize`, which the bound rules out.
#[verifier::external_body]
fn base64_encode(b: &Vec<u8>) -> (r: String)
    requires
        b@.len() <= usize::MAX / 2,
    ensures
        r@ == base64_of(b@),
{
    base64::engine::general_purpose::STANDARD.encode(b)
}

/// The bytes are an image that the decoder knows and can decode.
pub uninterp spec fn decodes(b: Seq<u8>) -> bool;

/// Relies on image's `load_from_memory` (format guessed from the bytes; it
/// fails exactly on bytes it cannot decode), `DynamicImage::resize` with
/// `FilterType::Lanczos3`, and `to_rgba8`. `resize` scales to dimensions
/// computed by `resize_dimensions`: each at least 1 and at most the bound
/// asked for; the buffer's rows all have the image's width. The pixel values
/// come from floating-point resampling, so nothing is said of them.
#[verifier::external_body]
fn thumbnail(b: &Vec<u8>, w: u32, h: u32) -> (r: Option<Vec<Vec<(u8, u8, u8)>>>)
    requires
        w >= 1,
        h >= 1,
    ensures
        match r {
            Some(rows) => {
                &&& decodes(b@)
                &&& 1 <= rows@.len() <= h
                &&& 1 <= rows@[0]@.len() <= w
                &&& forall|i: int| 0 <= i < rows@.len() ==> (#[trigger] rows@[i])@.len() == rows@[0]@.len()
            },
            None => !decodes(b@),
        },
{
    let img = image::load_from_memory(b).ok()?;
    let img = img.resize(w, h, image::imageops::FilterType::Lanczos3).to_rgba8();
    Some(img.rows().map(|row| row.map(|p| (p.0[0], p.0[1], p.0[2])).collect()).collect())
}

/// Prefix of the inline-file escape, sizes included.
pub open spec fn inline_header() -> Seq<char> {
    "\x1b]1337;File=width="@ + decimal(IMAGE_CELLS_WIDE as nat) + ";height="@ + decimal(
        IMAGE_CELLS_HIGH as nat,
    ) + ";inline=1;preserveAspectRatio=1:"@
}

/// The inline-file escape carrying `payload` (base64), wrapped for the
/// multiplexer's pass-through when `multiplexed` is set.
pub open spec fn inline_escape(payload: Seq<char>, multiplexed: bool) -> Seq<char> {
    if multiplexed {
        "\x1bPtmux;\x1b"@ + inline_header() + payload + "\x07\x1b\\"@
    } else {
        inline_header() + payload + "\x07"@
    }
}

/// Raw bytes carried by one kitty command: their base64 fills the 4096
/// characters that kitty allows per chunk.
pub const KITTY_CHUNK_BYTES: usize = 3072;

/// Terminator of a kitty command (string terminator, `ESC \`).
pub const KITTY_END: &'static str = "\x1b\\";

/// The `m` key of a chunk: `1` where more chunks follow, else `0`.
pub open spec fn kitty_more(remaining: nat) -> Seq<char> {
    if remaining > KITTY_CHUNK_BYTES {
        "1"@
    } else {
        "0"@
    }
}

/// One chunk: control data, `;`, the base64 of the chunk's bytes, terminator.
pub open spec fn kitty_chunk(control: Seq<char>, b: Seq<u8>) -> Seq<char> {
    control + kitty_more(b.len()) + ";"@ + base64_of(b.take(if b.len() > KITTY_CHUNK_BYTES { KITTY_CHUNK_BYTES as int } else { b.len() as int })) + KITTY_END@
}

/// The continuation chunks that carry `b`, each with only the `m` key.
pub open spec fn kitty_rest(b: Seq<u8>) -> Seq<char>
    decreases b.len(),
{
    if b.len() <= KITTY_CHUNK_BYTES {
        kitty_chunk("\x1b_Gm="@, b)
    } else {
        kitty_chunk("\x1b_Gm="@, b) + kitty_rest(b.skip(KITTY_CHUNK_BYTES as int))
    }
}

/// The kitty graphics command that transmits and shows the PNG/image bytes
/// `b` (`a=T`, `f=100`), with their byte count under `S`, in chunks: the
/// first carries all control data, the others only `m`; each ends with the
/// terminator, and nothing follows the last.
pub open spec fn kitty_escape(b: Seq<u8>) -> Seq<char> {
    let first = "\x1b_Ga=T,f=100,S="@ + decimal(b.len()) + ",m="@;
    if b.len() <= KITTY_CHUNK_BYTES {
        kitty_chunk(first, b)
    } else {
        kitty_chunk(first, b) + kitty_rest(b.skip(KITTY_CHUNK_BYTES as int))
    }
}

/// One pixel as a true-color block glyph.
pub open spec fn pixel_cell(p: (u8, u8, u8)) -> Seq<char> {
    "\x1b[38;2;"@ + decimal(p.0 as nat) + ";"@ + decimal(p.1 as nat) + ";"@ + decimal(p.2 as nat)
        + "m\u{2593}"@ + SGR_RESET@
}

/// A row of pixels as block glyphs.
pub open spec fn pixel_row(row: Seq<(u8, u8, u8)>) -> Seq<char>
    decreases row.len(),
{
    if row.len() == 0 {
        seq![]
    } else {
        pixel_row(row.drop_last()) + pixel_cell(row.last())
    }
}

/// Block rendering of pixel rows: one line per row, one cell per pixel.
pub open spec fn raster_view(rows: Seq<Seq<(u8, u8, u8)>>) -> ArtView {
    ArtView::Lines(rows.map_values(|row: Seq<(u8, u8, u8)>| (pixel_row(row), row.len())))
}

/// Pixel rows as the block rendering takes them: 1 to 15 rows of the same
/// length, 1 to 29 pixels.
pub open spec fn rows_fit(rows: Seq<Seq<(u8, u8, u8)>>) -> bool {
    &&& 1 <= rows.len() <= RASTER_CELLS_HIGH
    &&& 1 <= rows[0].len() <= RASTER_CELLS_WIDE
    &&& forall|i: int| 0 <= i < rows.len() ==> (#[trigger] rows[i]).len() == rows[0].len()
}

/// `r` is what `encode_image` may give for an image file's bytes (`None`:
/// unreadable). Every case is fixed but the block rendering's pixel colours,
/// which come from floating-point resampling: there, any rows that fit.
pub open spec fn encodes(bytes: Option<Vec<u8>>, env: TerminalEnv, codec: bool, r: Result<ArtView, ImageError>) -> bool {
    if !codec {
        r == Err::<ArtView, ImageError>(ImageError::ImageSupportUnavailable)
    } else if bytes is None {
        r == Err::<ArtView, ImageError>(ImageError::ImageUnreadable)
    } else {
        let b = bytes->Some_0@;
        match protocol_for(env) {
            ImageProtocol::InlineFile => r == Ok::<ArtView, ImageError>(
                ArtView::Blob(
                    inline_escape(base64_of(b), env.multiplexed),
                    IMAGE_CELLS_WIDE as nat,
                    IMAGE_CELLS_HIGH as nat,
                ),
            ),
            ImageProtocol::KittyGraphics => r == Ok::<ArtView, ImageError>(
                ArtView::Blob(kitty_escape(b), IMAGE_CELLS_WIDE as nat, IMAGE_CELLS_HIGH as nat),
            ),
            ImageProtocol::BlockRaster => if decodes(b) {
                exists|rows: Seq<Seq<(u8, u8, u8)>>|
                    rows_fit(rows) && r == Ok::<ArtView, ImageError>(#[trigger] raster_view(rows))
            } else {
                r == Err::<ArtView, ImageError>(ImageError::ImageFormatUnsupported)
            },
        }
    }
}

/// Model of an encoding result.
pub open spec fn image_result(r: Result<LogoArtifact, ImageError>) -> Result<ArtView, ImageError> {
    match r {
        Ok(a) => Ok(a@),
        Err(e) => Err(e),
    }
}

fn push_inline_header(out: &mut String)
    ensures
        final(out)@ == old(out)@ + inline_header(),
{
    push_text(out, "\x1b]1337;File=width=");
    push_decimal(out, IMAGE_CELLS_WIDE as u64);
    push_text(out, ";height=");
    push_decimal(out, IMAGE_CELLS_HIGH as u64);
    push_text(out, ";inline=1;preserveAspectRatio=1:");
    assert(out@ =~= old(out)@ + inline_header());
}

fn inline_blob(payload: &str, multiplexed: bool) -> (r: String)
    ensures
        r@ == inline_escape(payload@, multiplexed),
{
    let mut out = String::new();
    if multiplexed {
        push_text(&mut out, "\x1bPtmux;\x1b");
        push_inline_header(&mut out);
        push_text(&mut out, payload);
        push_text(&mut out, "\x07\x1b\\");
    } else {
        push_inline_header(&mut out);
        push_text(&mut out, payload);
        push_text(&mut out, "\x07");
    }
    assert(out@ =~= inline_escape(payload@, multiplexed));
    out
}

/// Copies `b[from..to]`.
fn copy_range(b: &Vec<u8>, from: usize, to: usize) -> (r: Vec<u8>)
    requires
        from <= to <= b@.len(),
    ensures
        r@ == b@.subrange(from as int, to as int),
{
    let mut r: Vec<u8> = Vec::new();
    let mut i: usize = from;
    while i < to
        invariant
            from <= i <= to <= b@.len(),
            r@ == b@.subrange(from as int, i as int),
        decreases to - i,
    {
        r.push(b[i]);
        i = i + 1;
        assert(r@ =~= b@.subrange(from as int, i as int));
    }
    r
}

/// Appends one chunk for the bytes `b[pos..]`, with `control` before `m=`.
fn push_kitty_chunk(out: &mut String, control: &str, b: &Vec<u8>, pos: usize) -> (end: usize)
    requires
        pos < b@.len() <= usize::MAX / 2,
    ensures
        final(out)@ == old(out)@ + kitty_chunk(control@, b@.skip(pos as int)),
        end == (if b@.len() - pos > KITTY_CHUNK_BYTES { pos + KITTY_CHUNK_BYTES } else { b@.len() as int }),
{
    let rest = b.len() - pos;
    let end = if rest > KITTY_CHUNK_BYTES {
        pos + KITTY_CHUNK_BYTES
    } else {
        b.len()
    };
    let chunk = copy_range(b, pos, end);
    assert(chunk@ =~= b@.skip(pos as int).take(end - pos));
    let payload = base64_encode(&chunk);
    push_text(out, control);
    if rest > KITTY_CHUNK_BYTES {
        push_text(out, "1");
    } else {
        push_text(out, "0");
    }
    push_text(out, ";");
    push_text(out, payload.as_str());
    push_text(out, KITTY_END);
    assert(out@ =~= old(out)@ + kitty_chunk(control@, b@.skip(pos as int)));
    end
}

fn kitty_blob(b: &Vec<u8>) -> (r: String)
    requires
        b@.len() <= usize::MAX / 2,
    ensures
        r@ == kitty_escape(b@),
{
    let mut first = String::new();
    push_text(&mut first, "\x1b_Ga=T,f=100,S=");
    push_decimal(&mut first, b.len() as u64);
    push_text(&mut first, ",m=");
    let mut out = String::new();
    if b.len() == 0 {
        push_text(&mut out, first.as_str());
        push_text(&mut out, "0");
        push_text(&mut out, ";");
        let payload = base64_encode(b);
        push_text(&mut out, payload.as_str());
        push_text(&mut out, KITTY_END);
        assert(b@.take(0) =~= b@);
        assert(out@ =~= kitty_escape(b@));
        return out;
    }
    assert(b@.skip(0) =~= b@);
    let mut pos = push_kitty_chunk(&mut out, first.as_str(), b, 0);
    while pos < b.len()
        invariant
            pos <= b@.len() <= usize::MAX / 2,
            pos < b@.len() ==> pos == KITTY_CHUNK_BYTES || out@ + kitty_rest(b@.skip(pos as int)) == kitty_escape(b@),
            pos < b@.len() && pos == KITTY_CHUNK_BYTES ==> out@ + kitty_rest(b@.skip(pos as int)) == kitty_escape(b@),
            pos == b@.len() ==> out@ == kitty_escape(b@),
        decreases b@.len() - pos,
    {
        let ghost before = out@;
        let ghost tail = b@.skip(pos as int);
        let next = push_kitty_chunk(&mut out, "\x1b_Gm=", b, pos);
        proof {
            if tail.len() > KITTY_CHUNK_BYTES {
                assert(tail.skip(KITTY_CHUNK_BYTES as int) =~= b@.skip(next as int));
            }
            assert(kitty_rest(tail) == kitty_chunk("\x1b_Gm="@, tail) + if tail.len() <= KITTY_CHUNK_BYTES {
                seq![]
            } else {
                kitty_rest(tail.skip(KITTY_CHUNK_BYTES as int))
            });
        }
        pos = next;
    }
    out
}

fn push_pixel(out: &mut String, p: (u8, u8, u8))
    ensures
        final(out)@ == old(out)@ + pixel_cell(p),
{
    push_text(out, "\x1b[38;2;");
    push_decimal(out, p.0 as u64);
    push_text(out, ";");
    push_decimal(out, p.1 as u64);
    push_text(out, ";");
    push_decimal(out, p.2 as u64);
    push_text(out, "m\u{2593}");
    push_text(out, SGR_RESET);
    assert(out@ =~= old(out)@ + pixel_cell(p));
}

/// Renders pixel rows as lines of true-color block glyphs.
pub fn render_raster(rows: &Vec<Vec<(u8, u8, u8)>>) -> (r: LogoArtifact)
    ensures
        r@ == raster_view(rows@.map_values(|row: Vec<(u8, u8, u8)>| row@)),
        r matches LogoArtifact::TextLines(lines) && lines@.len() == rows@.len() && forall|i: int|
            0 <= i < lines@.len() ==> (#[trigger] lines@[i]).width == rows@[i]@.len(),
{
    let ghost model = rows@.map_values(|row: Vec<(u8, u8, u8)>| row@);
    let mut lines: Vec<LogoLine> = Vec::new();
    let mut i: usize = 0;
    while i < rows.len()
        invariant
            i <= rows@.len(),
            model == rows@.map_values(|row: Vec<(u8, u8, u8)>| row@),
            lines@.len() == i,
            forall|k: int|
                0 <= k < i ==> (#[trigger] lines@[k].text@, lines@[k].width as nat) == (
                    pixel_row(model[k]),
                    model[k].len(),
                ),
        decreases rows@.len() - i,
    {
        let row = &rows[i];
        let mut text = String::new();
        let mut j: usize = 0;
        while j < row.len()
            invariant
                j <= row@.len(),
                text@ == pixel_row(row@.subrange(0, j as int)),
            decreases row@.len() - j,
        {
            assert(row@.subrange(0, j + 1).drop_last() =~= row@.subrange(0, j as int));
            push_pixel(&mut text, row[j]);
            j = j + 1;
        }
        assert(row@.subrange(0, row@.len() as int) =~= row@);
        lines.push(LogoLine { text, width: row.len() });
        i = i + 1;
    }
    assert(lines@.map_values(|l: LogoLine| (l.text@, l.width as nat)) =~= model.map_values(
        |row: Seq<(u8, u8, u8)>| (pixel_row(row), row.len()),
    ));
    assert forall|i: int| 0 <= i < lines@.len() implies (#[trigger] lines@[i]).width == rows@[i]@.len() by {
        assert(model[i] == rows@[i]@);
        assert((lines@[i].text@, lines@[i].width as nat) == (pixel_row(model[i]), model[i].len()));
    }
    LogoArtifact::TextLines(lines)
}

/// Encodes an image file's bytes (`None`: the file could not be read) for
/// the terminal described by `env`. Without the image codec (`codec` off)
/// nothing is attempted.
pub fn encode_image(bytes: &Option<Vec<u8>>, env: &TerminalEnv, codec: bool) -> (r: Result<LogoArtifact, ImageError>)
    requires
        bytes matches Some(b) ==> b@.len() <= usize::MAX / 2,
    ensures
        encodes(*bytes, *env, codec, image_result(r)),
        r matches Ok(LogoArtifact::TextLines(lines)) ==> 1 <= lines@.len() <= RASTER_CELLS_HIGH && forall|i: int|
            0 <= i < lines@.len() ==> 1 <= (#[trigger] lines@[i]).width <= RASTER_CELLS_WIDE,
{
    if !codec {
        return Err(ImageError::ImageSupportUnavailable);
    }
    let b = match bytes {
        Some(b) => b,
        None => {
            return Err(ImageError::ImageUnreadable);
        },
    };
    match select_protocol(env) {
        ImageProtocol::InlineFile => {
            let payload = base64_encode(b);
            let data = inline_blob(payload.as_str(), env.multiplexed);
            Ok(LogoArtifact::ProtocolBlob { data, cell_width: IMAGE_CELLS_WIDE, cell_height: IMAGE_CELLS_HIGH })
        },
        ImageProtocol::KittyGraphics => {
            let data = kitty_blob(b);
            Ok(LogoArtifact::ProtocolBlob { data, cell_width: IMAGE_CELLS_WIDE, cell_height: IMAGE_CELLS_HIGH })
        },
        ImageProtocol::BlockRaster => match thumbnail(b, RASTER_CELLS_WIDE, RASTER_CELLS_HIGH) {
            Some(rows) => {
                let art = render_raster(&rows);
                let ghost model = rows@.map_values(|row: Vec<(u8, u8, u8)>| row@);
                assert(forall|i: int| 0 <= i < rows@.len() ==> (#[trigger] rows@[i])@.len() == rows@[0]@.len());
                assert(rows_fit(model)) by {
                    assert forall|i: int| 0 <= i < model.len() implies (#[trigger] model[i]).len() == model[0].len() by {
                        assert(model[i] == rows@[i]@);
                    }
                }
                assert(image_result(Ok(art)) == Ok::<ArtView, ImageError>(raster_view(model)));
                Ok(art)
            },
            None => Err(ImageError::ImageFormatUnsupported),
        },
    }
}

} // verus!
