//! Logos: built-in art, art files, images, and which one a configuration picks.
use vstd::prelude::*;
use crate::config::{AsciiArtConfig, AsciiArtSource, Config};
use crate::image::{encode_image, encodes, TerminalEnv};
use crate::text::{push_char, contains_text, display_width_capped, display_width_of, has_infix, lines_of, same_text, split_pieces};

verus! {

/// One line of text art and the number of terminal columns it takes.
#[derive(Clone, Debug)]
pub struct LogoLine {
    pub text: String,
    pub width: usize,
}

/// A resolved logo.
#[derive(Clone, Debug)]
pub enum LogoArtifact {
    /// Lines of text art; only color sequences appear inside them.
    TextLines(Vec<LogoLine>),
    /// A terminal image command, written as one piece, that draws itself over
    /// `cell_width` x `cell_height` cells.
    ProtocolBlob { data: String, cell_width: u32, cell_height: u32 },
}

/// Model of a logo: lines with their widths, or a command with its cell size.
pub enum ArtView {
    Lines(Seq<(Seq<char>, nat)>),
    Blob(Seq<char>, nat, nat),
}

impl View for LogoArtifact {
    type V = ArtView;

    open spec fn view(&self) -> ArtView {
        match self {
            LogoArtifact::TextLines(lines) => ArtView::Lines(
                lines@.map_values(|l: LogoLine| (l.text@, l.width as nat)),
            ),
            LogoArtifact::ProtocolBlob { data, cell_width, cell_height } => ArtView::Blob(
                data@,
                *cell_width as nat,
                *cell_height as nat,
            ),
        }
    }
}

/// Why an image could not become a logo.
#[derive(Clone, Copy, Debug, PartialEq, Eq, Structural)]
pub enum ImageError {
    /// The image file could not be read.
    ImageUnreadable,
    /// The bytes are no image format the decoder knows.
    ImageFormatUnsupported,
    /// The image codec is not available in this build.
    ImageSupportUnavailable,
}

/// Why no logo could be produced.
#[derive(Clone, Copy, Debug, PartialEq, Eq, Structural)]
pub enum LogoError {
    /// No built-in art, not even the default one.
    NoBuiltinArt,
    /// The art file could not be read as text.
    ArtFileUnreadable,
    /// The image could not be encoded.
    Image(ImageError),
}

/// The built-in art.
#[derive(Clone, Copy, Debug, PartialEq, Eq, Structural)]
pub enum BuiltinArt {
    Default,
    MacOs,
    Linux,
    Ubuntu,
    Arch,
    Debian,
    Fedora,
}

pub const DEFAULT_ART: &'static str = "    .--------.
   / .------. \\
  / /        \\ \\
  | |  rice  | |
  \\ \\        / /
   \\ '------' /
    '--------'
";

pub const MACOS_ART: &'static str = "        .:'
    __ :'__
 .'`  `-'  ``.
:          .-'
:         :
 :         `-;
  `.__.-.__.'
";

pub const LINUX_ART: &'static str = "    .--.
   |o_o |
   |:_/ |
  //   \\ \\
 (|     | )
/'\\_   _/`\\
\\___)=(___/
";

pub const UBUNTU_ART: &'static str = "         _
     ---(_)
 _/  ---  \\
(_) |   |
  \\  --- _/
     ---(_)
";

pub const ARCH_ART: &'static str = "       /\\
      /  \\
     /\\   \\
    /      \\
   /   ,,   \\
  /   |  |  -\\
 /_-''    ''-_\\
";

pub const DEBIAN_ART: &'static str = "  _____
 /  __ \\
|  /    |
|  \\___-
-_
  --_
";

pub const FEDORA_ART: &'static str = "      _____
     /   __)\\
     |  /  \\ \\
  ___|  |__/ /
 / (_    _)_/
/ /  |  |
\\ \\__/  |
 \\(_____/
";

/// Text of a built-in art.
pub open spec fn art_text(a: BuiltinArt) -> Seq<char> {
    match a {
        BuiltinArt::Default => DEFAULT_ART@,
        BuiltinArt::MacOs => MACOS_ART@,
        BuiltinArt::Linux => LINUX_ART@,
        BuiltinArt::Ubuntu => UBUNTU_ART@,
        BuiltinArt::Arch => ARCH_ART@,
        BuiltinArt::Debian => DEBIAN_ART@,
        BuiltinArt::Fedora => FEDORA_ART@,
    }
}

/// The built-in art of a given name.
pub open spec fn builtin_named(name: Seq<char>) -> Option<BuiltinArt> {
    if name == "default"@ {
        Some(BuiltinArt::Default)
    } else if name == "macos"@ {
        Some(BuiltinArt::MacOs)
    } else if name == "linux"@ {
        Some(BuiltinArt::Linux)
    } else if name == "ubuntu"@ {
        Some(BuiltinArt::Ubuntu)
    } else if name == "arch"@ {
        Some(BuiltinArt::Arch)
    } else if name == "debian"@ {
        Some(BuiltinArt::Debian)
    } else if name == "fedora"@ {
        Some(BuiltinArt::Fedora)
    } else {
        None
    }
}

/// The built-in art of a name, the default art for a name it does not know.
pub open spec fn builtin_or_default(name: Seq<char>) -> BuiltinArt {
    match builtin_named(name) {
        Some(a) => a,
        None => BuiltinArt::Default,
    }
}

/// Art for a lower-cased OS name: the first keyword found, in priority order.
pub open spec fn os_art(lowered: Seq<char>) -> BuiltinArt {
    if has_infix(lowered, "mac"@) || has_infix(lowered, "darwin"@) {
        BuiltinArt::MacOs
    } else if has_infix(lowered, "ubuntu"@) {
        BuiltinArt::Ubuntu
    } else if has_infix(lowered, "arch"@) {
        BuiltinArt::Arch
    } else if has_infix(lowered, "debian"@) {
        BuiltinArt::Debian
    } else if has_infix(lowered, "fedora"@) {
        BuiltinArt::Fedora
    } else if has_infix(lowered, "linux"@) {
        BuiltinArt::Linux
    } else {
        BuiltinArt::Default
    }
}

/// Lines of a text, each with the terminal columns it takes.
pub open spec fn text_view(s: Seq<char>) -> ArtView {
    ArtView::Lines(lines_of(s).map_values(|l: Seq<char>| (l, display_width_capped(l))))
}

/// Model of a built-in art.
pub open spec fn builtin_view(a: BuiltinArt) -> ArtView {
    text_view(art_text(a))
}

/// The source text of a built-in art.
pub fn art_source(a: BuiltinArt) -> (r: &'static str)
    ensures
        r@ == art_text(a),
{
    match a {
        BuiltinArt::Default => DEFAULT_ART,
        BuiltinArt::MacOs => MACOS_ART,
        BuiltinArt::Linux => LINUX_ART,
        BuiltinArt::Ubuntu => UBUNTU_ART,
        BuiltinArt::Arch => ARCH_ART,
        BuiltinArt::Debian => DEBIAN_ART,
        BuiltinArt::Fedora => FEDORA_ART,
    }
}

/// Looks up a built-in art by name.
pub fn builtin_from_name(name: &str) -> (r: Option<BuiltinArt>)
    ensures
        r == builtin_named(name@),
{
    if same_text(name, "default") {
        Some(BuiltinArt::Default)
    } else if same_text(name, "macos") {
        Some(BuiltinArt::MacOs)
    } else if same_text(name, "linux") {
        Some(BuiltinArt::Linux)
    } else if same_text(name, "ubuntu") {
        Some(BuiltinArt::Ubuntu)
    } else if same_text(name, "arch") {
        Some(BuiltinArt::Arch)
    } else if same_text(name, "debian") {
        Some(BuiltinArt::Debian)
    } else if same_text(name, "fedora") {
        Some(BuiltinArt::Fedora)
    } else {
        None
    }
}

/// Picks the art for an OS name that is already lower-cased.
pub fn art_for_os(lowered: &str) -> (r: BuiltinArt)
    ensures
        r == os_art(lowered@),
{
    if contains_text(lowered, "mac") || contains_text(lowered, "darwin") {
        BuiltinArt::MacOs
    } else if contains_text(lowered, "ubuntu") {
        BuiltinArt::Ubuntu
    } else if contains_text(lowered, "arch") {
        BuiltinArt::Arch
    } else if contains_text(lowered, "debian") {
        BuiltinArt::Debian
    } else if contains_text(lowered, "fedora") {
        BuiltinArt::Fedora
    } else if contains_text(lowered, "linux") {
        BuiltinArt::Linux
    } else {
        BuiltinArt::Default
    }
}

/// Lower-case form of a text, as Unicode defines it.
pub uninterp spec fn lower_of(s: Seq<char>) -> Seq<char>;

/// Relies on `str::to_lowercase`: the Unicode lower-case mapping of each
/// character, which depends on the text alone.
#[verifier::external_body]
fn lowercase(s: &str) -> (r: String)
    ensures
        r@ == lower_of(s@),
{
    s.to_lowercase()
}

/// `s` holds ASCII characters only.
pub open spec fn all_ascii(s: Seq<char>) -> bool {
    forall|i: int| 0 <= i < s.len() ==> (s[i] as u32) < 128
}

/// ASCII lower-case form of a character.
pub open spec fn ascii_lower(c: char) -> char {
    if 'A' <= c && c <= 'Z' {
        ((c as u8) + 32) as char
    } else {
        c
    }
}

/// The lower-cased OS name that detection matches on: ASCII letters mapped
/// one by one for an ASCII name, the Unicode lower-case form otherwise.
pub open spec fn os_key(name: Seq<char>) -> Seq<char> {
    if all_ascii(name) {
        name.map_values(|c: char| ascii_lower(c))
    } else {
        lower_of(name)
    }
}

fn ascii_lower_char(c: char) -> (r: char)
    ensures
        r == ascii_lower(c),
{
    if 'A' <= c && c <= 'Z' {
        ((c as u8) + 32) as char
    } else {
        c
    }
}

/// Lower-cases `s`; for an ASCII text, ASCII letters one by one (which is
/// what the Unicode mapping does on them).
fn os_key_of(s: &str) -> (r: String)
    ensures
        r@ == os_key(s@),
{
    let n = s.unicode_len();
    let mut out = String::new();
    let mut i: usize = 0;
    while i < n
        invariant
            n == s@.len(),
            i <= n,
            all_ascii(s@.subrange(0, i as int)),
            out@ == s@.subrange(0, i as int).map_values(|c: char| ascii_lower(c)),
        decreases n - i,
    {
        let c = s.get_char(i);
        if (c as u32) >= 128 {
            return lowercase(s);
        }
        push_char(&mut out, ascii_lower_char(c));
        i = i + 1;
        assert(out@ =~= s@.subrange(0, i as int).map_values(|c: char| ascii_lower(c)));
    }
    assert(s@.subrange(0, n as int) =~= s@);
    out
}

/// Picks the art for an OS name as the host reports it, in any case.
pub fn detect_art(os_name: &str) -> (r: BuiltinArt)
    ensures
        r == os_art(os_key(os_name@)),
{
    let lowered = os_key_of(os_name);
    art_for_os(lowered.as_str())
}

/// Splits a text into logo lines, each with the terminal columns it takes.
pub fn text_art(s: &str) -> (r: LogoArtifact)
    ensures
        r@ == text_view(s@),
{
    let pieces = split_pieces(s, true);
    let ghost model = lines_of(s@);
    let mut lines: Vec<LogoLine> = Vec::new();
    let mut i: usize = 0;
    while i < pieces.len()
        invariant
            i <= pieces@.len(),
            pieces@.len() == model.len(),
            forall|j: int| 0 <= j < pieces@.len() ==> #[trigger] pieces@[j]@ == model[j],
            lines@.len() == i,
            forall|k: int| 0 <= k < i ==> (#[trigger] lines@[k].text@, lines@[k].width as nat) == (model[k], display_width_capped(model[k])),
        decreases pieces@.len() - i,
    {
        let text = pieces[i].clone();
        let width = display_width_of(text.as_str());
        lines.push(LogoLine { text, width });
        i = i + 1;
    }
    assert(lines@.map_values(|l: LogoLine| (l.text@, l.width as nat)) =~= model.map_values(
        |l: Seq<char>| (l, display_width_capped(l)),
    ));
    LogoArtifact::TextLines(lines)
}

/// A built-in art as logo lines.
pub fn builtin_art(a: BuiltinArt) -> (r: LogoArtifact)
    ensures
        r@ == builtin_view(a),
{
    text_art(art_source(a))
}

/// The built-in art of a name; an unknown name gives the default art.
pub fn get_builtin_art(name: &str) -> (r: LogoArtifact)
    ensures
        r@ == builtin_view(builtin_or_default(name@)),
{
    match builtin_from_name(name) {
        Some(a) => builtin_art(a),
        None => builtin_art(BuiltinArt::Default),
    }
}

/// What the host supplies for resolving a logo: facts and file contents that
/// only I/O can obtain.
#[derive(Clone, Debug)]
pub struct HostContext {
    /// The host's OS name as reported, in any case.
    pub os_name: String,
    /// Contents of the configured art file, `None` where it could not be read.
    pub art_file: Option<String>,
    /// Bytes of the configured image file, `None` where it could not be read.
    pub image_file: Option<Vec<u8>>,
    pub terminal: TerminalEnv,
    /// Whether the image codec is available.
    pub image_codec: bool,
}

/// `host` fits in memory as the machine allows.
pub open spec fn host_fits(host: HostContext) -> bool {
    host.image_file matches Some(b) ==> b@.len() <= usize::MAX / 2
}

/// `r` is a logo that a configuration may resolve to: exactly one for every
/// source but an image file, whose block rendering is fixed only up to its
/// pixel colours (see `encodes`).
pub open spec fn resolves(cfg: AsciiArtConfig, host: HostContext, r: Result<ArtView, LogoError>) -> bool {
    match cfg.source {
        AsciiArtSource::Disabled => r == Ok::<ArtView, LogoError>(ArtView::Lines(seq![])),
        AsciiArtSource::Auto => r == Ok::<ArtView, LogoError>(
            if cfg.auto_detect {
                builtin_view(os_art(os_key(host.os_name@)))
            } else {
                builtin_view(BuiltinArt::Default)
            },
        ),
        AsciiArtSource::Builtin => r == Ok::<ArtView, LogoError>(
            match cfg.builtin {
                Some(n) => builtin_view(builtin_or_default(n@)),
                None => builtin_view(BuiltinArt::Default),
            },
        ),
        AsciiArtSource::File => r == match cfg.path {
            None => Ok(builtin_view(BuiltinArt::Default)),
            Some(_) => match host.art_file {
                Some(t) => Ok(text_view(t@)),
                None => Err(LogoError::ArtFileUnreadable),
            },
        },
        AsciiArtSource::Image => match cfg.path {
            None => r == Ok::<ArtView, LogoError>(builtin_view(BuiltinArt::Default)),
            Some(_) => match r {
                Ok(v) => encodes(host.image_file, host.terminal, host.image_codec, Ok(v)),
                Err(LogoError::Image(e)) => encodes(host.image_file, host.terminal, host.image_codec, Err(e)),
                Err(_) => false,
            },
        },
    }
}

/// Model of a resolution result.
pub open spec fn art_result(r: Result<LogoArtifact, LogoError>) -> Result<ArtView, LogoError> {
    match r {
        Ok(a) => Ok(a@),
        Err(e) => Err(e),
    }
}

/// Resolves the logo that `config` asks for.
pub fn get_ascii_art(config: &Config, host: &HostContext) -> (r: Result<LogoArtifact, LogoError>)
    requires
        host_fits(*host),
    ensures
        resolves(config.ascii_art, *host, art_result(r)),
{
    let cfg = &config.ascii_art;
    match cfg.source {
        AsciiArtSource::Disabled => {
            let lines: Vec<LogoLine> = Vec::new();
            assert(lines@.map_values(|l: LogoLine| (l.text@, l.width as nat)) =~= seq![]);
            Ok(LogoArtifact::TextLines(lines))
        },
        AsciiArtSource::Auto => {
            if cfg.auto_detect {
                Ok(builtin_art(detect_art(host.os_name.as_str())))
            } else {
                Ok(builtin_art(BuiltinArt::Default))
            }
        },
        AsciiArtSource::Builtin => match &cfg.builtin {
            Some(n) => Ok(get_builtin_art(n.as_str())),
            None => Ok(builtin_art(BuiltinArt::Default)),
        },
        AsciiArtSource::File => match &cfg.path {
            None => Ok(builtin_art(BuiltinArt::Default)),
            Some(_) => match &host.art_file {
                Some(t) => Ok(text_art(t.as_str())),
                None => Err(LogoError::ArtFileUnreadable),
            },
        },
        AsciiArtSource::Image => match &cfg.path {
            None => Ok(builtin_art(BuiltinArt::Default)),
            Some(_) => {
                let r = encode_image(&host.image_file, &host.terminal, host.image_codec);
                match r {
                    Ok(a) => Ok(a),
                    Err(e) => Err(LogoError::Image(e)),
                }
            },
        },
    }
}

/// An unknown built-in name resolves, without failing, to exactly what the
/// name "default" resolves to.
pub proof fn unknown_builtin_resolves_as_default(
    cfg: AsciiArtConfig,
    host: HostContext,
    other: AsciiArtConfig,
    r: Result<ArtView, LogoError>,
)
    requires
        cfg.source == AsciiArtSource::Builtin,
        cfg.builtin matches Some(n) && builtin_named(n@) is None,
        other.source == AsciiArtSource::Builtin,
        other.builtin matches Some(d) && d@ == "default"@,
    ensures
        resolves(cfg, host, r) ==> r is Ok,
        resolves(cfg, host, r) <==> resolves(other, host, r),
{
}

/// On auto-detection, an OS name holding "ubuntu" (and neither "mac" nor
/// "darwin", which come first) selects the Ubuntu art, not the generic Linux
/// art or the default one.
pub proof fn ubuntu_detected_before_linux(cfg: AsciiArtConfig, host: HostContext, r: Result<ArtView, LogoError>)
    requires
        cfg.source == AsciiArtSource::Auto,
        cfg.auto_detect,
        has_infix(os_key(host.os_name@), "ubuntu"@),
        !has_infix(os_key(host.os_name@), "mac"@),
        !has_infix(os_key(host.os_name@), "darwin"@),
    ensures
        resolves(cfg, host, r) <==> r == Ok::<ArtView, LogoError>(builtin_view(BuiltinArt::Ubuntu)),
{
}

/// Auto-detection on the host name "Ubuntu 22.04" selects the Ubuntu art,
/// not the generic Linux art or the default one.
pub proof fn ubuntu_2204_selects_ubuntu_art(cfg: AsciiArtConfig, host: HostContext, r: Result<ArtView, LogoError>)
    requires
        cfg.source == AsciiArtSource::Auto,
        cfg.auto_detect,
        host.os_name@ == "Ubuntu 22.04"@,
    ensures
        resolves(cfg, host, r) <==> r == Ok::<ArtView, LogoError>(builtin_view(BuiltinArt::Ubuntu)),
{
    reveal_strlit("Ubuntu 22.04");
    reveal_strlit("ubuntu");
    reveal_strlit("mac");
    reveal_strlit("darwin");
    let name = host.os_name@;
    assert(all_ascii(name));
    let key = os_key(name);
    let want = seq!['u', 'b', 'u', 'n', 't', 'u', ' ', '2', '2', '.', '0', '4'];
    assert(key =~= want);
    assert(key.subrange(0int, 0int + "ubuntu"@.len()) =~= "ubuntu"@);
    assert(has_infix(key, "ubuntu"@));
    assert forall|i: int| 0 <= i <= key.len() - "mac"@.len() implies #[trigger] key.subrange(i, i + "mac"@.len()) != "mac"@ by {
        assert(key.subrange(i, i + 3)[0] == key[i]);
        assert(key[i] != 'm');
    }
    assert forall|i: int| 0 <= i <= key.len() - "darwin"@.len() implies #[trigger] key.subrange(i, i + "darwin"@.len()) != "darwin"@ by {
        assert(key.subrange(i, i + 6)[0] == key[i]);
        assert(key[i] != 'd');
    }
}

} // verus!
