use rice::config::{AsciiArtSource, Config};
use rice::image::{encode_image, select_protocol, ImageProtocol, TerminalEnv};
use rice::logo::{
    art_for_os, detect_art, get_ascii_art, get_builtin_art, text_art, BuiltinArt, HostContext, ImageError, LogoArtifact,
    LogoError,
};

fn s(x: &str) -> String {
    x.to_string()
}

fn env(program: Option<&str>, term: Option<&str>, multiplexed: bool) -> TerminalEnv {
    TerminalEnv { term_program: program.map(s), term: term.map(s), multiplexed }
}

fn host(os: &str) -> HostContext {
    HostContext {
        os_name: s(os),
        art_file: None,
        image_file: None,
        terminal: env(None, None, false),
        image_codec: true,
    }
}

fn lines_of(a: &LogoArtifact) -> Vec<(String, usize)> {
    match a {
        LogoArtifact::TextLines(l) => l.iter().map(|x| (x.text.clone(), x.width)).collect(),
        LogoArtifact::ProtocolBlob { .. } => panic!("expected text lines"),
    }
}

fn blob_of(a: &LogoArtifact) -> (String, u32, u32) {
    match a {
        LogoArtifact::ProtocolBlob { data, cell_width, cell_height } => (data.clone(), *cell_width, *cell_height),
        LogoArtifact::TextLines(_) => panic!("expected a protocol blob"),
    }
}

#[test]
fn unknown_builtin_name_gives_default_art() {
    let mut config = Config::default();
    config.ascii_art.source = AsciiArtSource::Builtin;
    config.ascii_art.builtin = Some(s("no-such-art"));
    let unknown = get_ascii_art(&config, &host("x")).unwrap();
    config.ascii_art.builtin = Some(s("default"));
    let default = get_ascii_art(&config, &host("x")).unwrap();
    assert_eq!(lines_of(&unknown), lines_of(&default));
    assert_eq!(lines_of(&get_builtin_art("nope")), lines_of(&default));
}

#[test]
fn ubuntu_detected_before_linux() {
    let mut config = Config::default();
    config.ascii_art.auto_detect = true;
    let got = get_ascii_art(&config, &host("Ubuntu 22.04 Linux")).unwrap();
    assert_eq!(lines_of(&got), lines_of(&get_builtin_art("ubuntu")));
    assert_eq!(detect_art("Ubuntu 22.04"), BuiltinArt::Ubuntu);
}

#[test]
fn ubuntu_2204_exactly() {
    let mut config = Config::default();
    config.ascii_art.auto_detect = true;
    let got = get_ascii_art(&config, &host("Ubuntu 22.04")).unwrap();
    assert_eq!(lines_of(&got), lines_of(&get_builtin_art("ubuntu")));
    assert_eq!(detect_art("\u{dc}BUNTU"), BuiltinArt::Default);
    assert_eq!(detect_art("\u{c9}cole UBUNTU"), BuiltinArt::Ubuntu);
}

#[test]
fn art_widths_skip_escape_sequences() {
    let art = text_art("\x1b[31mab\x1b[0m\nxyz\n\x1b[1;92m\x1b[0m");
    assert_eq!(
        lines_of(&art).iter().map(|(_, w)| *w).collect::<Vec<_>>(),
        vec![2, 3, 0]
    );
    let art = text_art("\u{ff21}\u{ff22}x\na\u{300}");
    assert_eq!(lines_of(&art).iter().map(|(_, w)| *w).collect::<Vec<_>>(), vec![5, 1]);
}

#[test]
fn os_keywords_in_priority_order() {
    assert_eq!(detect_art("Darwin"), BuiltinArt::MacOs);
    assert_eq!(detect_art("MacOS Sonoma"), BuiltinArt::MacOs);
    assert_eq!(detect_art("Arch Linux"), BuiltinArt::Arch);
    assert_eq!(detect_art("Debian GNU/Linux"), BuiltinArt::Debian);
    assert_eq!(detect_art("Fedora Linux"), BuiltinArt::Fedora);
    assert_eq!(detect_art("Gentoo Linux"), BuiltinArt::Linux);
    assert_eq!(detect_art("FreeBSD"), BuiltinArt::Default);
    // Matching is on the lower-cased name only.
    assert_eq!(art_for_os("UBUNTU"), BuiltinArt::Default);
    assert_eq!(detect_art("UBUNTU"), BuiltinArt::Ubuntu);
}

#[test]
fn auto_without_detection_is_default() {
    let config = Config::default();
    let got = get_ascii_art(&config, &host("Ubuntu")).unwrap();
    assert_eq!(lines_of(&got), lines_of(&get_builtin_art("default")));
}

#[test]
fn disabled_source_gives_no_lines() {
    let mut config = Config::default();
    config.ascii_art.source = AsciiArtSource::Disabled;
    assert!(lines_of(&get_ascii_art(&config, &host("x")).unwrap()).is_empty());
}

#[test]
fn art_file_lines_and_widths() {
    let art = text_art("ab\n\u{e9}\u{e9}\u{e9}\n\nx\n");
    assert_eq!(lines_of(&art), vec![(s("ab"), 2), (s("\u{e9}\u{e9}\u{e9}"), 3), (s(""), 0), (s("x"), 1)]);
    assert!(lines_of(&text_art("")).is_empty());
}

#[test]
fn file_source_reads_or_fails() {
    let mut config = Config::default();
    config.ascii_art.source = AsciiArtSource::File;
    let mut h = host("x");
    // No path configured: default art.
    let got = get_ascii_art(&config, &h).unwrap();
    assert_eq!(lines_of(&got), lines_of(&get_builtin_art("default")));
    config.ascii_art.path = Some(s("/art.txt"));
    assert_eq!(get_ascii_art(&config, &h).unwrap_err(), LogoError::ArtFileUnreadable);
    h.art_file = Some(s("<>\n[]"));
    assert_eq!(lines_of(&get_ascii_art(&config, &h).unwrap()), vec![(s("<>"), 2), (s("[]"), 2)]);
}

#[test]
fn protocol_priority() {
    assert_eq!(select_protocol(&env(Some("iTerm.app"), Some("xterm-kitty"), false)), ImageProtocol::InlineFile);
    assert_eq!(select_protocol(&env(Some("Apple_Terminal"), Some("xterm-kitty"), false)), ImageProtocol::KittyGraphics);
    assert_eq!(select_protocol(&env(None, Some("xterm-256color"), false)), ImageProtocol::BlockRaster);
    assert_eq!(select_protocol(&env(None, None, false)), ImageProtocol::BlockRaster);
}

#[test]
fn inline_image_escape() {
    let bytes = Some(b"abc".to_vec());
    let got = encode_image(&bytes, &env(Some("iTerm.app"), None, false), true).unwrap();
    assert_eq!(
        blob_of(&got),
        (s("\x1b]1337;File=width=30;height=15;inline=1;preserveAspectRatio=1:YWJj\x07"), 30, 15)
    );
    let got = encode_image(&bytes, &env(Some("iTerm.app"), None, true), true).unwrap();
    assert_eq!(
        blob_of(&got).0,
        "\x1bPtmux;\x1b\x1b]1337;File=width=30;height=15;inline=1;preserveAspectRatio=1:YWJj\x07\x1b\\"
    );
}

#[test]
fn kitty_image_escape() {
    let bytes = Some(b"abcd".to_vec());
    let got = encode_image(&bytes, &env(None, Some("xterm-kitty"), false), true).unwrap();
    assert_eq!(blob_of(&got), (s("\x1b_Ga=T,f=100,S=4,m=0;YWJjZA==\x1b\\"), 30, 15));
    let got = encode_image(&Some(vec![]), &env(None, Some("xterm-kitty"), false), true).unwrap();
    assert_eq!(blob_of(&got).0, "\x1b_Ga=T,f=100,S=0,m=0;\x1b\\");
}

#[test]
fn kitty_image_is_sent_in_chunks() {
    let kitty = env(None, Some("xterm-kitty"), false);
    let got = encode_image(&Some(vec![0u8; 3073]), &kitty, true).unwrap();
    let expected = format!("\x1b_Ga=T,f=100,S=3073,m=1;{}\x1b\\\x1b_Gm=0;AA==\x1b\\", "A".repeat(4096));
    assert_eq!(blob_of(&got).0, expected);
    let got = encode_image(&Some(vec![0u8; 6144]), &kitty, true).unwrap();
    let expected = format!(
        "\x1b_Ga=T,f=100,S=6144,m=1;{}\x1b\\\x1b_Gm=0;{}\x1b\\",
        "A".repeat(4096),
        "A".repeat(4096)
    );
    assert_eq!(blob_of(&got).0, expected);
    assert!(blob_of(&got).0.ends_with("\x1b\\"));
}

#[test]
fn image_errors() {
    let e = env(None, None, false);
    let bytes = Some(b"not an image".to_vec());
    assert_eq!(encode_image(&bytes, &e, false).unwrap_err(), ImageError::ImageSupportUnavailable);
    assert_eq!(encode_image(&None, &e, true).unwrap_err(), ImageError::ImageUnreadable);
    assert_eq!(encode_image(&bytes, &e, true).unwrap_err(), ImageError::ImageFormatUnsupported);
    let mut config = Config::default();
    config.ascii_art.source = AsciiArtSource::Image;
    config.ascii_art.path = Some(s("/img.png"));
    let mut h = host("x");
    h.image_codec = false;
    assert_eq!(
        get_ascii_art(&config, &h).unwrap_err(),
        LogoError::Image(ImageError::ImageSupportUnavailable)
    );
}

#[test]
fn block_raster_of_a_png() {
    let mut img = image::RgbImage::new(2, 1);
    img.put_pixel(0, 0, image::Rgb([255, 0, 0]));
    img.put_pixel(1, 0, image::Rgb([0, 0, 255]));
    let mut png = std::io::Cursor::new(Vec::new());
    image::DynamicImage::ImageRgb8(img).write_to(&mut png, image::ImageFormat::Png).unwrap();
    let got = encode_image(&Some(png.into_inner()), &env(None, None, false), true).unwrap();
    let lines = lines_of(&got);
    assert!(!lines.is_empty() && lines.len() <= 15);
    assert!(lines.iter().all(|(_, w)| *w == lines[0].1));
    for (text, width) in &lines {
        assert!(*width >= 1 && *width <= 29);
        assert_eq!(text.matches('\u{2593}').count(), *width);
        assert!(text.starts_with("\x1b[38;2;"));
    }
}
