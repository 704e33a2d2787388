use rice::color::{color_from_name, colorize, palette_blocks, AnsiColor};
use rice::config::{AsciiArtSource, Config};
use rice::image::TerminalEnv;
use rice::layout::{compose, compose_blob, compose_text, get_field_label, join_lines, render_info_lines, Display};
use rice::logo::{HostContext, LogoArtifact, LogoLine};

fn s(x: &str) -> String {
    x.to_string()
}

fn pairs(items: &[(&str, &str)]) -> Vec<(String, String)> {
    items.iter().map(|(k, v)| (s(k), s(v))).collect()
}

fn quiet_host() -> HostContext {
    HostContext {
        os_name: s("TestOS"),
        art_file: None,
        image_file: None,
        terminal: TerminalEnv { term_program: None, term: None, multiplexed: false },
        image_codec: false,
    }
}

fn plain_config(fields: &[&str]) -> Config {
    let mut config = Config::default();
    config.display.show_logo = false;
    config.display.color_values = false;
    config.info.fields = fields.iter().map(|f| s(f)).collect();
    config
}

#[test]
fn end_to_end_without_logo_or_color() {
    let config = plain_config(&["userhost", "os", "cpu"]);
    let info = pairs(&[("userhost", "alice@box"), ("os", "TestOS 1.0"), ("cpu", "CoreX (4 cores)")]);
    let expected = "alice@box\n---------\nOS: TestOS 1.0\nCPU: CoreX (4 cores)";
    let display = Display::new(config);
    assert_eq!(display.render(&info, &quiet_host(), false).unwrap(), expected);
    // With colorizing off the info block is plain even on a styling terminal.
    assert_eq!(display.render(&info, &quiet_host(), true).unwrap(), expected);
}

#[test]
fn no_logo_output_is_the_info_block() {
    let config = plain_config(&["os", "kernel", "uptime"]);
    let info = pairs(&[("os", "TestOS"), ("kernel", "6.1"), ("uptime", "5m")]);
    let lines = render_info_lines(&config.info.fields, &info, &config.display, true);
    let out = Display::new(config).render(&info, &quiet_host(), true).unwrap();
    assert_eq!(out, join_lines(&lines));
    assert!(!out.contains("\x1b[94m"));
}

#[test]
fn text_layout_row_count_is_the_longer_block() {
    let mut config = plain_config(&["os", "cpu", "memory"]);
    config.display.show_logo = true;
    config.ascii_art.source = AsciiArtSource::Builtin;
    config.ascii_art.builtin = Some(s("arch"));
    let info = pairs(&[("os", "A"), ("cpu", "B"), ("memory", "C")]);
    let out = Display::new(config).render(&info, &quiet_host(), false).unwrap();
    let art_lines = rice::logo::ARCH_ART.lines().count();
    assert_eq!(out.split('\n').count(), art_lines.max(3));
    assert!(out.split('\n').next().unwrap().ends_with("OS: A"));
}

#[test]
fn text_rows_pad_the_logo_column() {
    let logo = vec![
        LogoLine { text: s("ab"), width: 2 },
        LogoLine { text: s("abcd"), width: 4 },
        LogoLine { text: s("x"), width: 1 },
    ];
    let info = vec![s("one"), s("two")];
    assert_eq!(compose_text(&logo, &info, false), "ab    one\nabcd  two\nx");
    let styled = compose_text(&logo, &vec![s("one")], true);
    assert_eq!(styled, "\x1b[94mab\x1b[0m    one\n\x1b[94mabcd\x1b[0m\n\x1b[94mx\x1b[0m");
}

#[test]
fn text_rows_continue_past_the_logo() {
    let logo = vec![LogoLine { text: s("ab"), width: 2 }];
    let info = vec![s("one"), s("two")];
    assert_eq!(compose_text(&logo, &info, false), "ab  one\n    two");
    assert_eq!(compose_text(&vec![], &info, false), "  one\n  two");
}

#[test]
fn blob_layout_positions_text_beside_the_image() {
    let info = vec![s("l1"), s("l2")];
    let out = compose_blob("IMG \u{a0}\u{3000}\n", 30, 15, &info);
    assert_eq!(out, "IMG\x1b[15A\x1b[35Cl1\n\x1b[35Cl2\n\x1b[13B");
    let logo = LogoArtifact::ProtocolBlob { data: s("IMG"), cell_width: 2, cell_height: 1 };
    assert_eq!(compose(&logo, &info, true), "IMG\x1b[1A\x1b[7Cl1\n\x1b[7Cl2\n");
}

#[test]
fn colorize_disabled_returns_the_value() {
    let table = pairs(&[("os", "green")]);
    assert_eq!(colorize("os", "Linux", &table, false), "Linux");
    assert_eq!(colorize("anything", "", &table, false), "");
}

#[test]
fn colorize_uses_table_then_white() {
    let table = pairs(&[("os", "green"), ("cpu", "no_such_color"), ("os", "bright_red")]);
    assert_eq!(colorize("os", "Linux", &table, true), "\x1b[91mLinux\x1b[0m");
    assert_eq!(colorize("cpu", "X", &table, true), "\x1b[37mX\x1b[0m");
    assert_eq!(colorize("disk", "D", &table, true), "\x1b[37mD\x1b[0m");
    assert_eq!(colorize("colors", "P", &table, true), "P");
}

#[test]
fn color_names_cover_sixteen_colors() {
    assert_eq!(color_from_name("black"), AnsiColor::Black);
    assert_eq!(color_from_name("bright_white"), AnsiColor::BrightWhite);
    assert_eq!(color_from_name("bright_cyan"), AnsiColor::BrightCyan);
    assert_eq!(color_from_name("Red"), AnsiColor::White);
}

#[test]
fn labels_fixed_and_custom() {
    assert_eq!(get_field_label("os"), "OS");
    assert_eq!(get_field_label("de"), "DE");
    assert_eq!(get_field_label("git_branch"), "Git branch");
    assert_eq!(get_field_label("\u{e9}t\u{e9}"), "\u{c9}t\u{e9}");
    assert_eq!(get_field_label(""), "");
}

#[test]
fn styled_info_block() {
    let mut config = Config::default();
    config.info.fields = vec![s("userhost"), s("os")];
    let info = pairs(&[("userhost", "a@b"), ("os", "X")]);
    let lines = render_info_lines(&config.info.fields, &info, &config.display, true);
    assert_eq!(
        lines,
        vec![
            s("\x1b[1;92ma@b\x1b[0m"),
            s("\x1b[2m---\x1b[0m"),
            s("\x1b[1;36mOS\x1b[0m\x1b[2m:\x1b[0m \x1b[32mX\x1b[0m"),
        ]
    );
}

#[test]
fn palette_field_without_label_spans_two_lines() {
    let config = plain_config(&["colors", "os"]);
    let palette = palette_blocks(false);
    let info = vec![(s("colors"), palette.clone()), (s("os"), s("X"))];
    let lines = render_info_lines(&config.info.fields, &info, &config.display, false);
    let block = "\u{2588}\u{2588}\u{2588}".repeat(8);
    assert_eq!(lines, vec![block.clone(), block, s("OS: X")]);
    let mut labelled = config.display.clone();
    labelled.show_colors_label = true;
    let lines = render_info_lines(&config.info.fields, &info, &labelled, false);
    assert!(lines[0].starts_with("Colors: "));
    assert_eq!(lines.len(), 3);
}

#[test]
fn missing_fields_are_skipped() {
    let config = plain_config(&["os", "cpu", "wm"]);
    let info = pairs(&[("cpu", "C")]);
    let lines = render_info_lines(&config.info.fields, &info, &config.display, false);
    assert_eq!(lines, vec![s("CPU: C")]);
}

#[test]
fn palette_blocks_styled() {
    let p = palette_blocks(true);
    assert!(p.starts_with("\x1b[40;30m\u{2588}\u{2588}\u{2588}\x1b[0m\x1b[41;31m"));
    assert!(p.ends_with("\x1b[107;97m\u{2588}\u{2588}\u{2588}\x1b[0m"));
    assert_eq!(p.split('\n').count(), 2);
}

#[test]
fn header_rule_matches_display_width() {
    let config = plain_config(&["userhost"]);
    let info = pairs(&[("userhost", "\u{e9}l\u{e8}ve@box")]);
    let lines = render_info_lines(&config.info.fields, &info, &config.display, false);
    assert_eq!(lines, vec![s("\u{e9}l\u{e8}ve@box"), s("---------")]);
}

#[test]
fn style_is_restored_after_inner_reset() {
    let table = pairs(&[("os", "green")]);
    assert_eq!(
        colorize("os", "a\x1b[0mb\x1b[0m", &table, true),
        "\x1b[32ma\x1b[0m\x1b[32mb\x1b[0m\x1b[32m\x1b[0m"
    );
}

#[test]
fn header_rule_counts_wide_and_combining_columns() {
    let config = plain_config(&["userhost"]);
    let info = pairs(&[("userhost", "\u{65e5}\u{672c}@box")]);
    let lines = render_info_lines(&config.info.fields, &info, &config.display, false);
    assert_eq!(lines[1], "--------");
    let info = pairs(&[("userhost", "e\u{301}@b")]);
    let lines = render_info_lines(&config.info.fields, &info, &config.display, false);
    assert_eq!(lines[1], "---");
}
