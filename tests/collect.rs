use rice::config::{default_config_toml, Config};
use rice::info::{cpu_summary, get_random_startup_message, FieldSource, InfoCollector};

fn s(x: &str) -> String {
    x.to_string()
}

#[test]
fn collect_all_keeps_answered_fields_in_order() {
    let c = InfoCollector::new(vec![s("os"), s("cpu"), s("wm")], vec![]);
    let got = c.collect_all(&vec![Some(s("Linux")), None, Some(s("i3"))]);
    assert_eq!(got, vec![(s("os"), s("Linux")), (s("wm"), s("i3"))]);
}

#[test]
fn custom_command_takes_precedence() {
    let c = InfoCollector::new(vec![], vec![(s("os"), s("uname -o")), (s("branch"), s("git branch"))]);
    assert_eq!(c.collect_field("os"), FieldSource::Command(s("uname -o")));
    assert_eq!(c.collect_field("branch"), FieldSource::Command(s("git branch")));
    assert_eq!(c.collect_field("colors"), FieldSource::Palette);
    assert_eq!(c.collect_field("de"), FieldSource::DesktopEnvironment);
    assert_eq!(c.collect_field("terminal_font"), FieldSource::Unknown);
}

#[test]
fn startup_message_by_seed() {
    assert_eq!(get_random_startup_message(0), "Scanning system information");
    assert_eq!(get_random_startup_message(19), "Establishing system baseline");
}

#[test]
fn cpu_summary_with_and_without_frequency() {
    assert_eq!(cpu_summary("CoreX", 4, 0), "CoreX (4 cores)");
    assert_eq!(cpu_summary("CoreX", 8, 3200), "CoreX (8 cores) @ 3200 MHz");
}

#[test]
fn defaults() {
    let c = Config::default();
    assert!(c.display.show_logo && c.display.color_values && !c.display.show_colors_label);
    assert_eq!(c.info.fields.len(), 16);
    assert_eq!(c.info.fields[0], "userhost");
    assert_eq!(c.display.field_colors[1], (s("os"), s("green")));
    assert!(default_config_toml().contains("[ascii_art]"));
}
