//! Display configuration: which logo, which fields, which colors.
use vstd::prelude::*;
use crate::text::push_text;

verus! {

/// Where the logo comes from.
#[derive(Clone, Copy, Debug, PartialEq, Eq, Structural)]
pub enum AsciiArtSource {
    Auto,
    Builtin,
    File,
    Image,
    /// No logo at all.
    Disabled,
}

impl Default for AsciiArtSource {
    fn default() -> (r: Self)
        ensures
            r == AsciiArtSource::Auto,
    {
        AsciiArtSource::Auto
    }
}

/// Logo selection.
#[derive(Clone, Debug)]
pub struct AsciiArtConfig {
    pub source: AsciiArtSource,
    /// Art file or image file, for the `File` and `Image` sources.
    pub path: Option<String>,
    /// Built-in art name, for the `Builtin` source.
    pub builtin: Option<String>,
    /// For the `Auto` source: pick the art from the host's OS name.
    pub auto_detect: bool,
}

/// Toggles and the per-field color table.
#[derive(Clone, Debug)]
pub struct DisplayConfig {
    pub show_logo: bool,
    pub color_values: bool,
    pub show_colors_label: bool,
    pub disable_startup_message: bool,
    /// (field name, color name) pairs; the last pair for a field counts.
    pub field_colors: Vec<(String, String)>,
}

/// Which fields to show, in order, and the commands behind custom fields.
#[derive(Clone, Debug)]
pub struct InfoConfig {
    pub fields: Vec<String>,
    /// (field name, shell command) pairs.
    pub custom_commands: Vec<(String, String)>,
}

/// The whole configuration.
#[derive(Clone, Debug)]
pub struct Config {
    pub display: DisplayConfig,
    pub info: InfoConfig,
    pub ascii_art: AsciiArtConfig,
}

/// An owned copy of `s`.
pub fn owned(s: &str) -> (r: String)
    ensures
        r@ == s@,
{
    let mut r = String::new();
    push_text(&mut r, s);
    r
}

/// The color table that a fresh configuration holds.
pub open spec fn default_field_colors() -> Seq<(Seq<char>, Seq<char>)> {
    seq![
        ("userhost"@, "bright_green"@),
        ("os"@, "green"@),
        ("hostname"@, "bright_cyan"@),
        ("kernel"@, "magenta"@),
        ("uptime"@, "bright_yellow"@),
        ("packages"@, "bright_blue"@),
        ("shell"@, "green"@),
        ("resolution"@, "bright_magenta"@),
        ("de"@, "cyan"@),
        ("wm"@, "bright_green"@),
        ("terminal"@, "yellow"@),
        ("terminal_font"@, "bright_yellow"@),
        ("cpu"@, "bright_green"@),
        ("memory"@, "bright_blue"@),
        ("disk"@, "bright_red"@),
    ]
}

/// The field order that a fresh configuration holds.
pub open spec fn default_fields() -> Seq<Seq<char>> {
    seq![
        "userhost"@,
        "os"@,
        "hostname"@,
        "kernel"@,
        "uptime"@,
        "packages"@,
        "shell"@,
        "resolution"@,
        "de"@,
        "wm"@,
        "terminal"@,
        "terminal_font"@,
        "cpu"@,
        "memory"@,
        "disk"@,
        "colors"@,
    ]
}

fn push_pair(v: &mut Vec<(String, String)>, k: &str, c: &str)
    ensures
        final(v)@.len() == old(v)@.len() + 1,
        forall|i: int| 0 <= i < old(v)@.len() ==> final(v)@[i] == old(v)@[i],
        final(v)@.last().0@ == k@,
        final(v)@.last().1@ == c@,
{
    v.push((owned(k), owned(c)));
}

fn push_name(v: &mut Vec<String>, k: &str)
    ensures
        final(v)@ == old(v)@.push(final(v)@.last()),
        final(v)@.last()@ == k@,
{
    v.push(owned(k));
}

impl Default for DisplayConfig {
    fn default() -> (r: Self)
        ensures
            r.show_logo,
            r.color_values,
            !r.show_colors_label,
            r.disable_startup_message,
            r.field_colors@.len() == default_field_colors().len(),
            forall|i: int|
                0 <= i < r.field_colors@.len() ==> (#[trigger] r.field_colors@[i].0@, r.field_colors@[i].1@)
                    == default_field_colors()[i],
    {
        let mut t: Vec<(String, String)> = Vec::new();
        push_pair(&mut t, "userhost", "bright_green");
        push_pair(&mut t, "os", "green");
        push_pair(&mut t, "hostname", "bright_cyan");
        push_pair(&mut t, "kernel", "magenta");
        push_pair(&mut t, "uptime", "bright_yellow");
        push_pair(&mut t, "packages", "bright_blue");
        push_pair(&mut t, "shell", "green");
        push_pair(&mut t, "resolution", "bright_magenta");
        push_pair(&mut t, "de", "cyan");
        push_pair(&mut t, "wm", "bright_green");
        push_pair(&mut t, "terminal", "yellow");
        push_pair(&mut t, "terminal_font", "bright_yellow");
        push_pair(&mut t, "cpu", "bright_green");
        push_pair(&mut t, "memory", "bright_blue");
        push_pair(&mut t, "disk", "bright_red");
        DisplayConfig {
            show_logo: true,
            color_values: true,
            show_colors_label: false,
            disable_startup_message: true,
            field_colors: t,
        }
    }
}

impl Default for InfoConfig {
    fn default() -> (r: Self)
        ensures
            r.fields@.len() == default_fields().len(),
            forall|i: int| 0 <= i < r.fields@.len() ==> #[trigger] r.fields@[i]@ == default_fields()[i],
            r.custom_commands@.len() == 0,
    {
        let mut f: Vec<String> = Vec::new();
        push_name(&mut f, "userhost");
        push_name(&mut f, "os");
        push_name(&mut f, "hostname");
        push_name(&mut f, "kernel");
        push_name(&mut f, "uptime");
        push_name(&mut f, "packages");
        push_name(&mut f, "shell");
        push_name(&mut f, "resolution");
        push_name(&mut f, "de");
        push_name(&mut f, "wm");
        push_name(&mut f, "terminal");
        push_name(&mut f, "terminal_font");
        push_name(&mut f, "cpu");
        push_name(&mut f, "memory");
        push_name(&mut f, "disk");
        push_name(&mut f, "colors");
        InfoConfig { fields: f, custom_commands: Vec::new() }
    }
}

impl Default for AsciiArtConfig {
    fn default() -> (r: Self)
        ensures
            r.source == AsciiArtSource::Auto,
            r.path is None,
            r.builtin is None,
            !r.auto_detect,
    {
        AsciiArtConfig { source: AsciiArtSource::Auto, path: None, builtin: None, auto_detect: false }
    }
}

impl Default for Config {
    fn default() -> (r: Self)
        ensures
            r.display.show_logo,
            r.display.color_values,
            !r.display.show_colors_label,
            r.display.field_colors@.len() == default_field_colors().len(),
            r.info.fields@.len() == default_fields().len(),
            forall|i: int| 0 <= i < r.info.fields@.len() ==> #[trigger] r.info.fields@[i]@ == default_fields()[i],
            r.info.custom_commands@.len() == 0,
            r.ascii_art.source == AsciiArtSource::Auto,
            r.ascii_art.path is None,
            !r.ascii_art.auto_detect,
    {
        Config {
            display: DisplayConfig::default(),
            info: InfoConfig::default(),
            ascii_art: AsciiArtConfig::default(),
        }
    }
}

/// Text of the configuration file written for a first run, in TOML.
pub const DEFAULT_CONFIG_TOML: &'static str = "# Rice system information display configuration

[display]
# Show ASCII art logo alongside system information
show_logo = true

# Enable colored field values
color_values = true

# Show \"Colors:\" label for the colored blocks row (if false, shows blocks without label)
show_colors_label = false

# Disable the random startup message in logs (default: true)
disable_startup_message = true

# Customize colors for individual field values
# Available colors: black, red, green, yellow, blue, magenta, cyan, white
# Bright variants: bright_black, bright_red, bright_green, bright_yellow, bright_blue, bright_magenta, bright_cyan, bright_white
[display.field_colors]
userhost = \"bright_green\"
os = \"green\"
hostname = \"bright_cyan\"
kernel = \"magenta\"
uptime = \"bright_yellow\"
packages = \"bright_blue\"
shell = \"green\"
resolution = \"bright_magenta\"
de = \"cyan\"
wm = \"bright_green\"
terminal = \"yellow\"
cpu = \"bright_green\"
memory = \"bright_blue\"
disk = \"bright_red\"

[info]
# Fields to display in order - remove any you don't want to see
fields = [
    \"userhost\",
    \"os\",
    \"hostname\", 
    \"kernel\",
    \"uptime\",
    \"packages\",
    \"shell\",
    \"resolution\",
    \"de\",
    \"wm\", 
    \"terminal\",
    \"cpu\",
    \"memory\",
    \"disk\",
    \"colors\"
]

# Custom commands to execute and display
# Each command will be executed and its output displayed as a field
[info.custom_commands]
# Example custom commands (uncomment to use):
# git_branch = \"git branch --show-current\"
# current_time = \"date '+%H:%M:%S'\"
# weather = \"curl -s 'wttr.in?format=%l:+%c+%t'\"
# public_ip = \"curl -s ifconfig.me\"
# disk_usage = \"df -h / | tail -1 | awk '{print $5}'\"


[ascii_art]
# ASCII art source: \"auto\", \"builtin\", \"file\", \"image\", or \"none\"
source = \"auto\"

# Auto-detect OS for ASCII art selection (currently not implemented)
auto_detect = false

# Path to custom ASCII art file or image file
# path = \"/path/to/custom/ascii/art.txt\"
# path = \"/path/to/image.png\"  # For source = \"image\"

# Force specific builtin logo (not yet implemented)
# builtin = \"arch\"
";

/// The configuration file written for a first run.
pub fn default_config_toml() -> (r: &'static str)
    ensures
        r@ == DEFAULT_CONFIG_TOML@,
{
    DEFAULT_CONFIG_TOML
}

} // verus!
