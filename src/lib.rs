//! Renders host information beside a logo in a terminal: text art or an
//! image sent through a terminal graphics protocol, laid out side by side
//! with colorized, labelled fields.
use vstd::prelude::*;

pub mod color;
pub mod config;
pub mod image;
pub mod info;
pub mod layout;
pub mod logo;
pub mod text;
pub mod units;

pub use config::{default_config_toml, AsciiArtConfig, AsciiArtSource, Config, DisplayConfig, InfoConfig};
pub use info::InfoCollector;
pub use layout::Display;
pub use logo::get_ascii_art;
pub use units::{format_bytes, format_uptime};

verus! {

} // verus!
