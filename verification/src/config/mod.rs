//! BepInEx configuration files: the line model, parsing and serialization.
pub mod model;
pub mod parse;
pub mod scan;

pub use model::{ConfigDocument, ConfigLine, LineView};
pub use parse::{parse_config_text, ParseError};
