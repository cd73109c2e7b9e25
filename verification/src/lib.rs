//! A verified core for an `mpv://` protocol handler: it validates a request
//! URL, percent-decodes the target, reads the playback flags, and synthesizes
//! the ordered argument list for the player process.

pub mod decode;
pub mod options;
pub mod parser;
pub mod query;

pub use decode::decode_component;
pub use options::MpvOption;
pub use parser::parse;
pub use parser::parse_parts;
pub use parser::ParseError;
