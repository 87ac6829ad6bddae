pub mod decimal;
pub mod split;
pub mod version;

pub use version::ParseError;
pub use version::Version;
