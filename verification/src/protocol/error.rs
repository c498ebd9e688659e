pub use super::plugin::PluginParseError;
pub use super::state::ParseStateChangeError;
pub use super::version::ParseVersionError;
