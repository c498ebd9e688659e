mod capability;
pub mod client;
pub mod plugin;
pub mod server;
mod state;
mod status;
mod version;

pub mod error;

pub use capability::lemma_capability_fields_rejoin;
pub use capability::lemma_flags_are_defined;
pub use capability::Capability;
pub use state::lemma_state_change_code_round_trip;
pub use state::ConnectionState;
pub use state::StateChange;
pub use status::ServerStatus;
pub use version::all_digits;
pub use version::decimal_value;
pub use version::is_digit;
pub use version::mariadb_prefix;
pub use version::mariadb_tag;
pub use version::parse_decimal_u16;
pub use version::parse_u16;
pub use version::parse_version;
pub use version::ServerVersion;
