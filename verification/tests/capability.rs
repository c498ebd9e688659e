use dibi::context::Context;
use dibi::protocol::{Capability, ConnectionState, ServerStatus, StateChange};
use dibi::protocol::error::ParseStateChangeError;

#[test]
fn flags_have_their_bits() {
    assert_eq!(Capability::CLIENT_MYSQL, 1);
    assert_eq!(Capability::CONNECT_WITH_DB, 8);
    assert_eq!(Capability::CLIENT_PROTOCOL_41, 512);
    assert_eq!(Capability::SSL, 2048);
    assert_eq!(Capability::SECURE_CONNECTION, 32768);
    assert_eq!(Capability::PLUGIN_AUTH, 1 << 19);
    assert_eq!(Capability::PLUGIN_AUTH_LENENC_CLIENT_DATA, 1 << 21);
    assert_eq!(Capability::BULK_UNIT_RESULTS, 1 << 37);
    assert_eq!(Capability::ALL, 0x3f_e7ff_afab);
    assert_eq!(ServerStatus::ALL, 0x7ffb);
    assert_eq!(ConnectionState::ALL, 31);
}

#[test]
fn from_lower_drops_undefined_bits() {
    assert_eq!(Capability::from_lower(0xffff).bits(), 0xafab);
    assert_eq!(Capability::from_lower(0).bits(), 0);
    assert_eq!(Capability::from_lower(0x0004).bits(), 0);
    assert_eq!(Capability::from_lower(0x8200).bits(), 0x8200);
}

#[test]
fn upper_and_extended_are_merged() {
    let mut caps = Capability::from_lower(0x8200);
    caps.upper(0x0008);
    assert_eq!(caps.bits(), 0x0008_8200);
    caps.upper(0xffff);
    assert_eq!(caps.bits(), 0xe7ff_8200);
    caps.extended(0xffff_ffff);
    assert_eq!(caps.bits(), 0x3f_e7ff_8200);
    let mut caps = Capability::empty();
    caps.extended(0x4);
    assert_eq!(caps.bits(), 1 << 34);
    caps.extended(0x40);
    assert_eq!(caps.bits(), 1 << 34);
}

#[test]
fn default_and_extended_fields() {
    let caps = Capability::from_bits_truncate(0x3f_e7ff_afab);
    assert_eq!(caps.to_default(), 0xe7ff_afab);
    assert_eq!(caps.to_extended(), 0x3f);
    assert_eq!(Capability::empty().to_default(), 0);
    assert_eq!(Capability::empty().to_extended(), 0);
    for bits in [0u64, Capability::SSL, Capability::PROGRESS | Capability::PLUGIN_AUTH, Capability::ALL] {
        let caps = Capability::from_bits_truncate(bits);
        assert_eq!(caps.to_default() as u64 | ((caps.to_extended() as u64) << 32), caps.bits());
    }
}

#[test]
fn set_operations() {
    let mut caps = Capability::from_bits_truncate(Capability::SSL | Capability::PLUGIN_AUTH);
    assert!(caps.contains(Capability::from_bits_truncate(Capability::SSL)));
    assert!(caps.has(Capability::SSL | Capability::PLUGIN_AUTH));
    assert!(!caps.has(Capability::SSL | Capability::COMPRESS));
    assert!(caps.contains(Capability::empty()));
    caps.insert(Capability::from_bits_truncate(Capability::COMPRESS));
    assert!(caps.has(Capability::SSL | Capability::COMPRESS));
    let other = Capability::from_bits_truncate(Capability::COMPRESS | Capability::PROGRESS);
    assert_eq!(caps.union(other).bits(), Capability::SSL | Capability::PLUGIN_AUTH | Capability::COMPRESS | Capability::PROGRESS);
    assert_eq!(caps.intersection(other).bits(), Capability::COMPRESS);
    assert_eq!(Capability::default(), Capability::empty());
    assert_eq!(Capability::from_bits_truncate(1 << 40).bits(), 0);
}

#[test]
fn default_client_capabilities() {
    let caps = Context::default_client_capabilities();
    assert_eq!(caps.bits(), 0x00be_a300);
    for flag in [
        Capability::IGNORE_SPACE,
        Capability::CLIENT_PROTOCOL_41,
        Capability::TRANSACTIONS,
        Capability::SECURE_CONNECTION,
        Capability::MULTI_RESULTS,
        Capability::PS_MULTI_RESULTS,
        Capability::PLUGIN_AUTH,
        Capability::CONNECT_ATTRS,
        Capability::PLUGIN_AUTH_LENENC_CLIENT_DATA,
        Capability::CLIENT_SESSION_TRACK,
    ] {
        assert!(caps.has(flag));
    }
    assert!(!caps.has(Capability::SSL));
    assert!(!caps.has(Capability::CONNECT_WITH_DB));
}

#[test]
fn server_status_flags() {
    let status = ServerStatus::from_bits_truncate(0xffff);
    assert_eq!(status.bits(), 0x7ffb);
    let status = ServerStatus::from_bits_truncate(ServerStatus::AUTOCOMMIT | ServerStatus::IN_TRANSACTION);
    assert!(status.contains(ServerStatus::from_bits_truncate(ServerStatus::AUTOCOMMIT)));
    assert!(!status.contains(ServerStatus::from_bits_truncate(ServerStatus::CURSOR_EXISTS)));
    assert_eq!(ServerStatus::from_bits_truncate(4).bits(), 0);
    assert_eq!(ServerStatus::default(), ServerStatus::empty());
    assert_eq!(ServerStatus::SESSION_STATE_CHANGED, 1 << 14);
}

#[test]
fn connection_state_flags() {
    let state = ConnectionState::from_bits_truncate(0xffff);
    assert_eq!(state.bits(), 31);
    assert!(state.contains(ConnectionState::from_bits_truncate(ConnectionState::READ_ONLY)));
    assert!(!ConnectionState::from_bits_truncate(ConnectionState::DATABASE)
        .contains(ConnectionState::from_bits_truncate(ConnectionState::READ_ONLY)));
}

#[test]
fn state_change_codes() {
    let all = [
        StateChange::SystemVariables,
        StateChange::Schema,
        StateChange::StateChange,
        StateChange::GTIDs,
        StateChange::TransactionCharacteristics,
        StateChange::TransactionState,
    ];
    for (code, change) in all.into_iter().enumerate() {
        assert_eq!(StateChange::try_from(code as u8), Ok(change));
        assert_eq!(u8::from(change), code as u8);
    }
    assert_eq!(StateChange::try_from(6), Err(ParseStateChangeError(6)));
    assert_eq!(StateChange::try_from(255), Err(ParseStateChangeError(255)));
}
