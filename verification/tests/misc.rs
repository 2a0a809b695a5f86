//! Tests of the small codec helpers and configuration defaults.

use battleship::game::PlayerRole;
use battleship::game::TurnState;
use battleship::msg::ContractStatus;
use battleship::msg::InstantiateConfig;
use battleship::nfp::access_string_to_val;
use battleship::nfp::access_val_to_string;
use battleship::nfp::ACCESS_CLEARED;
use battleship::nfp::ACCESS_OWNERS;
use battleship::nfp::ACCESS_PUBLIC;

#[test]
fn contract_status_to_u8() {
    assert_eq!(ContractStatus::Normal.to_u8(), 0);
    assert_eq!(ContractStatus::StopTransactions.to_u8(), 1);
    assert_eq!(ContractStatus::StopAll.to_u8(), 2);
}

#[test]
fn turn_state_bytes() {
    assert_eq!(TurnState::WaitingForPlayer.to_u8(), 0);
    assert_eq!(TurnState::WaitingForBothPlayersSetup.to_u8(), 1);
    assert_eq!(TurnState::WaitingForInitiatorSetup.to_u8(), 2);
    assert_eq!(TurnState::WaitingForJoinerSetup.to_u8(), 3);
    assert_eq!(TurnState::InitiatorsTurn.to_u8(), 4);
    assert_eq!(TurnState::JoinersTurn.to_u8(), 5);
    assert_eq!(TurnState::GameOverInitiatorWon.to_u8(), 6);
    assert_eq!(TurnState::GameOverJoinerWon.to_u8(), 7);
    assert_eq!(PlayerRole::Initiator.to_u8(), 0);
    assert_eq!(PlayerRole::Joiner.to_u8(), 1);
}

#[test]
fn access_levels_round_trip() {
    for v in [ACCESS_PUBLIC, ACCESS_OWNERS, ACCESS_CLEARED] {
        let s = access_val_to_string(v).expect("known level");
        assert_eq!(access_string_to_val(s).expect("round trip"), v);
    }
    assert!(access_val_to_string(3).is_err());
    assert!(access_string_to_val("secret".to_string()).is_err());
}

#[test]
fn instantiate_config_defaults_private() {
    let c = InstantiateConfig::default();
    assert_eq!(c.public_token_supply, Some(false));
    assert_eq!(c.public_owner, Some(false));
    assert_eq!(c.enable_sealed_metadata, Some(false));
    assert_eq!(c.unwrapped_metadata_is_private, Some(false));
    assert_eq!(c.minter_may_update_metadata, Some(true));
    assert_eq!(c.owner_may_update_metadata, Some(false));
    assert_eq!(c.enable_burn, Some(false));
    assert_eq!(c.minter_may_put_token_storage, Some(false));
    assert_eq!(c.minter_may_put_global_storage, Some(false));
}
