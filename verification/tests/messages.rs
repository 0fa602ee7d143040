use liquidation_queue::error::Error;
use liquidation_queue::math::{Decimal256, Uint256};
use liquidation_queue::msg::{init_config, update_config, ConfigResponse, HandleMsg, InitMsg};

fn record() -> ConfigResponse {
    init_config(InitMsg {
        owner: "owner0000".to_string(),
        safe_ratio: Decimal256::percent(80),
        min_liquidation: Uint256::from_u128(1_000_000),
        liquidation_threshold: Uint256::from_u128(200_000_000),
    })
}

#[test]
fn init_takes_every_field() {
    assert_eq!(
        record(),
        ConfigResponse {
            owner: "owner0000".to_string(),
            safe_ratio: Decimal256::percent(80),
            min_liquidation: Uint256::from_u128(1_000_000),
            liquidation_threshold: Uint256::from_u128(200_000_000),
        }
    );
}

#[test]
fn update_by_stranger_is_unauthorized() {
    let msg = HandleMsg::UpdateConfig {
        owner: Some("mallory".to_string()),
        safe_ratio: None,
        min_liquidation: None,
        liquidation_threshold: None,
    };
    assert_eq!(update_config(record(), &"mallory".to_string(), msg), Err(Error::Unauthorized));
}

#[test]
fn update_replaces_only_given_fields() {
    let msg = HandleMsg::UpdateConfig {
        owner: None,
        safe_ratio: Some(Decimal256::percent(70)),
        min_liquidation: None,
        liquidation_threshold: Some(Uint256::from_u128(5)),
    };
    assert_eq!(
        update_config(record(), &"owner0000".to_string(), msg),
        Ok(ConfigResponse {
            owner: "owner0000".to_string(),
            safe_ratio: Decimal256::percent(70),
            min_liquidation: Uint256::from_u128(1_000_000),
            liquidation_threshold: Uint256::from_u128(5),
        })
    );
}

#[test]
fn update_of_nothing_changes_nothing() {
    let msg = HandleMsg::UpdateConfig {
        owner: None,
        safe_ratio: None,
        min_liquidation: None,
        liquidation_threshold: None,
    };
    assert_eq!(update_config(record(), &"owner0000".to_string(), msg), Ok(record()));
}

#[test]
fn update_hands_ownership_over() {
    let msg = HandleMsg::UpdateConfig {
        owner: Some("owner0001".to_string()),
        safe_ratio: None,
        min_liquidation: Some(Uint256::from_u128(7)),
        liquidation_threshold: None,
    };
    let next = update_config(record(), &"owner0000".to_string(), msg).unwrap();
    assert_eq!(next.owner, "owner0001".to_string());
    assert_eq!(next.min_liquidation, Uint256::from_u128(7));
    let again = HandleMsg::UpdateConfig {
        owner: None,
        safe_ratio: None,
        min_liquidation: None,
        liquidation_threshold: None,
    };
    assert_eq!(update_config(next, &"owner0000".to_string(), again), Err(Error::Unauthorized));
}
