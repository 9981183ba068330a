//! Setting the organisation up: the token settings and each member's grant.

use vstd::prelude::*;
use crate::registry::opened;
use crate::types::{Address, DAOError, TokenConfig};

verus! {

/// The tokens that each member receives at setup.
pub const MEMBER_GRANT: u64 = 10_000_000;

/// What a setup writes: the token settings and the proposal counter. Each
/// member is then granted `MEMBER_GRANT` tokens.
#[derive(Debug, PartialEq, Eq)]
pub struct Charter {
    pub config: TokenConfig,
    pub count: u64,
}

/// The setup for `members` members under `admin`: the total supply is the sum
/// of their grants, and the proposal counter stays where it is. A second setup
/// is refused.
pub open spec fn setup_spec(
    config: Option<TokenConfig>,
    count: Option<u64>,
    admin: Address,
    members: u32,
) -> Result<Charter, DAOError> {
    if config is Some {
        Err(DAOError::AlreadyInitialised)
    } else {
        Ok(
            Charter {
                config: TokenConfig { total_supply: (members * MEMBER_GRANT) as u64, admin },
                count: opened(count),
            },
        )
    }
}

/// Decides one setup. `config` and `count` are the records as they stand.
#[verifier::when_used_as_spec(setup_spec)]
pub fn setup(config: Option<TokenConfig>, count: Option<u64>, admin: Address, members: u32) -> (outcome:
    Result<Charter, DAOError>)
    ensures
        outcome == setup_spec(config, count, admin, members),
        outcome matches Ok(charter) ==> charter.config.total_supply == members * MEMBER_GRANT,
{
    if config.is_some() {
        return Err(DAOError::AlreadyInitialised);
    }
    let total_supply: u64 = members as u64 * MEMBER_GRANT;
    let so_far: u64 = match count {
        Some(count) => count,
        None => 0,
    };
    Ok(Charter { config: TokenConfig { total_supply, admin }, count: so_far })
}

/// The total supply, where `config` is the token settings as they stand.
pub open spec fn supply_spec(config: Option<TokenConfig>) -> Result<u64, DAOError> {
    match config {
        None => Err(DAOError::NotInitialised),
        Some(config) => Ok(config.total_supply),
    }
}

#[verifier::when_used_as_spec(supply_spec)]
pub fn supply(config: Option<TokenConfig>) -> (outcome: Result<u64, DAOError>)
    ensures
        outcome == supply_spec(config),
{
    match config {
        None => Err(DAOError::NotInitialised),
        Some(config) => Ok(config.total_supply),
    }
}

} // verus!
