//! Failures as the host that runs the contract reports them.

use vstd::prelude::*;
use crate::types::DAOError;

verus! {

/// `soroban_sdk::Error`, the value in which the host carries a failure: a
/// mark of where the failure comes from, and a number.
#[verifier::external_type_specification]
#[verifier::external_body]
pub struct ExHostError(soroban_sdk::Error);

/// The number that a host error carries.
pub uninterp spec fn error_code(error: soroban_sdk::Error) -> u32;

/// Whether a host error is marked as a failure that a contract reports.
pub uninterp spec fn is_contract_error(error: soroban_sdk::Error) -> bool;

/// Calls `soroban_sdk::Error::from_contract_error`, which packs the mark of a
/// contract's failure and all 32 bits of `code` into one value: the value
/// carries `code` as its number and is marked as a contract's failure.
#[verifier::external_body]
fn from_contract_error(code: u32) -> (error: soroban_sdk::Error)
    ensures
        error_code(error) == code,
        is_contract_error(error),
{
    soroban_sdk::Error::from_contract_error(code)
}

/// Calls `soroban_sdk::Error::get_code`, which unpacks the number that the
/// value carries.
#[verifier::external_body]
fn get_code(error: &soroban_sdk::Error) -> (code: u32)
    ensures
        code == error_code(*error),
{
    error.get_code()
}

/// Calls `soroban_sdk::Error::is_type` with the mark of a contract's failure,
/// which compares the mark that the value carries with that one.
#[verifier::external_body]
fn is_contract(error: &soroban_sdk::Error) -> (marked: bool)
    ensures
        marked == is_contract_error(*error),
{
    error.is_type(soroban_sdk::xdr::ScErrorType::Contract)
}

/// The host's error value for a failure of governance: a contract's failure
/// that carries the failure's code.
pub fn host_error(error: DAOError) -> (reported: soroban_sdk::Error)
    ensures
        is_contract_error(reported),
        error_code(reported) == error.code(),
{
    from_contract_error(error.code())
}

/// The failure of governance that a host error stands for, if it stands for
/// one.
pub open spec fn read_error_spec(error: soroban_sdk::Error) -> Option<DAOError> {
    if is_contract_error(error) {
        DAOError::from_code(error_code(error))
    } else {
        None
    }
}

/// Reads a failure of governance back from a host error: the failure with the
/// number that the error carries, where the error is a contract's failure and
/// a failure of governance has that number.
#[verifier::when_used_as_spec(read_error_spec)]
pub fn read_error(error: soroban_sdk::Error) -> (read: Option<DAOError>)
    ensures
        read == read_error_spec(error),
{
    if is_contract(&error) {
        DAOError::from_code(get_code(&error))
    } else {
        None
    }
}

/// What `host_error` reports reads back as the failure it was made of: a
/// contract's failure that carries a failure's code is read as that failure.
pub proof fn law_host_error_reads_back(error: DAOError, reported: soroban_sdk::Error)
    requires
        is_contract_error(reported),
        error_code(reported) == error.code(),
    ensures
        read_error_spec(reported) == Some(error),
{
}

} // verus!
