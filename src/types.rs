//! Transaction inputs and results shared by the engine's parts.
use vstd::prelude::*;
use crate::codec::AccountAddress;

verus! {

/// The transaction ran to completion and its effects were committed.
pub const EXECUTED: u64 = 4001;

/// The gas budget ran out.
pub const OUT_OF_GAS: u64 = 4002;

/// The module's bytes could not be read.
pub const MALFORMED_MODULE: u64 = 3001;

/// The module declares an account other than its sender.
pub const MODULE_ADDRESS_DOES_NOT_MATCH_SENDER: u64 = 1079;

/// The interpreter produced a value its own layout cannot encode.
pub const UNKNOWN_INVARIANT_VIOLATION_ERROR: u64 = 2000;

/// Gas units charged per byte of payload where no schedule is configured.
pub const DEFAULT_INTRINSIC_GAS_PER_BYTE: u64 = 8;

/// The gas budget of one transaction.
#[derive(Clone, Copy, Debug, PartialEq, Eq, Structural)]
pub struct Gas {
    pub max_gas_amount: u64,
}

impl Gas {
    pub fn new(max_gas_amount: u64) -> (r: Gas)
        ensures
            r.max_gas_amount == max_gas_amount,
    {
        Gas { max_gas_amount }
    }

    pub fn max_gas_amount(&self) -> (r: u64)
        ensures
            r == self.max_gas_amount,
    {
        self.max_gas_amount
    }
}

/// The outcome of one transaction.
#[derive(Clone, Copy, Debug, PartialEq, Eq, Structural)]
pub struct VmResult {
    pub status_code: u64,
    pub sub_status: Option<u64>,
    pub gas_used: u64,
}

impl VmResult {
    pub fn new(status_code: u64, sub_status: Option<u64>, gas_used: u64) -> (r: VmResult)
        ensures
            r == (VmResult { status_code, sub_status, gas_used }),
    {
        VmResult { status_code, sub_status, gas_used }
    }
}

/// A failure that correct interpreter output can never cause; the host must
/// treat it as a fault of the process, not of the transaction.
#[derive(Clone, Copy, Debug, PartialEq, Eq, Structural)]
pub enum FatalError {
    /// A value could not be encoded under its own layout.
    SerializationInvariantViolation,
    /// A debit exceeded the balance it was taken from.
    BalanceUnderflow,
    /// A credit would take a balance past the largest amount.
    BalanceOverflow,
}

/// A module to publish and the account that sends it.
#[derive(Clone, Debug, PartialEq, Eq)]
pub struct ModuleTx {
    pub code: Vec<u8>,
    pub sender: AccountAddress,
}

impl ModuleTx {
    pub fn new(code: Vec<u8>, sender: AccountAddress) -> (r: ModuleTx)
        ensures
            r.code@ == code@,
            r.sender == sender,
    {
        ModuleTx { code, sender }
    }
}

} // verus!
