//! Gas accounting for one transaction.
use vstd::prelude::*;
use crate::types::OUT_OF_GAS;

verus! {

/// Prices of the work charged by payload size.
#[derive(Clone, Copy, Debug, PartialEq, Eq, Structural)]
pub struct CostTable {
    pub intrinsic_gas_per_byte: u64,
}

/// The intrinsic cost of a payload of `size` bytes.
pub open spec fn intrinsic_cost(table: CostTable, size: nat) -> nat {
    table.intrinsic_gas_per_byte as nat * size
}

/// Gas left and gas spent within one budget.
#[derive(Clone, Copy, Debug, PartialEq, Eq, Structural)]
pub struct GasMeter {
    pub max: u64,
    pub remaining: u64,
}

impl GasMeter {
    pub open spec fn wf(&self) -> bool {
        self.remaining <= self.max
    }

    pub open spec fn used_spec(&self) -> nat {
        (self.max - self.remaining) as nat
    }

    /// A meter holding the whole budget `max`.
    pub fn new(max: u64) -> (r: GasMeter)
        ensures
            r.max == max,
            r.remaining == max,
            r.wf(),
    {
        GasMeter { max, remaining: max }
    }

    pub fn remaining(&self) -> (r: u64)
        ensures
            r == self.remaining,
    {
        self.remaining
    }

    /// Gas spent so far.
    pub fn used(&self) -> (r: u64)
        requires
            self.wf(),
        ensures
            r == self.used_spec(),
    {
        self.max - self.remaining
    }

    /// Takes `amount` from what remains; where less remains, empties the meter
    /// and fails with the out-of-gas code.
    pub fn charge(&mut self, amount: u64) -> (r: Result<(), u64>)
        requires
            old(self).wf(),
        ensures
            final(self).wf(),
            final(self).max == old(self).max,
            amount <= old(self).remaining ==> r is Ok && final(self).remaining == old(self).remaining - amount,
            amount > old(self).remaining ==> r == Err::<(), u64>(OUT_OF_GAS) && final(self).remaining == 0,
    {
        if amount <= self.remaining {
            self.remaining = self.remaining - amount;
            Ok(())
        } else {
            self.remaining = 0;
            Err(OUT_OF_GAS)
        }
    }

    /// Charges the intrinsic cost of a payload of `size` bytes; fails exactly
    /// when that cost exceeds what remains.
    pub fn charge_intrinsic(&mut self, table: CostTable, size: u64) -> (r: Result<(), u64>)
        requires
            old(self).wf(),
        ensures
            final(self).wf(),
            final(self).max == old(self).max,
            intrinsic_cost(table, size as nat) <= old(self).remaining ==> r is Ok
                && final(self).remaining == old(self).remaining - intrinsic_cost(table, size as nat),
            intrinsic_cost(table, size as nat) > old(self).remaining ==> r == Err::<(), u64>(OUT_OF_GAS)
                && final(self).remaining == 0,
    {
        match table.intrinsic_gas_per_byte.checked_mul(size) {
            Some(cost) => self.charge(cost),
            None => {
                self.remaining = 0;
                Err(OUT_OF_GAS)
            },
        }
    }
}

} // verus!
