//! An engine that commits storage effects only: no event handler and no
//! bank. Its transactions end in `Ok` or in the error that stopped them.
use vstd::prelude::*;
use crate::access_path::ModuleId;
use crate::effects::{
    TransactionEffects, apply_ops, commit_storage, first_bad_change, resource_ops,
    resources_encodable, storage_ops_spec,
};
use crate::engine::{
    ScriptTx, SessionOutcome, Step, VmError, execute_step, publish_pre, session_canonical,
    session_step,
};
use crate::gas::{CostTable, GasMeter};
use crate::store::{StateStore, StoreKey};
use crate::types::{
    DEFAULT_INTRINSIC_GAS_PER_BYTE, Gas, MALFORMED_MODULE, MODULE_ADDRESS_DOES_NOT_MATCH_SENDER,
    ModuleTx, OUT_OF_GAS, UNKNOWN_INVARIANT_VIOLATION_ERROR,
};

verus! {

pub open spec fn invariant_violation() -> VmError {
    VmError { major_status: UNKNOWN_INVARIANT_VIOLATION_ERROR, sub_status: None }
}

/// What a transaction of this engine ends in, given its step and the store
/// before and after it.
pub open spec fn dvm_outcome(
    step: Step,
    session: SessionOutcome,
    before: Map<StoreKey, Seq<u8>>,
    after: Map<StoreKey, Seq<u8>>,
    r: Result<(), VmError>,
) -> bool {
    match step {
        Step::Finish(res) => r == Err::<(), VmError>(
            VmError { major_status: res.status_code, sub_status: res.sub_status },
        ) && after == before,
        Step::Commit(_) => session.result matches Ok(e) && store_spec(before, after, e, r),
    }
}

/// How storing `e` from `before` ends in `after` with `r`: changes up to the
/// first value that cannot be encoded stay written, none after it is.
pub open spec fn store_spec(
    before: Map<StoreKey, Seq<u8>>,
    after: Map<StoreKey, Seq<u8>>,
    e: TransactionEffects,
    r: Result<(), VmError>,
) -> bool {
    &&& (resources_encodable(e) ==> r is Ok && after == apply_ops(before, storage_ops_spec(e)))
    &&& (!resources_encodable(e) ==> r == Err::<(), VmError>(invariant_violation()) && exists|j: int|
        first_bad_change(e.resources@, j) && after == apply_ops(before, resource_ops(e.resources@.take(j))))
}

/// The storage-only engine.
pub struct Dvm {
    cost_table: CostTable,
    store: StateStore,
}

impl Dvm {
    pub closed spec fn wf(&self) -> bool {
        self.store.wf()
    }

    pub closed spec fn cost_table_spec(&self) -> CostTable {
        self.cost_table
    }

    pub closed spec fn store_spec(&self) -> Map<StoreKey, Seq<u8>> {
        self.store@
    }

    /// An engine over `store`, priced by the default schedule.
    pub fn new(store: StateStore) -> (r: Dvm)
        requires
            store.wf(),
        ensures
            r.wf(),
            r.store_spec() == store@,
            r.cost_table_spec() == (CostTable { intrinsic_gas_per_byte: DEFAULT_INTRINSIC_GAS_PER_BYTE }),
    {
        Dvm { cost_table: CostTable { intrinsic_gas_per_byte: DEFAULT_INTRINSIC_GAS_PER_BYTE }, store }
    }

    pub fn store(&self) -> (r: &StateStore)
        ensures
            r@ == self.store_spec(),
            self.wf() ==> r.wf(),
    {
        &self.store
    }

    /// The engine keeps no interpreter state of its own; its store stays
    /// as it is.
    pub fn clear(&mut self)
        ensures
            final(self).store_spec() == old(self).store_spec(),
            final(self).wf() == old(self).wf(),
            final(self).cost_table_spec() == old(self).cost_table_spec(),
    {
    }

    /// Writes and deletes resources and writes modules, one at a time in
    /// their canonical order.
    fn store_tx_effects(&mut self, e: &TransactionEffects) -> (r: Result<(), VmError>)
        requires
            old(self).wf(),
            crate::effects::canonical_order(*e),
        ensures
            final(self).wf(),
            final(self).cost_table_spec() == old(self).cost_table_spec(),
            store_spec(old(self).store_spec(), final(self).store_spec(), *e, r),
    {
        match commit_storage(&mut self.store, e) {
            Ok(()) => Ok(()),
            Err(_) => Err(VmError { major_status: UNKNOWN_INVARIANT_VIOLATION_ERROR, sub_status: None }),
        }
    }

    /// Ends a transaction whose session has run under `meter`.
    pub fn finish_session(&mut self, meter: GasMeter, session: SessionOutcome, gas: Gas) -> (r: Result<
        (),
        VmError,
    >)
        requires
            old(self).wf(),
            meter.wf(),
            meter.max == gas.max_gas_amount,
            session_canonical(session),
        ensures
            final(self).wf(),
            final(self).cost_table_spec() == old(self).cost_table_spec(),
            dvm_outcome(
                session_step(gas, meter.used_spec(), session),
                session,
                old(self).store_spec(),
                final(self).store_spec(),
                r,
            ),
    {
        let mut meter = meter;
        if meter.charge(session.gas_charged).is_err() {
            return Err(VmError { major_status: OUT_OF_GAS, sub_status: None });
        }
        match session.result {
            Err(e) => Err(e),
            Ok(effects) => self.store_tx_effects(&effects),
        }
    }

    /// The checks of publishing that come before its session. `Ok` holds the
    /// meter to run the session under and pass to `finish_session`; `Err` the
    /// error that ends the transaction, and no session is to run.
    pub fn publish_module(&self, gas: Gas, module: &ModuleTx) -> (r: Result<GasMeter, VmError>)
        ensures
            match publish_pre(self.cost_table_spec(), gas, module.code@, module.sender.0) {
                Ok(spent) => r matches Ok(m) && m.wf() && m.max == gas.max_gas_amount
                    && m.used_spec() == spent,
                Err(res) => r == Err::<GasMeter, VmError>(
                    VmError { major_status: res.status_code, sub_status: res.sub_status },
                ),
            },
    {
        let mut meter = GasMeter::new(gas.max_gas_amount());
        let size = module.code.len() as u64;
        if meter.charge_intrinsic(self.cost_table, size).is_err() {
            return Err(VmError { major_status: OUT_OF_GAS, sub_status: None });
        }
        let id = match ModuleId::from_header(module.code.as_slice()) {
            Some(id) => id,
            None => {
                return Err(VmError { major_status: MALFORMED_MODULE, sub_status: None });
            },
        };
        if id.address != module.sender {
            return Err(VmError { major_status: MODULE_ADDRESS_DOES_NOT_MATCH_SENDER, sub_status: None });
        }
        if meter.charge_intrinsic(self.cost_table, size).is_err() {
            return Err(VmError { major_status: OUT_OF_GAS, sub_status: None });
        }
        Ok(meter)
    }

    /// Ends a script transaction. The interpreter ran `tx` on the whole
    /// budget and reported `session`; the engine itself does not read `tx`.
    pub fn execute_script(&mut self, gas: Gas, tx: ScriptTx, session: SessionOutcome) -> (r: Result<
        (),
        VmError,
    >)
        requires
            old(self).wf(),
            session_canonical(session),
        ensures
            final(self).wf(),
            dvm_outcome(execute_step(gas, session), session, old(self).store_spec(), final(self).store_spec(), r),
    {
        let meter = GasMeter::new(gas.max_gas_amount());
        self.finish_session(meter, session, gas)
    }
}

} // verus!
