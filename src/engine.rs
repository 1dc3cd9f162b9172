//! The execution engine: charges gas, checks a module against its sender,
//! takes the interpreter's outcome and commits its effects.
//!
//! The interpreter is the host's: it runs a session on the transaction and
//! reports the gas it charged with the effects or the error it ended with.
//! Every decision around that run is made here.
use vstd::prelude::*;
use crate::access_path::{ModuleId, TypeTag, module_header};
use crate::bank::{Bank, BalanceKey};
use crate::codec::{AccountAddress, Value};
use crate::effects::{
    EventRecord, EventRecordModel, TransactionEffects, apply_balance_ops, apply_ops, bank_fold,
    bank_step, canonical_order, commit_storage, deliver_events, event_records, events_encodable,
    events_spec, first_bad_change, first_bad_event, records_model, resource_ops,
    resources_encodable, step_error, storage_ops_spec,
};
use crate::config::{OnChainConfig, VMConfig};
use crate::gas::{CostTable, GasMeter, intrinsic_cost};
use crate::store::{StateStore, StoreKey};
use crate::types::{
    EXECUTED, FatalError, Gas, MALFORMED_MODULE, MODULE_ADDRESS_DOES_NOT_MATCH_SENDER, ModuleTx,
    OUT_OF_GAS, VmResult,
};

verus! {

/// The error an interpreter session ended with.
#[derive(Clone, Copy, Debug, PartialEq, Eq, Structural)]
pub struct VmError {
    pub major_status: u64,
    pub sub_status: Option<u64>,
}

/// What the interpreter reports of one session: the gas it charged, and its
/// effects or its error.
pub struct SessionOutcome {
    pub gas_charged: u64,
    pub result: Result<TransactionEffects, VmError>,
}

/// Chain context a script session runs in; it lives for one session only.
#[derive(Clone, Copy, Debug, PartialEq, Eq, Structural)]
pub struct ExecutionContext {
    pub height: u64,
    pub timestamp: u64,
}

impl ExecutionContext {
    pub fn new(height: u64, timestamp: u64) -> (r: ExecutionContext)
        ensures
            r.height == height,
            r.timestamp == timestamp,
    {
        ExecutionContext { height, timestamp }
    }
}

/// A script to run: its code, value and type arguments, and its senders.
pub struct ScriptTx {
    pub code: Vec<u8>,
    pub args: Vec<Value>,
    pub type_args: Vec<TypeTag>,
    pub senders: Vec<AccountAddress>,
}

/// What a transaction comes to before its effects are committed: a final
/// result, or effects to commit and the result owed once they are.
pub ghost enum Step {
    Finish(VmResult),
    Commit(VmResult),
}

pub open spec fn out_of_gas(gas: Gas) -> VmResult {
    VmResult { status_code: OUT_OF_GAS, sub_status: None, gas_used: gas.max_gas_amount }
}

/// The decision after the interpreter has run with `spent` gas already
/// charged: it may not charge more than what is left.
pub open spec fn session_step(gas: Gas, spent: nat, s: SessionOutcome) -> Step {
    if spent + s.gas_charged > gas.max_gas_amount {
        Step::Finish(out_of_gas(gas))
    } else {
        let used = (spent + s.gas_charged) as u64;
        match s.result {
            Err(e) => Step::Finish(
                VmResult { status_code: e.major_status, sub_status: e.sub_status, gas_used: used },
            ),
            Ok(_) => Step::Commit(VmResult { status_code: EXECUTED, sub_status: None, gas_used: used }),
        }
    }
}

/// Publishing up to the session: the intrinsic cost of the code is charged,
/// the header is read, its account must be the sender's, and the same cost is
/// charged a second time. `Ok` holds the gas spent so far; `Err` the final
/// result of a transaction stopped before its session.
pub open spec fn publish_pre(table: CostTable, gas: Gas, code: Seq<u8>, sender: u128) -> Result<nat, VmResult> {
    let cost = intrinsic_cost(table, code.len());
    if cost > gas.max_gas_amount {
        Err(out_of_gas(gas))
    } else {
        match module_header(code) {
            None => Err(VmResult { status_code: MALFORMED_MODULE, sub_status: None, gas_used: cost as u64 }),
            Some(m) => if m.address != sender {
                Err(
                    VmResult {
                        status_code: MODULE_ADDRESS_DOES_NOT_MATCH_SENDER,
                        sub_status: None,
                        gas_used: cost as u64,
                    },
                )
            } else if 2 * cost > gas.max_gas_amount {
                Err(out_of_gas(gas))
            } else {
                Ok(2 * cost)
            },
        }
    }
}

/// A whole publishing transaction: the checks, then the session.
pub open spec fn publish_step(table: CostTable, gas: Gas, code: Seq<u8>, sender: u128, s: SessionOutcome) -> Step {
    match publish_pre(table, gas, code, sender) {
        Err(res) => Step::Finish(res),
        Ok(spent) => session_step(gas, spent, s),
    }
}

/// Running a script: the session runs on the whole budget.
pub open spec fn execute_step(gas: Gas, s: SessionOutcome) -> Step {
    session_step(gas, 0, s)
}

/// Whatever a transaction comes to, it reports no more gas than its budget.
pub proof fn lemma_gas_used_within_budget(
    table: CostTable,
    gas: Gas,
    code: Seq<u8>,
    sender: u128,
    s: SessionOutcome,
)
    ensures
        match publish_step(table, gas, code, sender, s) {
            Step::Finish(r) => r.gas_used <= gas.max_gas_amount,
            Step::Commit(r) => r.gas_used <= gas.max_gas_amount,
        },
        match execute_step(gas, s) {
            Step::Finish(r) => r.gas_used <= gas.max_gas_amount,
            Step::Commit(r) => r.gas_used <= gas.max_gas_amount,
        },
{
}

/// The engine's observable state: the store, the balances and the events
/// delivered so far.
pub ghost struct EngineModel {
    pub store: Map<StoreKey, Seq<u8>>,
    pub bank: Map<BalanceKey, u128>,
    pub events: Seq<EventRecordModel>,
}

/// The commit of `e` succeeds: every value encodes and no balance movement
/// fails.
pub open spec fn commit_ok(m: EngineModel, e: TransactionEffects) -> bool {
    resources_encodable(e) && events_encodable(e) && bank_fold(m.bank, e.balance_ops@) is Some
}

/// The state after a successful commit of `e`.
pub open spec fn committed(m: EngineModel, e: TransactionEffects) -> EngineModel {
    EngineModel {
        store: apply_ops(m.store, storage_ops_spec(e)),
        bank: bank_fold(m.bank, e.balance_ops@).unwrap(),
        events: m.events + events_spec(e),
    }
}

/// How a commit of `e` from `m` ends in `n` with `r`. The phases run in
/// order (store, events, bank) and none undoes another. Within a phase, the
/// items before the first failing one stay applied and none after it is.
pub open spec fn commit_spec(
    m: EngineModel,
    n: EngineModel,
    e: TransactionEffects,
    r: Result<(), FatalError>,
) -> bool {
    &&& (commit_ok(m, e) <==> r is Ok)
    &&& (r is Ok ==> n == committed(m, e))
    &&& (!resources_encodable(e) ==> r == Err::<(), FatalError>(
        FatalError::SerializationInvariantViolation,
    ) && n.events == m.events && n.bank == m.bank && exists|j: int|
        first_bad_change(e.resources@, j) && n.store == apply_ops(
            m.store,
            resource_ops(e.resources@.take(j)),
        ))
    &&& (resources_encodable(e) ==> n.store == apply_ops(m.store, storage_ops_spec(e)))
    &&& (resources_encodable(e) && !events_encodable(e) ==> r == Err::<(), FatalError>(
        FatalError::SerializationInvariantViolation,
    ) && n.bank == m.bank && exists|j: int|
        first_bad_event(e.events@, j) && n.events == m.events + event_records(e.events@.take(j)))
    &&& (resources_encodable(e) && events_encodable(e) ==> n.events == m.events + events_spec(e))
    &&& (resources_encodable(e) && events_encodable(e) && r is Err ==> exists|j: int|
        0 <= j < e.balance_ops@.len() && bank_fold(m.bank, e.balance_ops@.take(j)) == Some(n.bank)
            && bank_step(n.bank, #[trigger] e.balance_ops@[j]) is None && r
            == Err::<(), FatalError>(step_error(e.balance_ops@[j])))
}

/// The interpreter's effects, if any, come in canonical order.
pub open spec fn session_canonical(s: SessionOutcome) -> bool {
    s.result matches Ok(e) ==> canonical_order(e)
}

/// How a transaction whose step is `step` ends in `n` with `r`, from `m`.
pub open spec fn transaction_spec(
    step: Step,
    s: SessionOutcome,
    m: EngineModel,
    n: EngineModel,
    r: Result<VmResult, FatalError>,
) -> bool {
    match step {
        Step::Finish(res) => r == Ok::<VmResult, FatalError>(res) && n == m,
        Step::Commit(res) => s.result matches Ok(e) && commit_spec(
            m,
            n,
            e,
            match r {
                Ok(_) => Ok(()),
                Err(x) => Err(x),
            },
        ) && (r is Ok ==> r == Ok::<VmResult, FatalError>(res)),
    }
}

/// The engine with its store, balances and delivered events.
pub struct Mvm {
    cost_table: CostTable,
    store: StateStore,
    bank: Bank,
    events: Vec<EventRecord>,
}

impl View for Mvm {
    type V = EngineModel;

    closed spec fn view(&self) -> EngineModel {
        EngineModel { store: self.store@, bank: self.bank@, events: records_model(self.events@) }
    }
}

impl Mvm {
    pub closed spec fn wf(&self) -> bool {
        self.store.wf() && self.bank.wf()
    }

    pub closed spec fn cost_table_spec(&self) -> CostTable {
        self.cost_table
    }

    /// An engine over `store` and `bank`, priced by the gas schedule of the
    /// virtual machine configuration that `store` holds; `None` where that
    /// configuration is missing or does not decode.
    pub fn new(store: StateStore, bank: Bank) -> (r: Option<Mvm>)
        requires
            store.wf(),
            bank.wf(),
        ensures
            VMConfig::fetch_spec(store) is None <==> r is None,
            r matches Some(m) ==> m.wf() && m.cost_table_spec() == VMConfig::fetch_spec(
                store,
            ).unwrap().gas_schedule && m@ == (EngineModel {
                store: store@,
                bank: bank@,
                events: seq![],
            }),
    {
        match VMConfig::fetch_config(&store) {
            Some(config) => Some(Mvm::with_cost_table(config.gas_schedule, store, bank)),
            None => None,
        }
    }

    /// An engine over `store` and `bank` that prices payloads by `cost_table`.
    pub fn with_cost_table(cost_table: CostTable, store: StateStore, bank: Bank) -> (r: Mvm)
        requires
            store.wf(),
            bank.wf(),
        ensures
            r.wf(),
            r.cost_table_spec() == cost_table,
            r@ == (EngineModel { store: store@, bank: bank@, events: seq![] }),
    {
        let r = Mvm { cost_table, store, bank, events: Vec::new() };
        assert(records_model(r.events@) =~= seq![]);
        r
    }

    pub fn store(&self) -> (r: &StateStore)
        ensures
            r@ == self@.store,
            self.wf() ==> r.wf(),
    {
        &self.store
    }

    pub fn bank(&self) -> (r: &Bank)
        ensures
            r@ == self@.bank,
            self.wf() ==> r.wf(),
    {
        &self.bank
    }

    /// The events delivered so far, in delivery order.
    pub fn events(&self) -> (r: &Vec<EventRecord>)
        ensures
            records_model(r@) == self@.events,
    {
        &self.events
    }

    /// The engine keeps no interpreter state of its own: the interpreter and
    /// its caches are the host's, which resets them. Store, balances and
    /// delivered events stay as they are.
    pub fn clear(&mut self)
        ensures
            final(self)@ == old(self)@,
            final(self).wf() == old(self).wf(),
            final(self).cost_table_spec() == old(self).cost_table_spec(),
    {
    }

    /// Commits `e` in four phases: resources and modules to the store, events
    /// to the handler, movements to the bank, each in its canonical order.
    pub fn commit_effects(&mut self, e: TransactionEffects) -> (r: Result<(), FatalError>)
        requires
            old(self).wf(),
            canonical_order(e),
        ensures
            final(self).wf(),
            final(self).cost_table_spec() == old(self).cost_table_spec(),
            commit_spec(old(self)@, final(self)@, e, r),
    {
        let ghost e0 = e;
        match commit_storage(&mut self.store, &e) {
            Ok(()) => {},
            Err(err) => {
                return Err(err);
            },
        }
        let TransactionEffects { resources, modules, events, balance_ops } = e;
        match deliver_events(&mut self.events, events) {
            Ok(()) => {},
            Err(err) => {
                return Err(err);
            },
        }
        apply_balance_ops(&mut self.bank, &balance_ops)
    }

    /// Ends a transaction whose session has run: charges the gas the session
    /// charged on top of what `meter` holds, then commits its effects or
    /// reports its error.
    pub fn finish_session(&mut self, meter: GasMeter, session: SessionOutcome, gas: Gas) -> (r: Result<
        VmResult,
        FatalError,
    >)
        requires
            old(self).wf(),
            meter.wf(),
            meter.max == gas.max_gas_amount,
            session_canonical(session),
        ensures
            final(self).wf(),
            final(self).cost_table_spec() == old(self).cost_table_spec(),
            transaction_spec(
                session_step(gas, meter.used_spec(), session),
                session,
                old(self)@,
                final(self)@,
                r,
            ),
    {
        let mut meter = meter;
        if meter.charge(session.gas_charged).is_err() {
            return Ok(VmResult::new(OUT_OF_GAS, None, meter.used()));
        }
        let used = meter.used();
        match session.result {
            Err(e) => Ok(VmResult::new(e.major_status, e.sub_status, used)),
            Ok(effects) => match self.commit_effects(effects) {
                Ok(()) => Ok(VmResult::new(EXECUTED, None, used)),
                Err(err) => Err(err),
            },
        }
    }

    /// The checks of publishing that come before its session: both intrinsic
    /// charges, the header and the sender. `Ok` holds the meter to run the
    /// session under, and then to pass to `finish_session`; `Err` the final
    /// result, and no session is to run.
    pub fn publish_module(&self, gas: Gas, module: &ModuleTx) -> (r: Result<GasMeter, VmResult>)
        ensures
            match publish_pre(self.cost_table_spec(), gas, module.code@, module.sender.0) {
                Ok(spent) => r matches Ok(m) && m.wf() && m.max == gas.max_gas_amount
                    && m.used_spec() == spent,
                Err(res) => r == Err::<GasMeter, VmResult>(res),
            },
    {
        let mut meter = GasMeter::new(gas.max_gas_amount());
        let size = module.code.len() as u64;
        if meter.charge_intrinsic(self.cost_table, size).is_err() {
            return Err(VmResult::new(OUT_OF_GAS, None, meter.used()));
        }
        let id = match ModuleId::from_header(module.code.as_slice()) {
            Some(id) => id,
            None => {
                return Err(VmResult::new(MALFORMED_MODULE, None, meter.used()));
            },
        };
        if id.address != module.sender {
            return Err(VmResult::new(MODULE_ADDRESS_DOES_NOT_MATCH_SENDER, None, meter.used()));
        }
        if meter.charge_intrinsic(self.cost_table, size).is_err() {
            return Err(VmResult::new(OUT_OF_GAS, None, meter.used()));
        }
        Ok(meter)
    }

    /// Ends a script transaction. The interpreter ran the script `tx` in
    /// `context` on the whole budget and reported `session`; the engine
    /// itself reads neither `context` nor `tx`.
    pub fn execute_script(
        &mut self,
        gas: Gas,
        context: ExecutionContext,
        tx: ScriptTx,
        session: SessionOutcome,
    ) -> (r: Result<VmResult, FatalError>)
        requires
            old(self).wf(),
            session_canonical(session),
        ensures
            final(self).wf(),
            final(self).cost_table_spec() == old(self).cost_table_spec(),
            transaction_spec(execute_step(gas, session), session, old(self)@, final(self)@, r),
    {
        let meter = GasMeter::new(gas.max_gas_amount());
        self.finish_session(meter, session, gas)
    }
}

} // verus!
