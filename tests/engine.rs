use mvm::access_path::{AccessPath, Identifier, ModuleId, StructTag, TypeTag};
use mvm::bank::Bank;
use mvm::codec::{AccountAddress, Layout, Value};
use mvm::effects::{
    BalanceOp, BalanceOperation, EventData, ModuleWrite, ResourceChange,
    TransactionEffects, WalletId,
};
use mvm::engine::{ExecutionContext, Mvm, ScriptTx, SessionOutcome, VmError};
use mvm::gas::CostTable;
use mvm::store::StateStore;
use mvm::types::{
    FatalError, Gas, ModuleTx, VmResult, EXECUTED, MALFORMED_MODULE,
    MODULE_ADDRESS_DOES_NOT_MATCH_SENDER, OUT_OF_GAS,
};

fn ident(s: &str) -> Identifier {
    Identifier::new(s).unwrap()
}

fn module_code(addr: u128, name: &str) -> Vec<u8> {
    let mut code = addr.to_le_bytes().to_vec();
    code.extend_from_slice(&(name.len() as u32).to_le_bytes());
    code.extend_from_slice(name.as_bytes());
    code.extend_from_slice(&[0xCA, 0xFE]);
    code
}

fn publish(vm: &mut Mvm, gas: Gas, tx: ModuleTx, outcome: SessionOutcome) -> Result<VmResult, FatalError> {
    match vm.publish_module(gas, &tx) {
        Err(res) => Ok(res),
        Ok(meter) => vm.finish_session(meter, outcome, gas),
    }
}

fn engine() -> Mvm {
    Mvm::with_cost_table(CostTable { intrinsic_gas_per_byte: 1 }, StateStore::new(), Bank::new())
}

fn no_effects() -> TransactionEffects {
    TransactionEffects { resources: vec![], modules: vec![], events: vec![], balance_ops: vec![] }
}

fn script() -> ScriptTx {
    ScriptTx { code: vec![1, 2, 3], args: vec![], type_args: vec![], senders: vec![AccountAddress(1)] }
}

fn counter_tag() -> StructTag {
    StructTag { address: AccountAddress(1), module: ident("Counter"), name: ident("T"), type_params: vec![] }
}

fn counter_path(owner: u128) -> AccessPath {
    AccessPath::new(AccountAddress(owner), AccessPath::resource_access_vec(&counter_tag()))
}

fn event(value: u64) -> EventData {
    EventData {
        address: AccountAddress(1),
        type_tag: TypeTag::U64,
        layout: Layout::U64,
        value: Value::U64(value),
        caller: None,
    }
}

#[test]
fn publish_with_foreign_address_is_refused() {
    let mut vm = engine();
    let code = module_code(2, "Foo");
    let len = code.len() as u64;
    let outcome = SessionOutcome { gas_charged: 0, result: Ok(no_effects()) };
    let r = publish(&mut vm, Gas::new(1000), ModuleTx::new(code, AccountAddress(3)), outcome).unwrap();
    assert_eq!(r.status_code, MODULE_ADDRESS_DOES_NOT_MATCH_SENDER);
    assert_eq!(r.gas_used, len);
    assert!(r.gas_used > 0);
    let id = ModuleId { address: AccountAddress(2), name: ident("Foo") };
    let key = AccessPath::new(AccountAddress(2), AccessPath::code_access_vec(&id));
    assert!(vm.store().get(&key).is_none());
    assert!(vm.store().get(&counter_path(1)).is_none());
    assert!(vm.events().is_empty());
}

#[test]
fn malformed_module_is_refused() {
    let mut vm = engine();
    let outcome = SessionOutcome { gas_charged: 0, result: Ok(no_effects()) };
    let r = publish(&mut vm, Gas::new(1000), ModuleTx::new(vec![1, 2, 3], AccountAddress(3)), outcome).unwrap();
    assert_eq!(r, VmResult::new(MALFORMED_MODULE, None, 3));
}

#[test]
fn publish_charges_the_size_twice_and_writes_the_code() {
    let mut vm = engine();
    let code = module_code(2, "Foo");
    let len = code.len() as u64;
    let id = ModuleId { address: AccountAddress(2), name: ident("Foo") };
    let effects = TransactionEffects {
        resources: vec![],
        modules: vec![ModuleWrite { id, code: code.clone() }],
        events: vec![],
        balance_ops: vec![],
    };
    let outcome = SessionOutcome { gas_charged: 4, result: Ok(effects) };
    let r = publish(&mut vm, Gas::new(1000), ModuleTx::new(code.clone(), AccountAddress(2)), outcome).unwrap();
    assert_eq!(r, VmResult::new(EXECUTED, None, 2 * len + 4));
    let key_id = ModuleId { address: AccountAddress(2), name: ident("Foo") };
    let key = AccessPath::new(AccountAddress(2), AccessPath::code_access_vec(&key_id));
    assert_eq!(vm.store().get(&key), Some(code));
}

#[test]
fn second_charge_can_run_out() {
    let mut vm = engine();
    let code = module_code(2, "Foo");
    let len = code.len() as u64;
    let outcome = SessionOutcome { gas_charged: 0, result: Ok(no_effects()) };
    let r = publish(&mut vm, Gas::new(len + 1), ModuleTx::new(code, AccountAddress(2)), outcome).unwrap();
    assert_eq!(r, VmResult::new(OUT_OF_GAS, None, len + 1));
}

#[test]
fn script_over_a_one_unit_budget_runs_out() {
    let mut vm = engine();
    let effects = TransactionEffects {
        resources: vec![ResourceChange { address: AccountAddress(1), tag: counter_tag(), value: Some((Layout::U64, Value::U64(1))) }],
        modules: vec![],
        events: vec![],
        balance_ops: vec![],
    };
    let outcome = SessionOutcome { gas_charged: 5, result: Ok(effects) };
    let r = vm.execute_script(Gas::new(1), ExecutionContext::new(100, 100), script(), outcome).unwrap();
    assert_eq!(r.status_code, OUT_OF_GAS);
    assert_eq!(r.gas_used, 1);
    assert!(vm.store().get(&counter_path(1)).is_none());
}

#[test]
fn script_with_two_events_and_one_write_commits() {
    let mut vm = engine();
    let effects = TransactionEffects {
        resources: vec![ResourceChange { address: AccountAddress(1), tag: counter_tag(), value: Some((Layout::U64, Value::U64(9))) }],
        modules: vec![],
        events: vec![event(1), event(2)],
        balance_ops: vec![],
    };
    let outcome = SessionOutcome { gas_charged: 10, result: Ok(effects) };
    let r = vm.execute_script(Gas::new(100), ExecutionContext::new(1, 2), script(), outcome).unwrap();
    assert_eq!(r, VmResult::new(EXECUTED, None, 10));
    let events = vm.events();
    assert_eq!(events.len(), 2);
    assert_eq!(events[0].payload, vec![1, 0, 0, 0, 0, 0, 0, 0]);
    assert_eq!(events[1].payload, vec![2, 0, 0, 0, 0, 0, 0, 0]);
    assert_eq!(vm.store().get(&counter_path(1)), Some(vec![9, 0, 0, 0, 0, 0, 0, 0]));
}

#[test]
fn interpreter_error_passes_through() {
    let mut vm = engine();
    let outcome = SessionOutcome { gas_charged: 7, result: Err(VmError { major_status: 4016, sub_status: Some(3) }) };
    let r = vm.execute_script(Gas::new(100), ExecutionContext::new(1, 2), script(), outcome).unwrap();
    assert_eq!(r, VmResult::new(4016, Some(3), 7));
    assert!(vm.events().is_empty());
}

#[test]
fn delete_removes_and_balances_move_in_order() {
    let mut vm = engine();
    let write = TransactionEffects {
        resources: vec![ResourceChange { address: AccountAddress(1), tag: counter_tag(), value: Some((Layout::Bool, Value::Bool(true))) }],
        modules: vec![],
        events: vec![],
        balance_ops: vec![
            BalanceOp { wallet: WalletId { address: AccountAddress(1), ticker: "X".to_string() }, op: BalanceOperation::Withdraw(15) },
            BalanceOp { wallet: WalletId { address: AccountAddress(1), ticker: "X".to_string() }, op: BalanceOperation::Deposit(10) },
        ],
    };
    let r = vm.execute_script(Gas::new(100), ExecutionContext::new(1, 2), script(), SessionOutcome { gas_charged: 1, result: Ok(write) }).unwrap();
    assert_eq!(r.status_code, EXECUTED);
    assert_eq!(vm.bank().get_balance(AccountAddress(1), "X"), Some(5));
    assert_eq!(vm.store().get(&counter_path(1)), Some(vec![1]));
    let delete = TransactionEffects {
        resources: vec![ResourceChange { address: AccountAddress(1), tag: counter_tag(), value: None }],
        modules: vec![],
        events: vec![],
        balance_ops: vec![],
    };
    vm.execute_script(Gas::new(100), ExecutionContext::new(1, 2), script(), SessionOutcome { gas_charged: 1, result: Ok(delete) }).unwrap();
    assert!(vm.store().get(&counter_path(1)).is_none());
}

#[test]
fn over_debit_in_effects_is_fatal_after_earlier_phases() {
    let mut vm = engine();
    let effects = TransactionEffects {
        resources: vec![ResourceChange { address: AccountAddress(1), tag: counter_tag(), value: Some((Layout::U8, Value::U8(4))) }],
        modules: vec![],
        events: vec![event(3)],
        balance_ops: vec![
            BalanceOp { wallet: WalletId { address: AccountAddress(1), ticker: "X".to_string() }, op: BalanceOperation::Withdraw(15) },
            BalanceOp { wallet: WalletId { address: AccountAddress(1), ticker: "X".to_string() }, op: BalanceOperation::Deposit(10) },
            BalanceOp { wallet: WalletId { address: AccountAddress(1), ticker: "X".to_string() }, op: BalanceOperation::Deposit(10) },
        ],
    };
    let r = vm.execute_script(Gas::new(100), ExecutionContext::new(1, 2), script(), SessionOutcome { gas_charged: 1, result: Ok(effects) });
    assert_eq!(r, Err(FatalError::BalanceUnderflow));
    assert_eq!(vm.bank().get_balance(AccountAddress(1), "X"), Some(5));
    assert_eq!(vm.events().len(), 1);
    assert_eq!(vm.store().get(&counter_path(1)), Some(vec![4]));
}

#[test]
fn unencodable_resource_is_fatal_and_writes_nothing() {
    let mut vm = engine();
    let effects = TransactionEffects {
        resources: vec![ResourceChange { address: AccountAddress(1), tag: counter_tag(), value: Some((Layout::U64, Value::Bool(true))) }],
        modules: vec![],
        events: vec![event(1)],
        balance_ops: vec![],
    };
    let r = vm.execute_script(Gas::new(100), ExecutionContext::new(1, 2), script(), SessionOutcome { gas_charged: 1, result: Ok(effects) });
    assert_eq!(r, Err(FatalError::SerializationInvariantViolation));
    assert!(vm.events().is_empty());
    assert!(vm.store().get(&counter_path(1)).is_none());
}

#[test]
fn unencodable_event_is_fatal_after_the_writes() {
    let mut vm = engine();
    let mut bad = event(1);
    bad.layout = Layout::Bytes;
    let effects = TransactionEffects {
        resources: vec![ResourceChange { address: AccountAddress(1), tag: counter_tag(), value: Some((Layout::U8, Value::U8(2))) }],
        modules: vec![],
        events: vec![event(0), bad],
        balance_ops: vec![],
    };
    let r = vm.execute_script(Gas::new(100), ExecutionContext::new(1, 2), script(), SessionOutcome { gas_charged: 1, result: Ok(effects) });
    assert_eq!(r, Err(FatalError::SerializationInvariantViolation));
    assert_eq!(vm.events().len(), 1);
    assert_eq!(vm.events()[0].payload, vec![0, 0, 0, 0, 0, 0, 0, 0]);
    assert_eq!(vm.store().get(&counter_path(1)), Some(vec![2]));
}

#[test]
fn writes_before_a_bad_resource_stay() {
    let mut vm = engine();
    let effects = TransactionEffects {
        resources: vec![
            ResourceChange { address: AccountAddress(1), tag: counter_tag(), value: Some((Layout::U8, Value::U8(6))) },
            ResourceChange { address: AccountAddress(2), tag: counter_tag(), value: Some((Layout::U8, Value::U64(6))) },
            ResourceChange { address: AccountAddress(3), tag: counter_tag(), value: Some((Layout::U8, Value::U8(7))) },
        ],
        modules: vec![],
        events: vec![event(1)],
        balance_ops: vec![],
    };
    let r = vm.execute_script(Gas::new(100), ExecutionContext::new(1, 2), script(), SessionOutcome { gas_charged: 1, result: Ok(effects) });
    assert_eq!(r, Err(FatalError::SerializationInvariantViolation));
    assert_eq!(vm.store().get(&counter_path(1)), Some(vec![6]));
    assert!(vm.store().get(&counter_path(2)).is_none());
    assert!(vm.store().get(&counter_path(3)).is_none());
    assert!(vm.events().is_empty());
}

#[test]
fn clear_keeps_the_state() {
    let mut vm = engine();
    let effects = TransactionEffects {
        resources: vec![ResourceChange { address: AccountAddress(1), tag: counter_tag(), value: Some((Layout::U8, Value::U8(1))) }],
        modules: vec![],
        events: vec![],
        balance_ops: vec![],
    };
    vm.execute_script(Gas::new(100), ExecutionContext::new(1, 2), script(), SessionOutcome { gas_charged: 1, result: Ok(effects) }).unwrap();
    vm.clear();
    assert_eq!(vm.store().get(&counter_path(1)), Some(vec![1]));
}
