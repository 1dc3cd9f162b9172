use mvm::access_path::{AccessPath, Identifier, ModuleId, StructTag};
use mvm::codec::{assert_canonical_encode_decode, AccountAddress, Layout, Value};
use mvm::dvm::Dvm;
use mvm::effects::{ModuleWrite, ResourceChange, TransactionEffects};
use mvm::engine::{ScriptTx, SessionOutcome, VmError};
use mvm::store::StateStore;
use mvm::types::{
    Gas, ModuleTx, DEFAULT_INTRINSIC_GAS_PER_BYTE, MODULE_ADDRESS_DOES_NOT_MATCH_SENDER,
    OUT_OF_GAS, UNKNOWN_INVARIANT_VIOLATION_ERROR,
};

fn module_code(addr: u128, name: &str) -> Vec<u8> {
    let mut code = addr.to_le_bytes().to_vec();
    code.extend_from_slice(&(name.len() as u32).to_le_bytes());
    code.extend_from_slice(name.as_bytes());
    code
}

fn tag() -> StructTag {
    StructTag {
        address: AccountAddress(1),
        module: Identifier::new("M").unwrap(),
        name: Identifier::new("R").unwrap(),
        type_params: vec![],
    }
}

fn script() -> ScriptTx {
    ScriptTx { code: vec![0], args: vec![Value::U64(1)], type_args: vec![], senders: vec![] }
}

fn publish(vm: &mut Dvm, gas: Gas, tx: ModuleTx, outcome: SessionOutcome) -> Result<(), VmError> {
    let meter = vm.publish_module(gas, &tx)?;
    vm.finish_session(meter, outcome, gas)
}

#[test]
fn dvm_publishes_and_stores_code() {
    let mut vm = Dvm::new(StateStore::new());
    let code = module_code(4, "Mod");
    let id = ModuleId { address: AccountAddress(4), name: Identifier::new("Mod").unwrap() };
    let effects = TransactionEffects {
        resources: vec![],
        modules: vec![ModuleWrite { id, code: code.clone() }],
        events: vec![],
        balance_ops: vec![],
    };
    let budget = 2 * DEFAULT_INTRINSIC_GAS_PER_BYTE * code.len() as u64;
    let r = publish(&mut vm, Gas::new(budget), ModuleTx::new(code.clone(), AccountAddress(4)), SessionOutcome { gas_charged: 0, result: Ok(effects) });
    assert_eq!(r, Ok(()));
    let key_id = ModuleId { address: AccountAddress(4), name: Identifier::new("Mod").unwrap() };
    let key = AccessPath::new(AccountAddress(4), AccessPath::code_access_vec(&key_id));
    assert_eq!(vm.store().get(&key), Some(code));
}

#[test]
fn dvm_reports_errors() {
    let mut vm = Dvm::new(StateStore::new());
    let code = module_code(4, "Mod");
    let empty = || TransactionEffects { resources: vec![], modules: vec![], events: vec![], balance_ops: vec![] };
    let r = publish(&mut vm, Gas::new(10_000), ModuleTx::new(code.clone(), AccountAddress(5)), SessionOutcome { gas_charged: 0, result: Ok(empty()) });
    assert_eq!(r, Err(VmError { major_status: MODULE_ADDRESS_DOES_NOT_MATCH_SENDER, sub_status: None }));
    let r = publish(&mut vm, Gas::new(1), ModuleTx::new(code, AccountAddress(4)), SessionOutcome { gas_charged: 0, result: Ok(empty()) });
    assert_eq!(r, Err(VmError { major_status: OUT_OF_GAS, sub_status: None }));
    let r = vm.execute_script(Gas::new(5), script(), SessionOutcome { gas_charged: 1, result: Err(VmError { major_status: 4008, sub_status: None }) });
    assert_eq!(r, Err(VmError { major_status: 4008, sub_status: None }));
}

#[test]
fn dvm_script_writes_resource_or_reports_invariant_violation() {
    let mut vm = Dvm::new(StateStore::new());
    let good = TransactionEffects {
        resources: vec![ResourceChange { address: AccountAddress(9), tag: tag(), value: Some((Layout::U8, Value::U8(1))) }],
        modules: vec![],
        events: vec![],
        balance_ops: vec![],
    };
    assert_eq!(vm.execute_script(Gas::new(5), script(), SessionOutcome { gas_charged: 1, result: Ok(good) }), Ok(()));
    let key = AccessPath::new(AccountAddress(9), AccessPath::resource_access_vec(&tag()));
    assert_eq!(vm.store().get(&key), Some(vec![1]));
    let bad = TransactionEffects {
        resources: vec![ResourceChange { address: AccountAddress(9), tag: tag(), value: Some((Layout::U8, Value::U64(1))) }],
        modules: vec![],
        events: vec![],
        balance_ops: vec![],
    };
    assert_eq!(
        vm.execute_script(Gas::new(5), script(), SessionOutcome { gas_charged: 1, result: Ok(bad) }),
        Err(VmError { major_status: UNKNOWN_INVARIANT_VIOLATION_ERROR, sub_status: None })
    );
    assert_eq!(vm.store().get(&key), Some(vec![1]));
}

#[test]
fn canonical_encode_decode_gives_the_value_back() {
    let v = Value::Bytes(vec![5, 6, 7]);
    assert_eq!(assert_canonical_encode_decode(&v, Layout::Bytes), v);
    let v = Value::Address(AccountAddress(0xA550C18));
    assert_eq!(assert_canonical_encode_decode(&v, Layout::Address), v);
}
