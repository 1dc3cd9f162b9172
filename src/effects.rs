//! The effects of one execution and their commit: storage writes and deletes,
//! module code, events and balance movements, in four ordered phases.
use vstd::prelude::*;
use crate::access_path::{
    AccessPath, ModuleId, ModuleIdModel, StructTag, TypeTag, TypeTagModel, code_path_spec,
    resource_path_spec,
};
use crate::bank::{Bank, BalanceKey, amount_or_zero};
use crate::codec::{AccountAddress, Layout, Value, encodable, encode_spec, encode_value};
use crate::store::{StateStore, StoreKey};
use crate::types::FatalError;

verus! {

/// A resource of type `tag` under `address` is written (`Some`) or deleted (`None`).
pub struct ResourceChange {
    pub address: AccountAddress,
    pub tag: StructTag,
    pub value: Option<(Layout, Value)>,
}

/// The code of a module, always inserted.
pub struct ModuleWrite {
    pub id: ModuleId,
    pub code: Vec<u8>,
}

/// An event as the interpreter emits it.
pub struct EventData {
    pub address: AccountAddress,
    pub type_tag: TypeTag,
    pub layout: Layout,
    pub value: Value,
    pub caller: Option<ModuleId>,
}

/// An event as the event handler receives it: its payload is encoded.
#[derive(Debug, PartialEq, Eq)]
pub struct EventRecord {
    pub address: AccountAddress,
    pub type_tag: TypeTag,
    pub payload: Vec<u8>,
    pub caller: Option<ModuleId>,
}

/// A balance movement: `Deposit` takes from the account, `Withdraw` adds to it.
#[derive(Clone, Copy, Debug, PartialEq, Eq, Structural)]
pub enum BalanceOperation {
    Deposit(u128),
    Withdraw(u128),
}

/// The balance a movement applies to.
#[derive(Clone, Debug)]
pub struct WalletId {
    pub address: AccountAddress,
    pub ticker: String,
}

#[derive(Clone, Debug)]
pub struct BalanceOp {
    pub wallet: WalletId,
    pub op: BalanceOperation,
}

/// Everything one session produced, each part in the interpreter's canonical
/// order, which the commit keeps.
pub struct TransactionEffects {
    pub resources: Vec<ResourceChange>,
    pub modules: Vec<ModuleWrite>,
    pub events: Vec<EventData>,
    pub balance_ops: Vec<BalanceOp>,
}

/// A mutation of the store.
pub ghost enum StorageOpModel {
    Insert(StoreKey, Seq<u8>),
    Remove(StoreKey),
}

pub ghost struct EventRecordModel {
    pub address: u128,
    pub type_tag: TypeTagModel,
    pub payload: Seq<u8>,
    pub caller: Option<ModuleIdModel>,
}

pub open spec fn caller_model(c: Option<ModuleId>) -> Option<ModuleIdModel> {
    match c {
        Some(m) => Some(m@),
        None => None,
    }
}

impl View for EventRecord {
    type V = EventRecordModel;

    open spec fn view(&self) -> EventRecordModel {
        EventRecordModel {
            address: self.address.0,
            type_tag: self.type_tag@,
            payload: self.payload@,
            caller: caller_model(self.caller),
        }
    }
}

pub open spec fn records_model(rs: Seq<EventRecord>) -> Seq<EventRecordModel> {
    rs.map_values(|r: EventRecord| r@)
}

/// The store mutation of one resource change.
pub open spec fn resource_op_spec(c: ResourceChange) -> StorageOpModel {
    let key = (c.address.0, resource_path_spec(c.tag@));
    match c.value {
        Some((_, v)) => StorageOpModel::Insert(key, encode_spec(v@)),
        None => StorageOpModel::Remove(key),
    }
}

/// The store mutation of one module write.
pub open spec fn module_op_spec(m: ModuleWrite) -> StorageOpModel {
    StorageOpModel::Insert((m.id.address.0, code_path_spec(m.id@)), m.code@)
}

pub open spec fn resource_ops(s: Seq<ResourceChange>) -> Seq<StorageOpModel> {
    s.map_values(|c: ResourceChange| resource_op_spec(c))
}

pub open spec fn module_ops(s: Seq<ModuleWrite>) -> Seq<StorageOpModel> {
    s.map_values(|m: ModuleWrite| module_op_spec(m))
}

/// The store mutations of a set of effects: resources first, then modules.
pub open spec fn storage_ops_spec(e: TransactionEffects) -> Seq<StorageOpModel> {
    resource_ops(e.resources@) + module_ops(e.modules@)
}

pub open spec fn change_encodable(c: ResourceChange) -> bool {
    &&& c.tag.wf()
    &&& match c.value {
        Some((l, v)) => encodable(v@, l),
        None => true,
    }
}

/// Every resource change has a key and a value that can be encoded.
pub open spec fn resources_encodable(e: TransactionEffects) -> bool {
    forall|i: int| 0 <= i < e.resources@.len() ==> change_encodable(#[trigger] e.resources@[i])
}

pub open spec fn event_encodable(ev: EventData) -> bool {
    encodable(ev.value@, ev.layout)
}

pub open spec fn all_events_encodable(s: Seq<EventData>) -> bool {
    forall|i: int| 0 <= i < s.len() ==> event_encodable(#[trigger] s[i])
}

/// Every event payload can be encoded under its layout.
pub open spec fn events_encodable(e: TransactionEffects) -> bool {
    all_events_encodable(e.events@)
}

/// The record the event handler receives for one event.
pub open spec fn event_record_spec(ev: EventData) -> EventRecordModel {
    EventRecordModel {
        address: ev.address.0,
        type_tag: ev.type_tag@,
        payload: encode_spec(ev.value@),
        caller: caller_model(ev.caller),
    }
}

pub open spec fn event_records(s: Seq<EventData>) -> Seq<EventRecordModel> {
    s.map_values(|ev: EventData| event_record_spec(ev))
}

pub open spec fn events_spec(e: TransactionEffects) -> Seq<EventRecordModel> {
    event_records(e.events@)
}

proof fn lemma_resource_ops_push(r: Seq<ResourceChange>, c: ResourceChange)
    ensures
        resource_ops(r.push(c)) == resource_ops(r).push(resource_op_spec(c)),
{
    assert(resource_ops(r.push(c)) =~= resource_ops(r).push(resource_op_spec(c)));
}

proof fn lemma_module_ops_push(m: Seq<ModuleWrite>, w: ModuleWrite)
    ensures
        module_ops(m.push(w)) == module_ops(m).push(module_op_spec(w)),
{
    assert(module_ops(m.push(w)) =~= module_ops(m).push(module_op_spec(w)));
}

proof fn lemma_event_records_push(evs: Seq<EventData>, ev: EventData)
    ensures
        event_records(evs.push(ev)) == event_records(evs).push(event_record_spec(ev)),
{
    assert(event_records(evs.push(ev)) =~= event_records(evs).push(event_record_spec(ev)));
}

proof fn lemma_records_model_push(rs: Seq<EventRecord>, rec: EventRecord)
    ensures
        records_model(rs.push(rec)) == records_model(rs).push(rec@),
{
    assert(records_model(rs.push(rec)) =~= records_model(rs).push(rec@));
}

proof fn lemma_apply_ops_push(m: Map<StoreKey, Seq<u8>>, ops: Seq<StorageOpModel>, op: StorageOpModel)
    ensures
        apply_ops(m, ops.push(op)) == apply_op(apply_ops(m, ops), op),
{
    assert(ops.push(op).drop_last() =~= ops);
}

/// `j` is the first resource change that cannot be encoded.
pub open spec fn first_bad_change(s: Seq<ResourceChange>, j: int) -> bool {
    0 <= j < s.len() && !change_encodable(s[j]) && forall|k: int|
        0 <= k < j ==> change_encodable(#[trigger] s[k])
}

/// `j` is the first event whose payload cannot be encoded.
pub open spec fn first_bad_event(s: Seq<EventData>, j: int) -> bool {
    0 <= j < s.len() && !event_encodable(s[j]) && forall|k: int|
        0 <= k < j ==> event_encodable(#[trigger] s[k])
}

/// Order of store keys: by account, then by path bytes, lexicographically.
pub open spec fn bytes_lt(a: Seq<u8>, b: Seq<u8>) -> bool
    decreases a.len(),
{
    if a.len() == 0 {
        b.len() > 0
    } else if b.len() == 0 {
        false
    } else if a[0] != b[0] {
        a[0] < b[0]
    } else {
        bytes_lt(a.drop_first(), b.drop_first())
    }
}

pub open spec fn key_lt(a: StoreKey, b: StoreKey) -> bool {
    a.0 < b.0 || (a.0 == b.0 && bytes_lt(a.1, b.1))
}

pub open spec fn op_key(op: StorageOpModel) -> StoreKey {
    match op {
        StorageOpModel::Insert(k, _) => k,
        StorageOpModel::Remove(k) => k,
    }
}

/// The resource changes, and the module writes, come in strictly ascending
/// key order: the canonical order in which every node commits them.
pub open spec fn canonical_order(e: TransactionEffects) -> bool {
    &&& forall|i: int, j: int|
        0 <= i < j < e.resources@.len() ==> key_lt(
            op_key(resource_op_spec(#[trigger] e.resources@[i])),
            op_key(resource_op_spec(#[trigger] e.resources@[j])),
        )
    &&& forall|i: int, j: int|
        0 <= i < j < e.modules@.len() ==> key_lt(
            op_key(module_op_spec(#[trigger] e.modules@[i])),
            op_key(module_op_spec(#[trigger] e.modules@[j])),
        )
}

pub open spec fn apply_op(m: Map<StoreKey, Seq<u8>>, op: StorageOpModel) -> Map<StoreKey, Seq<u8>> {
    match op {
        StorageOpModel::Insert(k, v) => m.insert(k, v),
        StorageOpModel::Remove(k) => m.remove(k),
    }
}

/// The store after `ops`, applied in order.
pub open spec fn apply_ops(m: Map<StoreKey, Seq<u8>>, ops: Seq<StorageOpModel>) -> Map<
    StoreKey,
    Seq<u8>,
>
    decreases ops.len(),
{
    if ops.len() == 0 {
        m
    } else {
        apply_op(apply_ops(m, ops.drop_last()), ops.last())
    }
}

pub open spec fn wallet_key(op: BalanceOp) -> BalanceKey {
    (op.wallet.address.0, op.wallet.ticker@)
}

/// The balances after one movement, or `None` where it would underflow or
/// overflow.
pub open spec fn bank_step(m: Map<BalanceKey, u128>, op: BalanceOp) -> Option<Map<BalanceKey, u128>> {
    let k = wallet_key(op);
    let cur = amount_or_zero(m, k);
    match op.op {
        BalanceOperation::Deposit(a) => if cur >= a {
            Some(m.insert(k, (cur - a) as u128))
        } else {
            None
        },
        BalanceOperation::Withdraw(a) => if cur + a <= u128::MAX {
            Some(m.insert(k, (cur + a) as u128))
        } else {
            None
        },
    }
}

/// The error a failing movement raises.
pub open spec fn step_error(op: BalanceOp) -> FatalError {
    match op.op {
        BalanceOperation::Deposit(_) => FatalError::BalanceUnderflow,
        BalanceOperation::Withdraw(_) => FatalError::BalanceOverflow,
    }
}

/// The balances after `ops` in order, or `None` where one of them fails.
pub open spec fn bank_fold(m: Map<BalanceKey, u128>, ops: Seq<BalanceOp>) -> Option<
    Map<BalanceKey, u128>,
>
    decreases ops.len(),
{
    if ops.len() == 0 {
        Some(m)
    } else {
        match bank_fold(m, ops.drop_last()) {
            Some(m2) => bank_step(m2, ops.last()),
            None => None,
        }
    }
}

/// Commits the resource changes, then the module writes, one at a time in
/// their canonical order. A value that cannot be encoded stops the commit
/// there: the changes before it stay written and nothing after it is.
pub fn commit_storage(store: &mut StateStore, e: &TransactionEffects) -> (r: Result<(), FatalError>)
    requires
        old(store).wf(),
        canonical_order(*e),
    ensures
        final(store).wf(),
        resources_encodable(*e) <==> r is Ok,
        r is Ok ==> final(store)@ == apply_ops(old(store)@, storage_ops_spec(*e)),
        r matches Err(err) ==> err == FatalError::SerializationInvariantViolation && exists|j: int|
            first_bad_change(e.resources@, j) && final(store)@ == apply_ops(
                old(store)@,
                resource_ops(e.resources@.take(j)),
            ),
{
    let mut i: usize = 0;
    assert(resource_ops(e.resources@.take(0)) =~= Seq::<StorageOpModel>::empty());
    while i < e.resources.len()
        invariant
            i <= e.resources@.len(),
            store.wf(),
            store@ == apply_ops(old(store)@, resource_ops(e.resources@.take(i as int))),
            forall|j: int| 0 <= j < i ==> change_encodable(#[trigger] e.resources@[j]),
        decreases e.resources@.len() - i,
    {
        let c = &e.resources[i];
        if c.tag.type_params.len() > crate::codec::MAX_BYTES_LEN {
            assert(first_bad_change(e.resources@, i as int));
            return Err(FatalError::SerializationInvariantViolation);
        }
        let ap = AccessPath::new(c.address, AccessPath::resource_access_vec(&c.tag));
        let ghost before = store@;
        match &c.value {
            Some((layout, v)) => match encode_value(v, *layout) {
                Some(blob) => {
                    store.insert(ap, blob);
                },
                None => {
                    assert(first_bad_change(e.resources@, i as int));
                    return Err(FatalError::SerializationInvariantViolation);
                },
            },
            None => {
                store.remove(ap);
            },
        }
        proof {
            assert(store@ == apply_op(before, resource_op_spec(e.resources@[i as int])));
            assert(e.resources@.take(i + 1) =~= e.resources@.take(i as int).push(e.resources@[i as int]));
            lemma_resource_ops_push(e.resources@.take(i as int), e.resources@[i as int]);
            lemma_apply_ops_push(old(store)@, resource_ops(e.resources@.take(i as int)), resource_op_spec(e.resources@[i as int]));
        }
        i = i + 1;
    }
    assert(e.resources@.take(i as int) =~= e.resources@);
    let ghost head = resource_ops(e.resources@);
    let mut k: usize = 0;
    assert(head + module_ops(e.modules@.take(0)) =~= head);
    while k < e.modules.len()
        invariant
            k <= e.modules@.len(),
            store.wf(),
            head == resource_ops(e.resources@),
            store@ == apply_ops(old(store)@, head + module_ops(e.modules@.take(k as int))),
        decreases e.modules@.len() - k,
    {
        let m = &e.modules[k];
        let ap = AccessPath::new(m.id.address, AccessPath::code_access_vec(&m.id));
        let ghost before = store@;
        store.insert(ap, m.code.clone());
        proof {
            let w = e.modules@[k as int];
            assert(e.modules@.take(k + 1) =~= e.modules@.take(k as int).push(w));
            lemma_module_ops_push(e.modules@.take(k as int), w);
            assert(head + module_ops(e.modules@.take(k + 1)) =~= (head + module_ops(
                e.modules@.take(k as int),
            )).push(module_op_spec(w)));
            lemma_apply_ops_push(old(store)@, head + module_ops(e.modules@.take(k as int)), module_op_spec(w));
        }
        k = k + 1;
    }
    assert(e.modules@.take(k as int) =~= e.modules@);
    Ok(())
}

/// Delivers the events to `log` one at a time, in emission order, each with
/// its payload encoded. A payload that cannot be encoded stops the delivery
/// there: the events before it stay delivered.
pub fn deliver_events(log: &mut Vec<EventRecord>, events: Vec<EventData>) -> (r: Result<(), FatalError>)
    ensures
        all_events_encodable(events@) <==> r is Ok,
        r is Ok ==> records_model(final(log)@) == records_model(old(log)@) + event_records(events@),
        r matches Err(err) ==> err == FatalError::SerializationInvariantViolation && exists|j: int|
            first_bad_event(events@, j) && records_model(final(log)@) == records_model(old(log)@)
                + event_records(events@.take(j)),
{
    let ghost all = events@;
    let n = events.len();
    let mut rest = events;
    let mut done: usize = 0;
    assert(records_model(log@) + event_records(all.take(0)) =~= records_model(log@));
    while rest.len() > 0
        invariant
            done + rest@.len() == all.len(),
            all.len() == n,
            all == events@,
            rest@ == all.skip(done as int),
            records_model(log@) == records_model(old(log)@) + event_records(all.take(done as int)),
            forall|j: int| 0 <= j < done ==> event_encodable(#[trigger] all[j]),
        decreases rest@.len(),
    {
        let ev = rest.remove(0);
        assert(ev == all[done as int]);
        assert(rest@ =~= all.skip(done + 1));
        let payload = match encode_value(&ev.value, ev.layout) {
            Some(p) => p,
            None => {
                assert(first_bad_event(all, done as int));
                return Err(FatalError::SerializationInvariantViolation);
            },
        };
        let record = EventRecord { address: ev.address, type_tag: ev.type_tag, payload, caller: ev.caller };
        assert(record@ == event_record_spec(all[done as int]));
        let ghost prev = log@;
        log.push(record);
        proof {
            assert(all.take(done + 1) =~= all.take(done as int).push(all[done as int]));
            lemma_records_model_push(prev, record);
            lemma_event_records_push(all.take(done as int), all[done as int]);
            assert(records_model(log@) =~= records_model(old(log)@) + event_records(all.take(done + 1)));
        }
        done = done + 1;
    }
    assert(all.take(done as int) =~= all);
    Ok(())
}

/// Applies balance movements in order. Where one fails, those before it
/// stay applied and its fatal error is returned.
pub fn apply_balance_ops(bank: &mut Bank, ops: &Vec<BalanceOp>) -> (r: Result<(), FatalError>)
    requires
        old(bank).wf(),
    ensures
        final(bank).wf(),
        bank_fold(old(bank)@, ops@) is Some <==> r is Ok,
        r is Ok ==> bank_fold(old(bank)@, ops@) == Some(final(bank)@),
        r matches Err(err) ==> exists|j: int|
            0 <= j < ops@.len() && bank_fold(old(bank)@, ops@.take(j)) == Some(final(bank)@)
                && bank_step(final(bank)@, #[trigger] ops@[j]) is None && err == step_error(ops@[j]),
{
    let mut i: usize = 0;
    assert(ops@.take(0) =~= Seq::<BalanceOp>::empty());
    while i < ops.len()
        invariant
            i <= ops@.len(),
            bank.wf(),
            bank_fold(old(bank)@, ops@.take(i as int)) == Some(bank@),
        decreases ops@.len() - i,
    {
        let op = &ops[i];
        assert(ops@.take(i + 1).drop_last() =~= ops@.take(i as int));
        let res = match op.op {
            BalanceOperation::Deposit(a) => bank.deposit(op.wallet.address, op.wallet.ticker.as_str(), a),
            BalanceOperation::Withdraw(a) => bank.withdraw(op.wallet.address, op.wallet.ticker.as_str(), a),
        };
        if res.is_err() {
            proof {
                lemma_fold_stops(old(bank)@, ops@, (i + 1) as int);
            }
            return res;
        }
        i = i + 1;
    }
    assert(ops@.take(i as int) =~= ops@);
    Ok(())
}

proof fn lemma_fold_stops(m: Map<BalanceKey, u128>, ops: Seq<BalanceOp>, n: int)
    requires
        0 < n <= ops.len(),
        bank_fold(m, ops.take(n)) is None,
    ensures
        bank_fold(m, ops) is None,
    decreases ops.len() - n,
{
    if n < ops.len() {
        assert(ops.take(n + 1).drop_last() =~= ops.take(n));
        lemma_fold_stops(m, ops, n + 1);
    } else {
        assert(ops.take(n) =~= ops);
    }
}

/// Balances stay within their range through any sequence of movements: a
/// debit beyond the balance it takes from is never clamped, it ends the
/// sequence on the fatal path, and the movements before it stay applied.
pub proof fn lemma_over_debit_is_fatal(m: Map<BalanceKey, u128>, ops: Seq<BalanceOp>, j: int)
    requires
        0 <= j < ops.len(),
        bank_fold(m, ops.take(j)) is Some,
        ops[j].op matches BalanceOperation::Deposit(a) && a > amount_or_zero(
            bank_fold(m, ops.take(j)).unwrap(),
            wallet_key(ops[j]),
        ),
    ensures
        bank_step(bank_fold(m, ops.take(j)).unwrap(), ops[j]) is None,
        step_error(ops[j]) == FatalError::BalanceUnderflow,
        bank_fold(m, ops.take(j + 1)) is None,
        bank_fold(m, ops) is None,
{
    assert(ops.take(j + 1).drop_last() =~= ops.take(j));
    lemma_fold_stops(m, ops, j + 1);
}

/// Counting law of a commit: the store sees one mutation per resource change
/// and per module write, in that order, and the event handler and the bank see
/// one call per event and per balance movement, in emission order.
pub proof fn lemma_commit_counts(e: TransactionEffects)
    ensures
        storage_ops_spec(e).len() == e.resources@.len() + e.modules@.len(),
        forall|i: int|
            0 <= i < e.resources@.len() ==> #[trigger] storage_ops_spec(e)[i] == resource_op_spec(
                e.resources@[i],
            ),
        forall|i: int|
            0 <= i < e.modules@.len() ==> #[trigger] storage_ops_spec(e)[e.resources@.len() + i]
                == module_op_spec(e.modules@[i]),
        events_spec(e).len() == e.events@.len(),
        forall|i: int|
            0 <= i < e.events@.len() ==> #[trigger] events_spec(e)[i] == event_record_spec(
                e.events@[i],
            ),
{
}

} // verus!
