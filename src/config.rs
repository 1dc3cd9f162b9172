//! On-chain configuration: the registry of configuration ids, the storage
//! key each one resolves to, and reading a configuration from storage.
use vstd::prelude::*;
use vstd::string::{StringExecFns, StringSliceAdditionalSpecFns};
use crate::access_path::{
    AccessPath, Identifier, ModuleId, ModuleIdModel, StructTag, StructTagModel, TypeTag,
    TypeTagModel, is_valid_ident, resource_path_spec,
};
use crate::codec::{AccountAddress, Layout, Value, decode_spec, decode_value, ValueModel};
use crate::gas::CostTable;
use crate::store::{StateStore, StoreKey, bytes_eq, key_of};

verus! {

/// The account that holds the on-chain configurations.
pub const CONFIG_ADDRESS_STR: &'static str = "0xA550C18";

/// The account of the core code.
pub const CORE_CODE_ADDRESS: u128 = 1;

/// The value of a hexadecimal digit.
pub open spec fn hex_digit(b: u8) -> Option<nat> {
    if 48 <= b <= 57 {
        Some((b - 48) as nat)
    } else if 97 <= b <= 102 {
        Some((b - 87) as nat)
    } else if 65 <= b <= 70 {
        Some((b - 55) as nat)
    } else {
        None
    }
}

/// The number that the hexadecimal digits `s` spell, most significant first.
pub open spec fn hex_value(s: Seq<u8>) -> nat
    decreases s.len(),
{
    if s.len() == 0 {
        0
    } else {
        hex_value(s.drop_last()) * 16 + hex_digit(s.last()).unwrap_or(0)
    }
}

pub open spec fn pow16(n: nat) -> nat
    decreases n,
{
    if n == 0 {
        1
    } else {
        16 * pow16((n - 1) as nat)
    }
}

/// The address a literal `0x` followed by one to thirty-two hexadecimal
/// digits stands for.
pub open spec fn hex_literal_spec(s: Seq<u8>) -> Option<u128> {
    if 3 <= s.len() <= 34 && s[0] == 48 && s[1] == 120 && (forall|i: int|
        2 <= i < s.len() ==> (#[trigger] hex_digit(s[i])) is Some) {
        Some(hex_value(s.skip(2)) as u128)
    } else {
        None
    }
}

proof fn lemma_pow16(a: nat, b: nat)
    requires
        a <= b,
    ensures
        1 <= pow16(a) <= pow16(b),
    decreases b,
{
    if b > a {
        lemma_pow16(a, (b - 1) as nat);
    } else if a > 0 {
        lemma_pow16((a - 1) as nat, (a - 1) as nat);
    }
}

/// Reads an address literal such as `0x1`.
pub fn parse_hex_literal(s: &str) -> (r: Option<AccountAddress>)
    ensures
        hex_literal_spec(s.spec_bytes()) is None <==> r is None,
        r matches Some(a) ==> hex_literal_spec(s.spec_bytes()) == Some(a.0),
{
    let b = s.as_bytes();
    if b.len() < 3 || b.len() > 34 || b[0] != 48 || b[1] != 120 {
        return None;
    }
    let mut acc: u128 = 0;
    let mut i: usize = 2;
    proof {
        reveal_with_fuel(pow16, 33);
        assert(pow16(32) == 0x1_0000_0000_0000_0000_0000_0000_0000_0000);
        assert(b@.subrange(2, 2) =~= Seq::<u8>::empty());
    }
    while i < b.len()
        invariant
            2 <= i <= b@.len() <= 34,
            b@ == s.spec_bytes(),
            acc as nat == hex_value(b@.subrange(2, i as int)),
            acc < pow16((i - 2) as nat),
            pow16(32) == 0x1_0000_0000_0000_0000_0000_0000_0000_0000,
            forall|j: int| 2 <= j < i ==> (#[trigger] hex_digit(b@[j])) is Some,
        decreases b@.len() - i,
    {
        let c = b[i];
        let d: u128 = if 48 <= c && c <= 57 {
            (c - 48) as u128
        } else if 97 <= c && c <= 102 {
            (c - 87) as u128
        } else if 65 <= c && c <= 70 {
            (c - 55) as u128
        } else {
            assert(hex_digit(b@[i as int]) is None);
            return None;
        };
        proof {
            let prev = b@.subrange(2, i as int);
            let next = b@.subrange(2, i + 1);
            assert(next.drop_last() =~= prev);
            lemma_pow16((i - 1) as nat, 32);
            let p = pow16((i - 2) as nat);
            let a = acc as nat;
            assert(a * 16 + d < 16 * p) by (nonlinear_arith)
                requires
                    a < p,
                    d < 16,
            ;
        }
        acc = acc * 16 + d;
        i = i + 1;
    }
    assert(b@.subrange(2, i as int) =~= b@.skip(2));
    Some(AccountAddress(acc))
}

/// The account that holds the on-chain configurations.
pub fn config_address() -> (r: AccountAddress)
    ensures
        r.0 == 0xA550C18,
{
    AccountAddress(0xA550C18)
}

/// An on-chain configuration: the literal of its account and its identifier.
#[derive(Clone, Copy, Debug, PartialEq, Eq, Hash)]
pub struct ConfigID(pub &'static str, pub &'static str);

/// The bytes of `DiemConfig`, the module and struct that wrap every
/// configuration.
pub open spec fn diem_config_name() -> Seq<u8> {
    seq![68u8, 105, 101, 109, 67, 111, 110, 102, 105, 103]
}

/// The descriptor under which the configuration `name` is stored:
/// `DiemConfig<name>` of the core code account.
pub open spec fn config_tag_spec(name: Seq<u8>) -> StructTagModel {
    StructTagModel {
        address: CORE_CODE_ADDRESS,
        module: diem_config_name(),
        name: diem_config_name(),
        type_params: seq![
            TypeTagModel::Struct(ModuleIdModel { address: CORE_CODE_ADDRESS, name: name }, name),
        ],
    }
}

/// The storage key of a configuration, where its id is well formed.
pub open spec fn config_key_spec(id: ConfigID) -> Option<StoreKey> {
    match hex_literal_spec(id.0.spec_bytes()) {
        Some(a) => if is_valid_ident(id.1.spec_bytes()) {
            Some((a, resource_path_spec(config_tag_spec(id.1.spec_bytes()))))
        } else {
            None
        },
        None => None,
    }
}

fn diem_config_ident() -> (r: Identifier)
    ensures
        r@ == diem_config_name(),
{
    let v: Vec<u8> = vec![68u8, 105, 101, 109, 67, 111, 110, 102, 105, 103];
    assert(v@ =~= diem_config_name());
    assert(is_valid_ident(v@));
    Identifier::from_bytes(v.as_slice()).unwrap()
}

/// The storage key of the configuration `config_name` held by `address`.
pub fn access_path_for_config(address: AccountAddress, config_name: Identifier) -> (r: AccessPath)
    ensures
        r.address == address,
        r.path@ == resource_path_spec(config_tag_spec(config_name@)),
{
    let module_name = Identifier::from_bytes(config_name.as_bytes()).unwrap();
    let tag = StructTag {
        address: AccountAddress(CORE_CODE_ADDRESS),
        module: diem_config_ident(),
        name: diem_config_ident(),
        type_params: vec![
            TypeTag::Struct(
                ModuleId { address: AccountAddress(CORE_CODE_ADDRESS), name: module_name },
                config_name,
            ),
        ],
    };
    assert(tag@.type_params =~= config_tag_spec(tag.name@).type_params.take(0).push(
        tag@.type_params[0],
    ));
    assert(tag@ == config_tag_spec(config_name@)) by {
        assert(tag@.type_params =~= config_tag_spec(config_name@).type_params);
    }
    AccessPath::new(address, AccessPath::resource_access_vec(&tag))
}

impl ConfigID {
    /// The storage key of this configuration; `None` where the account
    /// literal or the identifier is malformed.
    pub fn access_path(self) -> (r: Option<AccessPath>)
        ensures
            config_key_spec(self) is None <==> r is None,
            r matches Some(ap) ==> config_key_spec(self) == Some(key_of(ap)),
    {
        let address = match parse_hex_literal(self.0) {
            Some(a) => a,
            None => { return None; },
        };
        match Identifier::new(self.1) {
            Some(name) => Some(access_path_for_config(address, name)),
            None => None,
        }
    }

    /// The id in words, naming its account literal and its identifier.
    pub fn to_string(&self) -> (r: String)
        ensures
            r@ == id_text(*self),
    {
        let mut r = "OnChain config ID [address: ".to_owned();
        r.append(self.0);
        r.append(", identifier: ");
        r.append(self.1);
        r.append("]");
        r
    }

    /// Whether two ids name the same configuration.
    pub fn same(&self, other: &ConfigID) -> (r: bool)
        ensures
            r == (self.0.spec_bytes() == other.0.spec_bytes() && self.1.spec_bytes()
                == other.1.spec_bytes()),
    {
        bytes_eq(self.0.as_bytes(), other.0.as_bytes()) && bytes_eq(self.1.as_bytes(), other.1.as_bytes())
    }
}

/// Storage from which configurations are read.
pub trait ConfigStorage {
    /// The storage can be read.
    spec fn ready(&self) -> bool;

    /// The blob stored under a key.
    spec fn stored(&self, key: StoreKey) -> Option<Seq<u8>>;

    fn fetch_config(&self, access_path: AccessPath) -> (r: Option<Vec<u8>>)
        requires
            self.ready(),
        ensures
            r is None <==> self.stored(key_of(access_path)) is None,
            r matches Some(b) ==> self.stored(key_of(access_path)) == Some(b@),
    ;
}

impl ConfigStorage for StateStore {
    open spec fn ready(&self) -> bool {
        self.wf()
    }

    open spec fn stored(&self, key: StoreKey) -> Option<Seq<u8>> {
        if self@.contains_key(key) {
            Some(self@[key])
        } else {
            None
        }
    }

    fn fetch_config(&self, access_path: AccessPath) -> (r: Option<Vec<u8>>) {
        self.get(&access_path)
    }
}

/// A configuration value, stored as a canonical blob.
pub trait OnChainConfig: Sized {
    spec fn id_spec() -> ConfigID;

    /// What one round of decoding makes of `bytes`.
    spec fn decode_spec(bytes: Seq<u8>) -> Option<Self>;

    fn config_id() -> (r: ConfigID)
        ensures
            r == Self::id_spec(),
    ;

    /// One round of canonical decoding into the configuration.
    fn deserialize_default_impl(bytes: &[u8]) -> (r: Option<Self>)
        ensures
            r == Self::decode_spec(bytes@),
    ;

    /// Decodes a stored blob; a configuration with a tagged shape may decode
    /// in more than one round.
    fn deserialize_into_config(bytes: &[u8]) -> (r: Option<Self>)
        ensures
            r == Self::decode_spec(bytes@),
    {
        Self::deserialize_default_impl(bytes)
    }

    /// The configuration as `storage` holds it; `None` where nothing is
    /// stored under its key or the blob does not decode.
    fn fetch_config<S: ConfigStorage>(storage: &S) -> (r: Option<Self>)
        requires
            storage.ready(),
        ensures
            r == (match config_key_spec(Self::id_spec()) {
                Some(k) => match storage.stored(k) {
                    Some(b) => Self::decode_spec(b),
                    None => None,
                },
                None => None,
            }),
    {
        let ap = match Self::config_id().access_path() {
            Some(ap) => ap,
            None => { return None; },
        };
        match storage.fetch_config(ap) {
            Some(bytes) => Self::deserialize_into_config(bytes.as_slice()),
            None => None,
        }
    }
}

/// The version of the ledger's rules.
#[derive(Clone, Copy, Debug, PartialEq, Eq, Structural)]
pub struct DiemVersion {
    pub major: u64,
}

impl OnChainConfig for DiemVersion {
    open spec fn id_spec() -> ConfigID {
        ConfigID(CONFIG_ADDRESS_STR, "DiemVersion")
    }

    open spec fn decode_spec(bytes: Seq<u8>) -> Option<DiemVersion> {
        match decode_spec(bytes, Layout::U64) {
            Some(ValueModel::U64(x)) => Some(DiemVersion { major: x }),
            _ => None,
        }
    }

    fn config_id() -> (r: ConfigID) {
        ConfigID(CONFIG_ADDRESS_STR, "DiemVersion")
    }

    fn deserialize_default_impl(bytes: &[u8]) -> (r: Option<DiemVersion>) {
        match decode_value(bytes, Layout::U64) {
            Some(Value::U64(x)) => Some(DiemVersion { major: x }),
            _ => None,
        }
    }
}

/// The configuration `T` as the store holds it, as `fetch_config` reads it.
pub open spec fn fetch_from_store<T: OnChainConfig>(store: StateStore) -> Option<T> {
    match config_key_spec(T::id_spec()) {
        Some(k) => match store.stored(k) {
            Some(b) => T::decode_spec(b),
            None => None,
        },
        None => None,
    }
}

impl VMConfig {
    pub open spec fn fetch_spec(store: StateStore) -> Option<VMConfig> {
        fetch_from_store::<VMConfig>(store)
    }
}

/// The virtual machine's configuration: its gas prices.
#[derive(Clone, Copy, Debug, PartialEq, Eq, Structural)]
pub struct VMConfig {
    pub gas_schedule: CostTable,
}

impl OnChainConfig for VMConfig {
    open spec fn id_spec() -> ConfigID {
        ConfigID(CONFIG_ADDRESS_STR, "VMConfig")
    }

    open spec fn decode_spec(bytes: Seq<u8>) -> Option<VMConfig> {
        match decode_spec(bytes, Layout::U64) {
            Some(ValueModel::U64(x)) => Some(
                VMConfig { gas_schedule: CostTable { intrinsic_gas_per_byte: x } },
            ),
            _ => None,
        }
    }

    fn config_id() -> (r: ConfigID) {
        ConfigID(CONFIG_ADDRESS_STR, "VMConfig")
    }

    fn deserialize_default_impl(bytes: &[u8]) -> (r: Option<VMConfig>) {
        match decode_value(bytes, Layout::U64) {
            Some(Value::U64(x)) => Some(
                VMConfig { gas_schedule: CostTable { intrinsic_gas_per_byte: x } },
            ),
            _ => None,
        }
    }
}

/// The configurations every node reads at each epoch.
pub fn on_chain_config_registry() -> (r: Vec<ConfigID>)
    ensures
        r@ == seq![
            VMConfig::id_spec(),
            ConfigID(CONFIG_ADDRESS_STR, "VMPublishingOption"),
            DiemVersion::id_spec(),
            ConfigID(CONFIG_ADDRESS_STR, "RegisteredCurrencies"),
        ],
{
    let r = vec![
        VMConfig::config_id(),
        ConfigID(CONFIG_ADDRESS_STR, "VMPublishingOption"),
        DiemVersion::config_id(),
        ConfigID(CONFIG_ADDRESS_STR, "RegisteredCurrencies"),
    ];
    assert(r@ =~= seq![
        VMConfig::id_spec(),
        ConfigID(CONFIG_ADDRESS_STR, "VMPublishingOption"),
        DiemVersion::id_spec(),
        ConfigID(CONFIG_ADDRESS_STR, "RegisteredCurrencies"),
    ]);
    r
}

/// The decimal digit `d`.
pub open spec fn digit_text(d: nat) -> Seq<char> {
    if d == 0 {
        "0"@
    } else if d == 1 {
        "1"@
    } else if d == 2 {
        "2"@
    } else if d == 3 {
        "3"@
    } else if d == 4 {
        "4"@
    } else if d == 5 {
        "5"@
    } else if d == 6 {
        "6"@
    } else if d == 7 {
        "7"@
    } else if d == 8 {
        "8"@
    } else {
        "9"@
    }
}

/// `n` in decimal, without leading zeros.
pub open spec fn decimal(n: nat) -> Seq<char>
    decreases n,
{
    if n < 10 {
        digit_text(n)
    } else {
        decimal(n / 10) + digit_text(n % 10)
    }
}

fn append_decimal(n: u64, out: &mut String)
    ensures
        final(out)@ == old(out)@ + decimal(n as nat),
    decreases n,
{
    if n >= 10 {
        append_decimal(n / 10, out);
    }
    let d = n % 10;
    let text = if d == 0 {
        "0"
    } else if d == 1 {
        "1"
    } else if d == 2 {
        "2"
    } else if d == 3 {
        "3"
    } else if d == 4 {
        "4"
    } else if d == 5 {
        "5"
    } else if d == 6 {
        "6"
    } else if d == 7 {
        "7"
    } else if d == 8 {
        "8"
    } else {
        "9"
    };
    out.append(text);
    assert(final(out)@ =~= old(out)@ + decimal(n as nat));
}

/// The ids of `configs` in words, one after the other.
pub open spec fn ids_text(configs: Seq<(ConfigID, Vec<u8>)>) -> Seq<char>
    decreases configs.len(),
{
    if configs.len() == 0 {
        seq![]
    } else {
        ids_text(configs.drop_last()) + id_text(configs.last().0)
    }
}

pub open spec fn id_text(id: ConfigID) -> Seq<char> {
    "OnChain config ID [address: "@ + id.0@ + ", identifier: "@ + id.1@ + "]"@
}

/// Why a configuration could not be had from a payload.
#[derive(Clone, Copy, Debug, PartialEq, Eq, Structural)]
pub enum ConfigError {
    NotInPayload,
    Malformed,
}

/// The configurations of one epoch, as raw blobs.
pub struct OnChainConfigPayload {
    epoch: u64,
    configs: Vec<(ConfigID, Vec<u8>)>,
}

pub open spec fn same_id(a: ConfigID, b: ConfigID) -> bool {
    a.0.spec_bytes() == b.0.spec_bytes() && a.1.spec_bytes() == b.1.spec_bytes()
}

/// No two entries carry the same id.
pub open spec fn ids_unique(configs: Seq<(ConfigID, Vec<u8>)>) -> bool {
    forall|i: int, j: int|
        0 <= i < j < configs.len() ==> !same_id(#[trigger] configs[i].0, #[trigger] configs[j].0)
}

impl OnChainConfigPayload {
    /// Each configuration appears at most once.
    pub closed spec fn wf(&self) -> bool {
        ids_unique(self.configs@)
    }

    pub closed spec fn epoch_spec(&self) -> u64 {
        self.epoch
    }

    pub closed spec fn configs_spec(&self) -> Seq<(ConfigID, Vec<u8>)> {
        self.configs@
    }

    pub fn new(epoch: u64, configs: Vec<(ConfigID, Vec<u8>)>) -> (r: OnChainConfigPayload)
        requires
            ids_unique(configs@),
        ensures
            r.wf(),
            r.epoch_spec() == epoch,
            r.configs_spec() == configs@,
    {
        OnChainConfigPayload { epoch, configs }
    }

    pub fn epoch(&self) -> (r: u64)
        ensures
            r == self.epoch_spec(),
    {
        self.epoch
    }

    pub fn configs(&self) -> (r: &Vec<(ConfigID, Vec<u8>)>)
        ensures
            r@ == self.configs_spec(),
    {
        &self.configs
    }

    /// The payload in words: its epoch and the ids of its configurations.
    pub fn to_string(&self) -> (r: String)
        ensures
            r@ == "OnChainConfigPayload [epoch: "@ + decimal(self.epoch_spec() as nat) + ", configs: "@
                + ids_text(self.configs_spec()) + "]"@,
    {
        let mut ids = String::new();
        let mut i: usize = 0;
        proof {
            assert(self.configs@.take(0) =~= Seq::<(ConfigID, Vec<u8>)>::empty());
            assert(ids@ =~= ids_text(self.configs@.take(0)));
        }
        while i < self.configs.len()
            invariant
                i <= self.configs@.len(),
                ids@ == ids_text(self.configs@.take(i as int)),
            decreases self.configs@.len() - i,
        {
            let text = self.configs[i].0.to_string();
            ids.append(text.as_str());
            assert(self.configs@.take(i + 1).drop_last() =~= self.configs@.take(i as int));
            i = i + 1;
        }
        assert(self.configs@.take(i as int) =~= self.configs@);
        let mut r = "OnChainConfigPayload [epoch: ".to_owned();
        append_decimal(self.epoch, &mut r);
        r.append(", configs: ");
        r.append(ids.as_str());
        r.append("]");
        r
    }

    /// The configuration `T` decoded from the blob under its id.
    pub fn get<T: OnChainConfig>(&self) -> (r: Result<T, ConfigError>)
        requires
            self.wf(),
        ensures
            (forall|i: int| 0 <= i < self.configs_spec().len() ==> !same_id(
                #[trigger] self.configs_spec()[i].0,
                T::id_spec(),
            )) <==> r == Err::<T, ConfigError>(ConfigError::NotInPayload),
            forall|i: int|
                0 <= i < self.configs_spec().len() && same_id(
                    #[trigger] self.configs_spec()[i].0,
                    T::id_spec(),
                ) && (forall|j: int| 0 <= j < i ==> !same_id(#[trigger] self.configs_spec()[j].0, T::id_spec()))
                    ==> r == (match T::decode_spec(self.configs_spec()[i].1@) {
                    Some(v) => Ok::<T, ConfigError>(v),
                    None => Err(ConfigError::Malformed),
                }),
    {
        let id = T::config_id();
        let mut i: usize = 0;
        while i < self.configs.len()
            invariant
                i <= self.configs@.len(),
                id == T::id_spec(),
                forall|j: int| 0 <= j < i ==> !same_id(#[trigger] self.configs@[j].0, T::id_spec()),
            decreases self.configs@.len() - i,
        {
            if self.configs[i].0.same(&id) {
                return match T::deserialize_into_config(self.configs[i].1.as_slice()) {
                    Some(v) => Ok(v),
                    None => Err(ConfigError::Malformed),
                };
            }
            i = i + 1;
        }
        Err(ConfigError::NotInPayload)
    }
}

} // verus!
