//! Storage keys: identifiers, module and type descriptors, and the access
//! path derived from an account and a descriptor.
use vstd::prelude::*;
use vstd::string::StringSliceAdditionalSpecFns;
use crate::codec::{
    AccountAddress, MAX_BYTES_LEN, le_bytes, le_value, pow256, lemma_le_round_trip, lemma_pow256_16,
    write_bytes, write_le,
};

verus! {

/// A name byte may be a letter, a digit or an underscore.
pub open spec fn is_ident_byte(b: u8) -> bool {
    (97 <= b <= 122) || (65 <= b <= 90) || (48 <= b <= 57) || b == 95
}

/// A valid identifier: not empty, not `_` alone, starting with a letter or an
/// underscore, made of name bytes.
pub open spec fn is_valid_ident(s: Seq<u8>) -> bool {
    &&& 0 < s.len() <= MAX_BYTES_LEN
    &&& ((97 <= s[0] <= 122) || (65 <= s[0] <= 90) || s[0] == 95)
    &&& !(s.len() == 1 && s[0] == 95)
    &&& forall|i: int| 0 <= i < s.len() ==> is_ident_byte(#[trigger] s[i])
}

/// A valid module, type or member name.
#[derive(Debug, PartialEq, Eq)]
pub struct Identifier {
    bytes: Vec<u8>,
}

impl View for Identifier {
    type V = Seq<u8>;

    closed spec fn view(&self) -> Seq<u8> {
        self.bytes@
    }
}

impl Identifier {
    #[verifier::type_invariant]
    spec fn inv(&self) -> bool {
        is_valid_ident(self.bytes@)
    }

    pub open spec fn wf(&self) -> bool {
        is_valid_ident(self@)
    }

    /// The identifier spelled `s`, if `s` is valid.
    pub fn new(s: &str) -> (r: Option<Identifier>)
        ensures
            is_valid_ident(s.spec_bytes()) <==> r is Some,
            r matches Some(id) ==> id@ == s.spec_bytes() && id.wf(),
    {
        Identifier::from_bytes(s.as_bytes())
    }

    /// The identifier made of the bytes `b`, if they form a valid one.
    pub fn from_bytes(b: &[u8]) -> (r: Option<Identifier>)
        ensures
            is_valid_ident(b@) <==> r is Some,
            r matches Some(id) ==> id@ == b@ && id.wf(),
    {
        if b.len() == 0 || b.len() > MAX_BYTES_LEN {
            return None;
        }
        let c = b[0];
        if !((97 <= c && c <= 122) || (65 <= c && c <= 90) || c == 95) {
            return None;
        }
        if b.len() == 1 && c == 95 {
            return None;
        }
        let mut bytes: Vec<u8> = Vec::new();
        let mut i: usize = 0;
        while i < b.len()
            invariant
                i <= b@.len(),
                bytes@ == b@.take(i as int),
                forall|j: int| 0 <= j < i ==> is_ident_byte(#[trigger] b@[j]),
            decreases b@.len() - i,
        {
            let x = b[i];
            if !((97 <= x && x <= 122) || (65 <= x && x <= 90) || (48 <= x && x <= 57)
                || x == 95) {
                assert(!is_ident_byte(b@[i as int]));
                return None;
            }
            bytes.push(x);
            assert(b@.take(i + 1) =~= b@.take(i as int).push(x));
            i = i + 1;
        }
        assert(bytes@ =~= b@);
        Some(Identifier { bytes })
    }

    pub fn as_bytes(&self) -> (r: &[u8])
        ensures
            r@ == self@,
            is_valid_ident(r@),
    {
        proof {
            use_type_invariant(self);
        }
        self.bytes.as_slice()
    }
}

/// A published module: the account that holds it and its name.
#[derive(Debug, PartialEq, Eq)]
pub struct ModuleId {
    pub address: AccountAddress,
    pub name: Identifier,
}

/// A type argument: a primitive type or a non-generic struct type named by
/// its module and its name.
#[derive(Debug, PartialEq, Eq)]
pub enum TypeTag {
    Bool,
    U8,
    U64,
    U128,
    Address,
    Signer,
    Struct(ModuleId, Identifier),
}

/// A fully-qualified struct type: declaring account, module, name and type
/// arguments.
#[derive(Debug, PartialEq, Eq)]
pub struct StructTag {
    pub address: AccountAddress,
    pub module: Identifier,
    pub name: Identifier,
    pub type_params: Vec<TypeTag>,
}

pub ghost struct ModuleIdModel {
    pub address: u128,
    pub name: Seq<u8>,
}

pub ghost enum TypeTagModel {
    Bool,
    U8,
    U64,
    U128,
    Address,
    Signer,
    Struct(ModuleIdModel, Seq<u8>),
}

pub ghost struct StructTagModel {
    pub address: u128,
    pub module: Seq<u8>,
    pub name: Seq<u8>,
    pub type_params: Seq<TypeTagModel>,
}

impl View for ModuleId {
    type V = ModuleIdModel;

    open spec fn view(&self) -> ModuleIdModel {
        ModuleIdModel { address: self.address.0, name: self.name@ }
    }
}

impl View for TypeTag {
    type V = TypeTagModel;

    open spec fn view(&self) -> TypeTagModel {
        match self {
            TypeTag::Bool => TypeTagModel::Bool,
            TypeTag::U8 => TypeTagModel::U8,
            TypeTag::U64 => TypeTagModel::U64,
            TypeTag::U128 => TypeTagModel::U128,
            TypeTag::Address => TypeTagModel::Address,
            TypeTag::Signer => TypeTagModel::Signer,
            TypeTag::Struct(m, n) => TypeTagModel::Struct(m@, n@),
        }
    }
}

impl View for StructTag {
    type V = StructTagModel;

    open spec fn view(&self) -> StructTagModel {
        StructTagModel {
            address: self.address.0,
            module: self.module@,
            name: self.name@,
            type_params: self.type_params@.map_values(|t: TypeTag| t@),
        }
    }
}

impl StructTag {
    /// The type arguments can be counted in the four-byte prefix.
    pub open spec fn wf(&self) -> bool {
        self.type_params@.len() <= MAX_BYTES_LEN
    }
}

pub open spec fn names_ok(m: ModuleIdModel) -> bool {
    m.name.len() <= MAX_BYTES_LEN
}

pub open spec fn tag_ok(t: TypeTagModel) -> bool {
    match t {
        TypeTagModel::Struct(m, n) => names_ok(m) && n.len() <= MAX_BYTES_LEN,
        _ => true,
    }
}

/// The shape bounds under which a descriptor's encoding can be read back.
pub open spec fn struct_tag_ok(t: StructTagModel) -> bool {
    &&& t.module.len() <= MAX_BYTES_LEN
    &&& t.name.len() <= MAX_BYTES_LEN
    &&& t.type_params.len() <= MAX_BYTES_LEN
    &&& forall|i: int| 0 <= i < t.type_params.len() ==> tag_ok(#[trigger] t.type_params[i])
}

pub open spec fn enc_name(s: Seq<u8>) -> Seq<u8> {
    le_bytes(s.len(), 4) + s
}

pub open spec fn enc_module_id(m: ModuleIdModel) -> Seq<u8> {
    le_bytes(m.address as nat, 16) + enc_name(m.name)
}

/// A type argument: its discriminant byte, then its fields.
pub open spec fn enc_type_tag(t: TypeTagModel) -> Seq<u8> {
    match t {
        TypeTagModel::Bool => seq![0u8],
        TypeTagModel::U8 => seq![1u8],
        TypeTagModel::U64 => seq![2u8],
        TypeTagModel::U128 => seq![3u8],
        TypeTagModel::Address => seq![4u8],
        TypeTagModel::Signer => seq![5u8],
        TypeTagModel::Struct(m, n) => seq![6u8] + enc_module_id(m) + enc_name(n),
    }
}

pub open spec fn enc_type_tags(s: Seq<TypeTagModel>) -> Seq<u8>
    decreases s.len(),
{
    if s.len() == 0 {
        seq![]
    } else {
        enc_type_tag(s[0]) + enc_type_tags(s.drop_first())
    }
}

/// A struct descriptor: its record fields in order, the type arguments
/// prefixed by their count.
pub open spec fn enc_struct_tag(t: StructTagModel) -> Seq<u8> {
    le_bytes(t.address as nat, 16) + enc_name(t.module) + enc_name(t.name) + le_bytes(
        t.type_params.len(),
        4,
    ) + enc_type_tags(t.type_params)
}

/// Path byte that marks a module's code.
pub const CODE_TAG: u8 = 0;

/// Path byte that marks a resource.
pub const RESOURCE_TAG: u8 = 1;

pub open spec fn resource_path_spec(t: StructTagModel) -> Seq<u8> {
    seq![RESOURCE_TAG] + enc_struct_tag(t)
}

pub open spec fn code_path_spec(m: ModuleIdModel) -> Seq<u8> {
    seq![CODE_TAG] + enc_module_id(m)
}

// Readers of the encodings above, used to show that they lose nothing.
pub open spec fn parse_le(s: Seq<u8>, n: nat) -> Option<(nat, Seq<u8>)> {
    if s.len() >= n {
        Some((le_value(s.take(n as int)), s.skip(n as int)))
    } else {
        None
    }
}

pub open spec fn parse_name(s: Seq<u8>) -> Option<(Seq<u8>, Seq<u8>)> {
    match parse_le(s, 4) {
        Some((n, r)) => if r.len() >= n {
            Some((r.take(n as int), r.skip(n as int)))
        } else {
            None
        },
        None => None,
    }
}

pub open spec fn parse_module_id(s: Seq<u8>) -> Option<(ModuleIdModel, Seq<u8>)> {
    match parse_le(s, 16) {
        Some((a, r)) => match parse_name(r) {
            Some((n, r2)) => Some((ModuleIdModel { address: a as u128, name: n }, r2)),
            None => None,
        },
        None => None,
    }
}

pub open spec fn parse_type_tag(s: Seq<u8>) -> Option<(TypeTagModel, Seq<u8>)> {
    if s.len() == 0 {
        None
    } else {
        let r = s.drop_first();
        if s[0] == 0 {
            Some((TypeTagModel::Bool, r))
        } else if s[0] == 1 {
            Some((TypeTagModel::U8, r))
        } else if s[0] == 2 {
            Some((TypeTagModel::U64, r))
        } else if s[0] == 3 {
            Some((TypeTagModel::U128, r))
        } else if s[0] == 4 {
            Some((TypeTagModel::Address, r))
        } else if s[0] == 5 {
            Some((TypeTagModel::Signer, r))
        } else if s[0] == 6 {
            match parse_module_id(r) {
                Some((m, r2)) => match parse_name(r2) {
                    Some((n, r3)) => Some((TypeTagModel::Struct(m, n), r3)),
                    None => None,
                },
                None => None,
            }
        } else {
            None
        }
    }
}

pub open spec fn parse_type_tags(s: Seq<u8>, count: nat) -> Option<(Seq<TypeTagModel>, Seq<u8>)>
    decreases count,
{
    if count == 0 {
        Some((seq![], s))
    } else {
        match parse_type_tag(s) {
            Some((t, r)) => match parse_type_tags(r, (count - 1) as nat) {
                Some((ts, r2)) => Some((seq![t] + ts, r2)),
                None => None,
            },
            None => None,
        }
    }
}

pub open spec fn parse_struct_tag(s: Seq<u8>) -> Option<(StructTagModel, Seq<u8>)> {
    match parse_le(s, 16) {
        Some((a, r)) => match parse_name(r) {
            Some((m, r2)) => match parse_name(r2) {
                Some((n, r3)) => match parse_le(r3, 4) {
                    Some((c, r4)) => match parse_type_tags(r4, c) {
                        Some((ts, r5)) => Some(
                            (StructTagModel { address: a as u128, module: m, name: n, type_params: ts }, r5),
                        ),
                        None => None,
                    },
                    None => None,
                },
                None => None,
            },
            None => None,
        },
        None => None,
    }
}

proof fn lemma_parse_le(v: nat, n: nat, rest: Seq<u8>)
    requires
        v < pow256(n),
    ensures
        parse_le(le_bytes(v, n) + rest, n) == Some((v, rest)),
{
    lemma_le_round_trip(v, n);
    let s = le_bytes(v, n) + rest;
    assert(s.take(n as int) =~= le_bytes(v, n));
    assert(s.skip(n as int) =~= rest);
}

proof fn lemma_parse_name(x: Seq<u8>, rest: Seq<u8>)
    requires
        x.len() <= MAX_BYTES_LEN,
    ensures
        parse_name(enc_name(x) + rest) == Some((x, rest)),
{
    lemma_pow256_16();
    lemma_parse_le(x.len(), 4, x + rest);
    assert(enc_name(x) + rest =~= le_bytes(x.len(), 4) + (x + rest));
    assert((x + rest).take(x.len() as int) =~= x);
    assert((x + rest).skip(x.len() as int) =~= rest);
}

proof fn lemma_parse_module_id(m: ModuleIdModel, rest: Seq<u8>)
    requires
        names_ok(m),
    ensures
        parse_module_id(enc_module_id(m) + rest) == Some((m, rest)),
{
    lemma_pow256_16();
    lemma_parse_le(m.address as nat, 16, enc_name(m.name) + rest);
    assert(enc_module_id(m) + rest =~= le_bytes(m.address as nat, 16) + (enc_name(m.name) + rest));
    lemma_parse_name(m.name, rest);
}

proof fn lemma_parse_type_tag(t: TypeTagModel, rest: Seq<u8>)
    requires
        tag_ok(t),
    ensures
        parse_type_tag(enc_type_tag(t) + rest) == Some((t, rest)),
{
    let s = enc_type_tag(t) + rest;
    assert(s.drop_first() =~= enc_type_tag(t).drop_first() + rest);
    if let TypeTagModel::Struct(m, n) = t {
        lemma_parse_module_id(m, enc_name(n) + rest);
        assert(s.drop_first() =~= enc_module_id(m) + (enc_name(n) + rest));
        lemma_parse_name(n, rest);
    } else {
        assert(s.drop_first() =~= rest);
    }
}

proof fn lemma_parse_type_tags(ts: Seq<TypeTagModel>, rest: Seq<u8>)
    requires
        forall|i: int| 0 <= i < ts.len() ==> tag_ok(#[trigger] ts[i]),
    ensures
        parse_type_tags(enc_type_tags(ts) + rest, ts.len()) == Some((ts, rest)),
    decreases ts.len(),
{
    if ts.len() > 0 {
        let tail = ts.drop_first();
        assert(tag_ok(ts[0]));
        assert forall|i: int| 0 <= i < tail.len() implies tag_ok(#[trigger] tail[i]) by {
            assert(tail[i] == ts[i + 1]);
        }
        lemma_parse_type_tags(tail, rest);
        lemma_parse_type_tag(ts[0], enc_type_tags(tail) + rest);
        assert(enc_type_tags(ts) + rest =~= enc_type_tag(ts[0]) + (enc_type_tags(tail) + rest));
        assert(seq![ts[0]] + tail =~= ts);
    }
}

/// Reading a struct descriptor back from its encoding followed by any bytes
/// gives the descriptor and those bytes.
pub proof fn lemma_parse_struct_tag(t: StructTagModel, rest: Seq<u8>)
    requires
        struct_tag_ok(t),
    ensures
        parse_struct_tag(enc_struct_tag(t) + rest) == Some((t, rest)),
{
    lemma_pow256_16();
    let ts = t.type_params;
    let r4 = enc_type_tags(ts) + rest;
    let r3 = le_bytes(ts.len(), 4) + r4;
    let r2 = enc_name(t.name) + r3;
    let r = enc_name(t.module) + r2;
    assert(enc_struct_tag(t) + rest =~= le_bytes(t.address as nat, 16) + r);
    lemma_parse_le(t.address as nat, 16, r);
    lemma_parse_name(t.module, r2);
    lemma_parse_name(t.name, r3);
    lemma_parse_le(ts.len(), 4, r4);
    lemma_parse_type_tags(ts, rest);
    assert(parse_le(enc_struct_tag(t) + rest, 16) == Some((t.address as nat, r)));
    assert(parse_name(r) == Some((t.module, r2)));
    assert(parse_name(r2) == Some((t.name, r3)));
    assert(parse_le(r3, 4) == Some((ts.len(), r4)));
    assert(parse_type_tags(r4, ts.len()) == Some((ts, rest)));
}

/// Distinct descriptors have distinct resource paths, distinct modules have
/// distinct code paths, and no resource path is a code path.
pub proof fn lemma_paths_injective(
    t1: StructTagModel,
    t2: StructTagModel,
    m1: ModuleIdModel,
    m2: ModuleIdModel,
)
    requires
        struct_tag_ok(t1),
        struct_tag_ok(t2),
        names_ok(m1),
        names_ok(m2),
    ensures
        resource_path_spec(t1) == resource_path_spec(t2) ==> t1 == t2,
        code_path_spec(m1) == code_path_spec(m2) ==> m1 == m2,
        resource_path_spec(t1) != code_path_spec(m1),
{
    lemma_parse_struct_tag(t1, seq![]);
    lemma_parse_struct_tag(t2, seq![]);
    lemma_parse_module_id(m1, seq![]);
    lemma_parse_module_id(m2, seq![]);
    assert(enc_struct_tag(t1) + seq![] =~= enc_struct_tag(t1));
    assert(enc_struct_tag(t2) + seq![] =~= enc_struct_tag(t2));
    assert(enc_module_id(m1) + seq![] =~= enc_module_id(m1));
    assert(enc_module_id(m2) + seq![] =~= enc_module_id(m2));
    if resource_path_spec(t1) == resource_path_spec(t2) {
        assert(resource_path_spec(t1).drop_first() =~= enc_struct_tag(t1));
        assert(resource_path_spec(t2).drop_first() =~= enc_struct_tag(t2));
    }
    if code_path_spec(m1) == code_path_spec(m2) {
        assert(code_path_spec(m1).drop_first() =~= enc_module_id(m1));
        assert(code_path_spec(m2).drop_first() =~= enc_module_id(m2));
    }
    assert(resource_path_spec(t1)[0] != code_path_spec(m1)[0]);
}

proof fn lemma_enc_type_tags_push(s: Seq<TypeTagModel>, t: TypeTagModel)
    ensures
        enc_type_tags(s.push(t)) == enc_type_tags(s) + enc_type_tag(t),
    decreases s.len(),
{
    if s.len() == 0 {
        assert(s.push(t).drop_first() =~= Seq::<TypeTagModel>::empty());
        assert(enc_type_tags(Seq::<TypeTagModel>::empty()) =~= Seq::<u8>::empty());
        assert(s.push(t)[0] == t);
        assert(enc_type_tags(s.push(t)) =~= enc_type_tag(t));
    } else {
        assert(s.push(t).drop_first() =~= s.drop_first().push(t));
        lemma_enc_type_tags_push(s.drop_first(), t);
        assert(enc_type_tags(s.push(t)) =~= enc_type_tags(s) + enc_type_tag(t));
    }
}

fn write_name(id: &Identifier, out: &mut Vec<u8>)
    ensures
        final(out)@ == old(out)@ + enc_name(id@),
{
    write_bytes(id.as_bytes(), out);
    assert(final(out)@ =~= old(out)@ + enc_name(id@));
}

fn write_module_id(m: &ModuleId, out: &mut Vec<u8>)
    ensures
        final(out)@ == old(out)@ + enc_module_id(m@),
{
    proof {
        lemma_pow256_16();
    }
    write_le(m.address.0, 16, out);
    write_name(&m.name, out);
    assert(final(out)@ =~= old(out)@ + enc_module_id(m@));
}

fn write_type_tag(t: &TypeTag, out: &mut Vec<u8>)
    ensures
        final(out)@ == old(out)@ + enc_type_tag(t@),
{
    match t {
        TypeTag::Bool => out.push(0u8),
        TypeTag::U8 => out.push(1u8),
        TypeTag::U64 => out.push(2u8),
        TypeTag::U128 => out.push(3u8),
        TypeTag::Address => out.push(4u8),
        TypeTag::Signer => out.push(5u8),
        TypeTag::Struct(m, n) => {
            out.push(6u8);
            write_module_id(m, out);
            write_name(n, out);
        },
    }
    assert(final(out)@ =~= old(out)@ + enc_type_tag(t@));
}

/// The canonical bytes of a struct descriptor.
pub fn encode_struct_tag(tag: &StructTag, out: &mut Vec<u8>)
    requires
        tag.wf(),
    ensures
        final(out)@ == old(out)@ + enc_struct_tag(tag@),
{
    proof {
        lemma_pow256_16();
    }
    write_le(tag.address.0, 16, out);
    write_name(&tag.module, out);
    write_name(&tag.name, out);
    write_le(tag.type_params.len() as u128, 4, out);
    let ghost mid = out@;
    let ghost params = tag@.type_params;
    let mut i: usize = 0;
    while i < tag.type_params.len()
        invariant
            i <= tag.type_params@.len(),
            params == tag@.type_params,
            out@ == mid + enc_type_tags(params.take(i as int)),
        decreases tag.type_params@.len() - i,
    {
        let ghost before = out@;
        write_type_tag(&tag.type_params[i], out);
        proof {
            assert(params.take(i + 1) =~= params.take(i as int).push(params[i as int]));
            lemma_enc_type_tags_push(params.take(i as int), params[i as int]);
        }
        i = i + 1;
    }
    assert(params.take(i as int) =~= params);
    assert(final(out)@ =~= old(out)@ + enc_struct_tag(tag@));
}

/// A storage key: the account and the path bytes below it.
#[derive(Clone, Debug, PartialEq, Eq)]
pub struct AccessPath {
    pub address: AccountAddress,
    pub path: Vec<u8>,
}

impl AccessPath {
    pub fn new(address: AccountAddress, path: Vec<u8>) -> (r: AccessPath)
        ensures
            r.address == address,
            r.path@ == path@,
    {
        AccessPath { address, path }
    }

    /// The path of the resource of type `tag`.
    pub fn resource_access_vec(tag: &StructTag) -> (r: Vec<u8>)
        requires
            tag.wf(),
        ensures
            r@ == resource_path_spec(tag@),
    {
        let mut out: Vec<u8> = Vec::new();
        out.push(RESOURCE_TAG);
        encode_struct_tag(tag, &mut out);
        out
    }

    /// The path of the code of module `id`.
    pub fn code_access_vec(id: &ModuleId) -> (r: Vec<u8>)
        ensures
            r@ == code_path_spec(id@),
    {
        let mut out: Vec<u8> = Vec::new();
        out.push(CODE_TAG);
        write_module_id(id, &mut out);
        out
    }
}

/// The module named at the head of a module's code: its account and its
/// name, as `parse_module_id` reads them, where the name is valid.
pub open spec fn module_header(code: Seq<u8>) -> Option<ModuleIdModel> {
    match parse_module_id(code) {
        Some((m, _)) => if is_valid_ident(m.name) {
            Some(m)
        } else {
            None
        },
        None => None,
    }
}

impl ModuleId {
    /// Reads the module id at the head of `code`.
    pub fn from_header(code: &[u8]) -> (r: Option<ModuleId>)
        ensures
            module_header(code@) is None <==> r is None,
            r matches Some(m) ==> module_header(code@) == Some(m@),
    {
        proof {
            lemma_pow256_16();
        }
        let address = match crate::codec::read_le(code, 0, 16) {
            Some(a) => a,
            None => { return None; },
        };
        let n = match crate::codec::read_le(code, 16, 4) {
            Some(n) => n,
            None => { return None; },
        };
        let ghost s = code@;
        proof {
            assert(s.take(16) =~= s.subrange(0, 16));
            let r = s.skip(16);
            assert(r.take(4) =~= s.subrange(16, 20));
            crate::codec::lemma_le_value_bound(s.subrange(16, 20));
        }
        if n > (code.len() - 20) as u128 {
            return None;
        }
        let n = n as usize;
        let mut name: Vec<u8> = Vec::new();
        let mut i: usize = 0;
        while i < n
            invariant
                i <= n,
                20 + n <= code@.len(),
                code@.len() <= usize::MAX,
                name@ == code@.subrange(20, 20 + i),
            decreases n - i,
        {
            name.push(code[20 + i]);
            assert(code@.subrange(20, 20 + i + 1) =~= code@.subrange(20, 20 + i).push(code@[20 + i]));
            i = i + 1;
        }
        proof {
            assert(s.skip(16).skip(4).take(n as int) =~= name@);
        }
        match Identifier::from_bytes(name.as_slice()) {
            Some(id) => Some(ModuleId { address: AccountAddress(address), name: id }),
            None => None,
        }
    }
}

} // verus!
