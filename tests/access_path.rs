use mvm::access_path::{AccessPath, Identifier, ModuleId, StructTag, TypeTag};
use mvm::codec::AccountAddress;

fn ident(s: &str) -> Identifier {
    Identifier::new(s).unwrap()
}

fn tag(addr: u128, module: &str, name: &str, params: Vec<TypeTag>) -> StructTag {
    StructTag { address: AccountAddress(addr), module: ident(module), name: ident(name), type_params: params }
}

#[test]
fn identifiers_are_checked() {
    assert!(Identifier::new("Foo_1").is_some());
    assert!(Identifier::new("_x").is_some());
    assert!(Identifier::new("").is_none());
    assert!(Identifier::new("_").is_none());
    assert!(Identifier::new("1a").is_none());
    assert!(Identifier::new("a-b").is_none());
    assert_eq!(ident("Coin").as_bytes(), b"Coin");
}

#[test]
fn code_path_has_exact_bytes() {
    let id = ModuleId { address: AccountAddress(1), name: ident("M") };
    let path = AccessPath::code_access_vec(&id);
    let mut expected = vec![0u8, 1];
    expected.extend_from_slice(&[0u8; 15]);
    expected.extend_from_slice(&[1, 0, 0, 0, b'M']);
    assert_eq!(path, expected);
}

#[test]
fn resource_path_has_exact_bytes() {
    let t = tag(2, "A", "B", vec![TypeTag::U64]);
    let path = AccessPath::resource_access_vec(&t);
    let mut expected = vec![1u8, 2];
    expected.extend_from_slice(&[0u8; 15]);
    expected.extend_from_slice(&[1, 0, 0, 0, b'A', 1, 0, 0, 0, b'B', 1, 0, 0, 0, 2]);
    assert_eq!(path, expected);
}

#[test]
fn access_paths_are_pure_and_distinct() {
    let tags = vec![
        tag(1, "Coin", "Balance", vec![]),
        tag(1, "Coin", "Balance", vec![TypeTag::U8]),
        tag(1, "Coin", "Balance", vec![TypeTag::U64]),
        tag(1, "CoinB", "alance", vec![]),
        tag(2, "Coin", "Balance", vec![]),
        tag(1, "Coin", "Balance", vec![TypeTag::Struct(ModuleId { address: AccountAddress(1), name: ident("X") }, ident("Y"))]),
        tag(1, "Coin", "Balance", vec![TypeTag::Bool, TypeTag::Address]),
    ];
    let paths: Vec<Vec<u8>> = tags.iter().map(AccessPath::resource_access_vec).collect();
    for (i, t) in tags.iter().enumerate() {
        assert_eq!(AccessPath::resource_access_vec(t), paths[i]);
        for j in 0..i {
            assert_ne!(paths[i], paths[j]);
        }
    }
    let a = AccessPath::new(AccountAddress(5), paths[0].clone());
    let b = AccessPath::new(AccountAddress(6), paths[0].clone());
    assert_ne!(a, b);
}

#[test]
fn module_header_is_read() {
    let mut code = vec![7u8];
    code.extend_from_slice(&[0u8; 15]);
    code.extend_from_slice(&[3, 0, 0, 0, b'F', b'o', b'o', 0xAA, 0xBB]);
    let id = ModuleId::from_header(&code).unwrap();
    assert_eq!(id.address, AccountAddress(7));
    assert_eq!(id.name.as_bytes(), b"Foo");
    assert!(ModuleId::from_header(&code[..20]).is_none());
    assert!(ModuleId::from_header(&[1, 2, 3]).is_none());
}
