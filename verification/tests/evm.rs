use rkb::{Address, PrecompileSet, RkbEvmFactory, RkbExecutorBuilder};

fn addr_from(bytes: [u8; 20]) -> Address {
    let v: Vec<u8> = bytes.to_vec();
    Address::from_be_bytes(&v, 0)
}

fn bridge() -> Address {
    let parsed: alloy_primitives::Address =
        "0x1234567890abcdef1234567890abcdef12345678".parse().unwrap();
    addr_from(parsed.0 .0)
}

#[test]
fn test_factory_creation() {
    let factory = RkbEvmFactory::new(bridge());
    assert_eq!(factory.authorized_bridge(), bridge());
}

#[test]
fn test_default_factory() {
    let factory = RkbEvmFactory::default();
    assert_eq!(factory.authorized_bridge(), Address::zero());
}

#[test]
fn test_create_precompiles_extends_base() {
    let base_entry = addr_from([0x05; 20]);
    let mut base = PrecompileSet::new();
    base.register(&base_entry);
    assert!(!base.contains(&rkb::native_minter_address()));

    let factory = RkbEvmFactory::new(bridge());
    let extended = factory.create_precompiles(&base);

    // the extension keeps the base entries and adds the fixed address
    assert!(extended.contains(&base_entry));
    assert!(extended.contains(&rkb::native_minter_address()));
    // the minter entry enforces this factory's authorization itself
    let minter = extended.minter().as_ref().expect("minter entry must be registered");
    assert_eq!(minter.authorized_bridge(), bridge());
    // the base set is copied, never mutated
    assert!(!base.contains(&rkb::native_minter_address()));
    assert!(base.minter().is_none());
}

#[test]
fn test_executor_builder_new() {
    let builder = RkbExecutorBuilder::new(bridge());
    assert_eq!(builder.authorized_bridge(), bridge());
    let factory = builder.evm_factory();
    assert_eq!(factory.authorized_bridge(), bridge());
}

#[test]
fn test_executor_builder_testing() {
    assert_eq!(RkbExecutorBuilder::testing().authorized_bridge(), Address::zero());
    assert_eq!(RkbExecutorBuilder::default().authorized_bridge(), Address::zero());
}
