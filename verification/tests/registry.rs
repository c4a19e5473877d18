use ethers_abirpc::network::{Address, Chain};
use ethers_abirpc::registry::{AbiRegistry, ContractBinding, MockBinding};

fn addr(low: u128) -> Address {
    Address { high: 0, low }
}

#[test]
fn new_registry_carries_url_and_chain() {
    let registry: AbiRegistry<MockBinding> =
        AbiRegistry::new(String::from("http://localhost:8545"), Chain::Id(1));
    assert_eq!(
        registry.url().as_deref(),
        Some("http://localhost:8545")
    );
    assert_eq!(registry.chain(), Some(Chain::Id(1)));
    assert_eq!(registry.len(), 0);
}

#[test]
fn mock_registry_is_empty() {
    let registry: AbiRegistry<MockBinding> = AbiRegistry::mock();
    assert!(registry.url().is_none());
    assert!(registry.chain().is_none());
    assert_eq!(registry.len(), 0);
    assert!(!registry.entry_exists(addr(1)));
}

#[test]
fn register_is_idempotent_for_one_address() {
    let mut registry: AbiRegistry<MockBinding> = AbiRegistry::mock();
    let a = addr(17);

    assert!(!registry.entry_exists(a));
    let first = registry.register(0u32, a);
    assert!(registry.entry_exists(a));

    let second = registry.register(0u32, a);
    assert_eq!(first.address, a);
    assert_eq!(second.address, a);
    // The second call found the cached entry rather than building a new one:
    // the instances are the same, and still exactly one entry is cached.
    assert_eq!(first, second);
    assert_eq!(registry.len(), 1);
}

#[test]
fn registered_addresses_are_isolated() {
    let mut registry: AbiRegistry<MockBinding> = AbiRegistry::mock();
    let a1 = addr(1);
    let a2 = addr(2);

    let i1 = registry.register(0u32, a1);
    let i2 = registry.register(0u32, a2);

    assert_eq!(registry.len(), 2);
    assert!(registry.entry_exists(a1));
    assert!(registry.entry_exists(a2));
    assert_eq!(i1.address, a1);
    assert_eq!(i2.address, a2);
    assert_ne!(i1.address, i2.address);

    // Both stay retrievable, each under its own address.
    assert_eq!(registry.register(0u32, a1).address, a1);
    assert_eq!(registry.register(0u32, a2).address, a2);
}

#[test]
fn racing_inserts_leave_one_entry_last_writer_wins() {
    // The interleaving two concurrent first-time registrations can reach:
    // both observe the address absent and both insert. The insert itself has
    // replace semantics, so the map ends with exactly one entry and the later
    // instance survives.
    let mut registry: AbiRegistry<MockBinding> = AbiRegistry::mock();
    let a = addr(9);

    assert!(!registry.entry_exists(a));
    registry.add_entry(a, MockBinding { address: a, label: 1 });
    registry.add_entry(a, MockBinding { address: a, label: 2 });

    assert_eq!(registry.len(), 1);
    let survivor = registry.register(0u32, a);
    assert_eq!(survivor.address, a);
    assert_eq!(survivor.label, 2);
}

#[test]
fn add_entry_replaces_and_register_reads_back() {
    let mut registry: AbiRegistry<MockBinding> = AbiRegistry::mock();
    let a = addr(3);
    let b = addr(4);

    registry.add_entry(a, MockBinding { address: a, label: 10 });
    registry.add_entry(b, MockBinding { address: b, label: 20 });
    registry.add_entry(a, MockBinding { address: a, label: 11 });

    assert_eq!(registry.len(), 2);
    assert_eq!(registry.register(0u32, a).label, 11);
    assert_eq!(registry.register(0u32, b).label, 20);
}

#[test]
fn mock_binding_construction() {
    let a = addr(5);
    let built = <MockBinding as ContractBinding<u32>>::new(a, 0u32);
    assert_eq!(built.address, a);
    assert_eq!(built.label, 0);
    let copy = ContractBinding::<u32>::duplicate(&built);
    assert_eq!(copy, built);
}
