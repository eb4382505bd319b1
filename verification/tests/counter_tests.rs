use counter::call;
use counter::increment_count;
use counter::Error;
use counter::Host;
use counter::KeyRef;

/// Resolves the package hash that installation stored under the caller's
/// namespace.
fn installed_contract_hash(host: &Host) -> usize {
    let key = host
        .namespace
        .get(&"counter_contract_hash".to_string())
        .expect("must have contract hash key as part of contract creation");
    match key {
        KeyRef::Package { hash } => hash,
        _ => panic!("must get contract hash"),
    }
}

/// Resolves the address of the package's counter cell through its registry.
fn count_cell_addr(host: &Host, contract_hash: usize) -> usize {
    let version = host.packages[contract_hash]
        .versions
        .last()
        .expect("Not able to find contract");
    let key = version
        .named_keys
        .get(&"count_key".to_string())
        .expect("Unable to find count_key");
    match key {
        KeyRef::Cell { addr } => addr,
        _ => panic!("should be u32."),
    }
}

#[test]
fn test_counting() {
    let mut host = Host::new();
    call(&mut host);
    let contract_hash = installed_contract_hash(&host);
    increment_count(&mut host, contract_hash).expect("increment must succeed");
    let addr = count_cell_addr(&host, contract_hash);
    let count_key_value = host.read(addr);
    assert_eq!(count_key_value, 1);
}

#[test]
fn install_registers_contract_hash() {
    let mut host = Host::new();
    call(&mut host);
    let key = host
        .namespace
        .get(&"counter_contract_hash".to_string())
        .expect("must have contract hash key as part of contract creation");
    assert_eq!(key, KeyRef::Package { hash: 0 });
    assert!(host.packages.len() == 1);
    assert!(!host.packages[0].versions.is_empty());
}

#[test]
fn install_registers_package_and_access_names() {
    let mut host = Host::new();
    call(&mut host);
    let package = host.namespace.get(&"counter_package".to_string());
    assert_eq!(package, Some(KeyRef::Package { hash: 0 }));
    let access = host.namespace.get(&"counter_access_uref".to_string());
    assert_eq!(access, Some(KeyRef::Cell { addr: 1 }));
}

#[test]
fn fresh_counter_reads_zero() {
    let mut host = Host::new();
    call(&mut host);
    let contract_hash = installed_contract_hash(&host);
    let addr = count_cell_addr(&host, contract_hash);
    assert_eq!(host.read(addr), 0);
}

#[test]
fn install_publishes_increment_entry_point() {
    let mut host = Host::new();
    call(&mut host);
    let contract_hash = installed_contract_hash(&host);
    let version = host.packages[contract_hash].versions.last().unwrap();
    assert_eq!(version.entry_points.entries.len(), 1);
    let ep = &version.entry_points.entries[0];
    assert_eq!(ep.name, "increment_count");
    assert!(ep.params.is_empty());
    assert_eq!(ep.ret, counter::ValueType::Unit);
    assert_eq!(ep.access, counter::EntryPointAccess::Public);
    assert_eq!(ep.context, counter::EntryPointContext::Contract);
}

#[test]
fn increment_three_times_reads_three() {
    let mut host = Host::new();
    call(&mut host);
    let contract_hash = installed_contract_hash(&host);
    for _ in 0..3 {
        increment_count(&mut host, contract_hash).expect("increment must succeed");
    }
    let addr = count_cell_addr(&host, contract_hash);
    assert_eq!(host.read(addr), 3);
}

#[test]
fn second_install_starts_its_own_counter() {
    let mut host = Host::new();
    call(&mut host);
    call(&mut host);
    assert_eq!(host.packages.len(), 2);
    // The namespace key now names the second package.
    assert_eq!(installed_contract_hash(&host), 1);
    increment_count(&mut host, 0).expect("increment must succeed");
    let first = host.read(count_cell_addr(&host, 0));
    let second = host.read(count_cell_addr(&host, 1));
    assert_eq!(first, 1);
    assert_eq!(second, 0);
}

#[test]
fn two_packages_never_share_a_cell() {
    let mut host = Host::new();
    call(&mut host);
    call(&mut host);
    assert_ne!(count_cell_addr(&host, 0), count_cell_addr(&host, 1));
}

#[test]
fn removed_key_fails_with_key_not_found() {
    let mut host = Host::new();
    call(&mut host);
    let contract_hash = installed_contract_hash(&host);
    let addr = count_cell_addr(&host, contract_hash);
    increment_count(&mut host, contract_hash).expect("increment must succeed");
    // Simulate corruption: the registry entry disappears.
    host.packages[contract_hash].versions[0].named_keys.entries.clear();
    let r = increment_count(&mut host, contract_hash);
    assert_eq!(r, Err(Error::KeyNotFound));
    // The cell value is left unchanged by the failed transaction.
    assert_eq!(host.read(addr), 1);
}

#[test]
fn corrupted_key_fails_with_type_mismatch() {
    let mut host = Host::new();
    call(&mut host);
    let contract_hash = installed_contract_hash(&host);
    let addr = count_cell_addr(&host, contract_hash);
    // Simulate corruption: the entry no longer addresses a storage cell.
    host.packages[contract_hash].versions[0].named_keys.entries[0] =
        ("count_key".to_string(), KeyRef::Package { hash: contract_hash });
    let r = increment_count(&mut host, contract_hash);
    assert_eq!(r, Err(Error::TypeMismatch));
    assert_eq!(host.read(addr), 0);
}

#[test]
fn counter_wraps_at_the_type_bound() {
    let mut host = Host::new();
    call(&mut host);
    let contract_hash = installed_contract_hash(&host);
    let addr = count_cell_addr(&host, contract_hash);
    host.cells[addr] = u32::MAX;
    increment_count(&mut host, contract_hash).expect("increment must succeed");
    assert_eq!(host.read(addr), 0);
}

#[test]
fn error_codes_distinguish_the_kinds() {
    assert_eq!(Error::KeyAlreadyExists.code(), 0);
    assert_eq!(Error::KeyNotFound.code(), 1);
    assert_eq!(Error::TypeMismatch.code(), 2);
}

#[test]
fn registry_insert_replaces_an_existing_name() {
    let mut keys = counter::NamedKeys::new();
    keys.insert("count_key".to_string(), KeyRef::Cell { addr: 0 });
    keys.insert("count_key".to_string(), KeyRef::Cell { addr: 7 });
    assert_eq!(keys.entries.len(), 1);
    assert_eq!(
        keys.get(&"count_key".to_string()),
        Some(KeyRef::Cell { addr: 7 })
    );
}

#[test]
fn registry_lookup_of_an_absent_name() {
    let keys = counter::NamedKeys::new();
    assert_eq!(keys.get(&"count_key".to_string()), None);
}
