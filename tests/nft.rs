use ic_kit::mock_principals;
use nft_registry::nft;
use nft_registry::nft::{Controller, DetailValue, NftCanister, OperationError, Registry};
use nft_registry::principal::Principal;

fn id(p: ic_kit::Principal) -> Principal {
    Principal::from_slice(p.as_slice())
}

fn xtc_info() -> NftCanister {
    NftCanister {
        name: String::from("xtc"),
        principal_id: id(mock_principals::xtc()),
        description: String::from("XTC is your cycles wallet."),
        thumbnail: String::from("https://google.com"),
        frontend: None,
        details: vec![(
            String::from("standard"),
            DetailValue::Text(String::from("Dank")),
        )],
    }
}

fn info_for(p: Principal, name: &str) -> NftCanister {
    let mut c = xtc_info();
    c.principal_id = p;
    c.name = String::from(name);
    c
}

fn alice_in_control() -> (Controller, Registry) {
    (Controller(id(mock_principals::alice())), Registry::new())
}

#[test]
fn test_controller() {
    let alice = id(mock_principals::alice());
    let bob = id(mock_principals::bob());
    let controller = nft::init(alice.clone());
    let mut registry = Registry::new();

    let canister_info = xtc_info();

    let mut addition = nft::add(&controller, &mut registry, &alice, xtc_info());
    assert!(addition.is_ok());

    let remove_operation = nft::remove(&controller, &mut registry, &alice, &id(mock_principals::xtc()));
    assert!(remove_operation.is_ok());

    addition = nft::add(&controller, &mut registry, &bob, canister_info);
    assert!(addition.is_err());
}

#[test]
fn test_add() {
    let (controller, mut registry) = alice_in_control();
    let alice = id(mock_principals::alice());
    assert!(nft::add(&controller, &mut registry, &alice, xtc_info()).is_ok());
}

#[test]
fn test_remove() {
    let (controller, mut registry) = alice_in_control();
    let alice = id(mock_principals::alice());
    assert!(nft::add(&controller, &mut registry, &alice, xtc_info()).is_ok());
    assert!(nft::remove(&controller, &mut registry, &alice, &id(mock_principals::xtc())).is_ok());
}

#[test]
fn test_get() {
    let (controller, mut registry) = alice_in_control();
    let alice = id(mock_principals::alice());
    let canister_info = xtc_info();
    assert!(nft::add(&controller, &mut registry, &alice, xtc_info()).is_ok());

    assert_eq!(
        nft::get(&registry, &id(mock_principals::xtc())).unwrap().name,
        canister_info.name
    );
    assert!(nft::get(&registry, &alice).is_none());
}

#[test]
fn test_get_all() {
    let (controller, mut registry) = alice_in_control();
    let alice = id(mock_principals::alice());
    let canister_info = xtc_info();
    assert!(nft::add(&controller, &mut registry, &alice, xtc_info()).is_ok());
    assert_eq!(nft::get_all(&registry)[0].name, canister_info.name);
}

#[test]
fn other_caller_is_not_authorized() {
    let alice = id(mock_principals::alice());
    let controller = nft::init(alice.clone());
    let mut registry = Registry::new();
    let bob = id(mock_principals::bob());
    let r = nft::add(&controller, &mut registry, &bob, xtc_info());
    assert!(matches!(r, Err(OperationError::NotAuthorized)));
    // authorization comes before validation
    let mut bad = xtc_info();
    bad.details.clear();
    let r = nft::add(&controller, &mut registry, &bob, bad);
    assert!(matches!(r, Err(OperationError::NotAuthorized)));
    let r = nft::remove(&controller, &mut registry, &bob, &id(mock_principals::xtc()));
    assert!(matches!(r, Err(OperationError::NotAuthorized)));
    assert!(registry.is_empty());
}

#[test]
fn handover_moves_authority() {
    let alice = id(mock_principals::alice());
    let bob = id(mock_principals::bob());
    let mut controller = nft::init(alice.clone());
    let mut registry = Registry::new();
    assert!(nft::set_controller(&mut controller, &alice, bob.clone()).is_ok());
    assert!(nft::is_controller(&controller, &bob));
    assert!(!nft::is_controller(&controller, &alice));
    let r = nft::add(&controller, &mut registry, &alice, xtc_info());
    assert!(matches!(r, Err(OperationError::NotAuthorized)));
    assert!(nft::add(&controller, &mut registry, &bob, xtc_info()).is_ok());
    // alice may no longer hand control back
    let r = nft::set_controller(&mut controller, &alice, alice.clone());
    assert!(matches!(r, Err(OperationError::NotAuthorized)));
    assert!(nft::is_controller(&controller, &bob));
}

#[test]
fn attributes_must_be_one_standard_pair() {
    let (controller, mut registry) = alice_in_control();
    let alice = id(mock_principals::alice());

    let mut none = xtc_info();
    none.details.clear();
    let r = nft::add(&controller, &mut registry, &alice, none);
    assert!(matches!(r, Err(OperationError::BadParameters)));

    let mut two = xtc_info();
    two.details.push((String::from("standard"), DetailValue::True));
    let r = nft::add(&controller, &mut registry, &alice, two);
    assert!(matches!(r, Err(OperationError::BadParameters)));

    let mut other_key = xtc_info();
    other_key.details[0].0 = String::from("standards");
    let r = nft::add(&controller, &mut registry, &alice, other_key);
    assert!(matches!(r, Err(OperationError::BadParameters)));

    let mut upper = xtc_info();
    upper.details[0].0 = String::from("Standard");
    let r = nft::add(&controller, &mut registry, &alice, upper);
    assert!(matches!(r, Err(OperationError::BadParameters)));
    assert!(registry.is_empty());
}

#[test]
fn name_of_120_characters_is_the_limit() {
    let (controller, mut registry) = alice_in_control();
    let alice = id(mock_principals::alice());
    let mut ok = xtc_info();
    ok.name = "n".repeat(120);
    assert!(nft::add(&controller, &mut registry, &alice, ok).is_ok());
    let mut long = xtc_info();
    long.name = "n".repeat(121);
    let r = nft::add(&controller, &mut registry, &alice, long);
    assert!(matches!(r, Err(OperationError::BadParameters)));
    // characters are counted, not bytes
    let mut wide = xtc_info();
    wide.name = "é".repeat(120);
    assert!(nft::add(&controller, &mut registry, &alice, wide).is_ok());
}

#[test]
fn description_of_1200_characters_is_the_limit() {
    let (controller, mut registry) = alice_in_control();
    let alice = id(mock_principals::alice());
    let mut ok = xtc_info();
    ok.description = "d".repeat(1200);
    assert!(nft::add(&controller, &mut registry, &alice, ok).is_ok());
    let mut long = xtc_info();
    long.description = "d".repeat(1201);
    let r = nft::add(&controller, &mut registry, &alice, long);
    assert!(matches!(r, Err(OperationError::BadParameters)));
}

#[test]
fn urls_are_checked() {
    let (controller, mut registry) = alice_in_control();
    let alice = id(mock_principals::alice());
    let mut thumb = xtc_info();
    thumb.thumbnail = String::from("not a url");
    let r = nft::add(&controller, &mut registry, &alice, thumb);
    assert!(matches!(r, Err(OperationError::BadParameters)));

    let mut front = xtc_info();
    front.frontend = Some(String::from("nowhere"));
    let r = nft::add(&controller, &mut registry, &alice, front);
    assert!(matches!(r, Err(OperationError::BadParameters)));

    let mut good_front = xtc_info();
    good_front.frontend = Some(String::from("https://example.org/app"));
    assert!(nft::add(&controller, &mut registry, &alice, good_front).is_ok());
}

#[test]
fn check_fields_takes_url_verdicts() {
    let info = xtc_info();
    assert!(nft::check_fields(&info, true, true).is_ok());
    assert!(matches!(nft::check_fields(&info, false, true), Err(OperationError::BadParameters)));
    assert!(matches!(nft::check_fields(&info, true, false), Err(OperationError::BadParameters)));
    assert!(nft::validate(&info).is_ok());
}

#[test]
fn remove_unknown_then_known() {
    let (controller, mut registry) = alice_in_control();
    let alice = id(mock_principals::alice());
    let xtc = id(mock_principals::xtc());
    let r = nft::remove(&controller, &mut registry, &alice, &xtc);
    assert!(matches!(r, Err(OperationError::NonExistentItem)));
    assert!(nft::add(&controller, &mut registry, &alice, xtc_info()).is_ok());
    assert!(nft::remove(&controller, &mut registry, &alice, &xtc).is_ok());
    assert!(nft::get(&registry, &xtc).is_none());
    let r = nft::remove(&controller, &mut registry, &alice, &xtc);
    assert!(matches!(r, Err(OperationError::NonExistentItem)));
}

#[test]
fn adding_same_identifier_replaces() {
    let (controller, mut registry) = alice_in_control();
    let alice = id(mock_principals::alice());
    let xtc = id(mock_principals::xtc());
    assert!(nft::add(&controller, &mut registry, &alice, info_for(xtc.clone(), "first")).is_ok());
    assert!(nft::add(&controller, &mut registry, &alice, info_for(xtc.clone(), "second")).is_ok());
    assert_eq!(nft::get_all(&registry).len(), 1);
    assert_eq!(nft::get(&registry, &xtc).unwrap().name, "second");
}

#[test]
fn get_all_lists_each_distinct_record() {
    let (controller, mut registry) = alice_in_control();
    let alice = id(mock_principals::alice());
    let names = ["a", "b", "c", "d"];
    for (i, n) in names.iter().enumerate() {
        let p = Principal::from_slice(&[1, 2, i as u8]);
        assert!(nft::add(&controller, &mut registry, &alice, info_for(p, n)).is_ok());
    }
    let all = nft::get_all(&registry);
    assert_eq!(all.len(), 4);
    let mut listed: Vec<String> = all.iter().map(|c| c.name.clone()).collect();
    listed.sort();
    assert_eq!(listed, vec!["a", "b", "c", "d"]);
}

#[test]
fn archive_then_load_restores_contents() {
    let (controller, mut registry) = alice_in_control();
    let alice = id(mock_principals::alice());
    for i in 0..3u8 {
        let p = Principal::from_slice(&[9, i]);
        assert!(nft::add(&controller, &mut registry, &alice, info_for(p, &format!("r{}", i))).is_ok());
    }
    let snapshot = registry.archive();
    assert_eq!(snapshot.len(), 3);
    assert!(registry.is_empty());
    assert!(nft::get_all(&registry).is_empty());

    let mut restored = Registry::new();
    restored.load(snapshot);
    assert!(!restored.is_empty());
    for i in 0..3u8 {
        let p = Principal::from_slice(&[9, i]);
        assert_eq!(nft::get(&restored, &p).unwrap().name, format!("r{}", i));
    }
    assert_eq!(nft::get_all(&restored).len(), 3);
}

#[test]
fn load_keeps_the_later_of_two_pairs() {
    let p = Principal::from_slice(&[7]);
    let pairs = vec![
        (p.clone(), info_for(p.clone(), "old")),
        (p.clone(), info_for(p.clone(), "new")),
    ];
    let mut registry = Registry::default();
    registry.load(pairs);
    assert_eq!(nft::get_all(&registry).len(), 1);
    assert_eq!(registry.get(&p).unwrap().name, "new");
}

#[test]
fn empty_archive_loads_to_empty() {
    let mut registry = Registry::new();
    let snapshot = registry.archive();
    assert!(snapshot.is_empty());
    registry.load(snapshot);
    assert!(registry.is_empty());
}

#[test]
fn registry_level_remove_and_add() {
    let mut registry = Registry::new();
    let p = Principal::from_slice(&[3, 3]);
    assert!(matches!(registry.remove(&p), Err(OperationError::NonExistentItem)));
    assert!(registry.add(info_for(p.clone(), "x")).is_ok());
    assert_eq!(registry.get_all().len(), 1);
    assert!(registry.remove(&p).is_ok());
    assert!(registry.get(&p).is_none());
}

#[test]
fn principal_bytes_round_trip() {
    let raw = mock_principals::xtc();
    let p = id(raw);
    assert_eq!(p.as_slice(), raw.as_slice());
    assert!(p == p.clone());
    assert!(p != id(mock_principals::alice()));
}

#[test]
fn service_name() {
    assert_eq!(nft::name(), "NFT Registry Canister");
}
