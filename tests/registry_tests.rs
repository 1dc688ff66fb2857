use bloomlib::BloomFilter;
use bloomsrv::filter::{CreationMode, ProbabilisticSet, ONE_BITS};
use bloomsrv::registry::{FilterRegistry, RateSized, RegistryError};

fn rate_sized(n: usize, p: f64) -> RateSized {
    RateSized { rate_bits: p.to_bits(), filter: BloomFilter::new(n, p) }
}

fn s(text: &str) -> String {
    text.to_string()
}

#[test]
fn test_create_filter_validation() {
    let mut reg = FilterRegistry::default();
    let r = reg.create(s("bad_filter"), 1000, None, None);
    assert_eq!(r, Err(RegistryError::InvalidRequest));
    assert_eq!(reg.len(), 0);
    assert!(reg.list().is_empty());
}

#[test]
fn test_delete_non_existent() {
    let mut reg = FilterRegistry::default();
    assert_eq!(reg.delete(&s("ghost_filter")), Err(RegistryError::NotFound));
}

#[test]
fn test_full_filter_lifecycle() {
    let mut reg = FilterRegistry::default();
    let name = s("login_attempts");
    let item = s("user_123");

    let filter_id = reg.create(name.clone(), 1000, None, Some(rate_sized(1000, 0.01))).unwrap();
    assert!(!filter_id.is_empty());

    let list = reg.list();
    assert_eq!(list.len(), 1);
    assert_eq!(list[0].name, "login_attempts");

    assert_eq!(reg.contains_item(&name, &item), Ok(false));
    assert_eq!(reg.insert_item(&name, &item), Ok(()));
    assert_eq!(reg.contains_item(&name, &item), Ok(true));
    assert_eq!(reg.clear_filter(&name), Ok(()));
    assert_eq!(reg.contains_item(&name, &item), Ok(false));

    assert_eq!(reg.delete(&filter_id), Ok(name.clone()));
    assert_eq!(reg.list().len(), 0);
}

#[test]
fn create_returns_hyphenated_identifier() {
    let mut reg = FilterRegistry::new();
    let id = reg.create(s("logins"), 1000, Some(7), None).unwrap();
    assert_eq!(id.len(), 36);
    assert_eq!(id.matches('-').count(), 4);
    let list = reg.list();
    assert_eq!(list[0].id, id);
    assert_eq!(list[0].item_count, 1000);
    assert_eq!(list[0].config, CreationMode::HashCount(7));
}

#[test]
fn duplicate_name_conflicts() {
    let mut reg = FilterRegistry::new();
    assert!(reg.create(s("logins"), 10, Some(3), None).is_ok());
    assert_eq!(reg.create(s("logins"), 10, Some(3), None), Err(RegistryError::NameConflict));
    // the name check comes before the request check
    assert_eq!(reg.create(s("logins"), 10, None, None), Err(RegistryError::NameConflict));
    assert_eq!(reg.len(), 1);
}

#[test]
fn both_modes_or_bad_values_are_invalid() {
    let mut reg = FilterRegistry::new();
    assert_eq!(
        reg.create(s("a"), 10, Some(3), Some(rate_sized(10, 0.01))),
        Err(RegistryError::InvalidRequest)
    );
    assert_eq!(reg.create(s("b"), 0, Some(3), None), Err(RegistryError::InvalidRequest));
    assert_eq!(reg.create(s("c"), 10, Some(0), None), Err(RegistryError::InvalidRequest));
    let bad_rate = RateSized { rate_bits: 1.0f64.to_bits(), filter: BloomFilter::new(10, 0.5) };
    assert_eq!(reg.create(s("d"), 10, None, Some(bad_rate)), Err(RegistryError::InvalidRequest));
    let zero_rate = RateSized { rate_bits: 0.0f64.to_bits(), filter: BloomFilter::new(10, 0.5) };
    assert_eq!(reg.create(s("e"), 10, None, Some(zero_rate)), Err(RegistryError::InvalidRequest));
    assert_eq!(reg.len(), 0);
}

#[test]
fn create_with_id_keeps_given_identifier() {
    let mut reg = FilterRegistry::new();
    let r = reg.create_with_id(s("id-1"), s("logins"), 1000, None, Some(rate_sized(1000, 0.01)));
    assert_eq!(r, Ok(s("id-1")));
    assert_eq!(reg.list()[0].config, CreationMode::FalsePositiveRate(0.01f64.to_bits()));
}

#[test]
fn delete_prefers_name_then_identifier() {
    let mut reg = FilterRegistry::new();
    reg.create_with_id(s("beta"), s("alpha"), 10, Some(2), None).unwrap();
    reg.create_with_id(s("x"), s("beta"), 10, Some(2), None).unwrap();
    // "beta" is a name: that record goes, not the one identified by "beta"
    assert_eq!(reg.delete(&s("beta")), Ok(s("beta")));
    assert_eq!(reg.len(), 1);
    // now "beta" is only an identifier
    assert_eq!(reg.delete(&s("beta")), Ok(s("alpha")));
    assert_eq!(reg.len(), 0);
    assert_eq!(reg.delete(&s("beta")), Err(RegistryError::NotFound));
}

#[test]
fn delete_only_filter_leaves_list_empty() {
    let mut reg = FilterRegistry::new();
    reg.create(s("only"), 5, Some(1), None).unwrap();
    assert_eq!(reg.delete(&s("only")), Ok(s("only")));
    assert!(reg.list().is_empty());
}

#[test]
fn operations_on_missing_filter_are_not_found() {
    let mut reg = FilterRegistry::new();
    let missing = s("nope");
    assert_eq!(reg.insert_item(&missing, &s("x")), Err(RegistryError::NotFound));
    assert_eq!(reg.contains_item(&missing, &s("x")), Err(RegistryError::NotFound));
    assert_eq!(reg.clear_filter(&missing), Err(RegistryError::NotFound));
}

#[test]
fn no_false_negatives_over_many_items() {
    let mut set = ProbabilisticSet::with_hash_count(100, 5);
    let items: Vec<String> = (0..100).map(|i| format!("item-{i}")).collect();
    for it in &items {
        set.insert(it);
        assert!(set.contains(it));
    }
    for it in &items {
        assert!(set.contains(it));
    }
    set.clear();
    for it in &items {
        assert!(!set.contains(it));
    }
    assert_eq!(set.hash_count(), 5);
}

#[test]
fn sizing_keeps_hash_count() {
    let a = ProbabilisticSet::with_hash_count(1000, 7);
    let b = ProbabilisticSet::with_hash_count(1000, 7);
    assert_eq!(a.hash_count(), 7);
    assert_eq!(a.hash_count(), b.hash_count());
}

#[test]
fn from_filter_empties_the_filter() {
    let mut f: BloomFilter<String> = BloomFilter::new(100, 0.01);
    f.insert(&s("seen"));
    let set = ProbabilisticSet::from_filter(f).unwrap();
    assert!(!set.contains(&s("seen")));
    assert_eq!(set.hash_count(), 7);
}

#[test]
fn mode_validity() {
    assert!(CreationMode::FalsePositiveRate(0.01f64.to_bits()).is_valid());
    assert!(!CreationMode::FalsePositiveRate(ONE_BITS).is_valid());
    assert!(!CreationMode::FalsePositiveRate((-0.5f64).to_bits()).is_valid());
    assert!(!CreationMode::FalsePositiveRate(f64::NAN.to_bits()).is_valid());
    assert!(CreationMode::HashCount(1).is_valid());
    assert!(!CreationMode::HashCount(0).is_valid());
}

#[test]
fn empty_name_is_invalid() {
    let mut reg = FilterRegistry::new();
    assert_eq!(reg.create(s(""), 10, Some(3), None), Err(RegistryError::InvalidRequest));
    assert_eq!(reg.len(), 0);
}

#[test]
fn identifiers_are_distinct() {
    let mut reg = FilterRegistry::new();
    let a = reg.create(s("a"), 10, Some(3), None).unwrap();
    let b = reg.create(s("b"), 10, Some(3), None).unwrap();
    let c = reg.create(s("c"), 10, None, Some(rate_sized(10, 0.1))).unwrap();
    assert_ne!(a, b);
    assert_ne!(a, c);
    assert_ne!(b, c);
    assert!(a.len() >= 36 && b.len() >= 36 && c.len() >= 36);
}
