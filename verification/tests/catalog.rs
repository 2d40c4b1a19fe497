use duckdelta::catalog::{contains_name, Catalog, DeltaMapping};
use duckdelta::error::Error;

fn names(list: &[&str]) -> Vec<String> {
    list.iter().map(|n| n.to_string()).collect()
}

fn entry(name: &str, location: &str) -> DeltaMapping {
    DeltaMapping { delta_path: location.to_string(), duck_table: name.to_string() }
}

#[test]
fn a_new_catalog_is_empty() {
    let catalog = Catalog::new();
    assert_eq!(catalog.len(), 0);
    assert_eq!(catalog.lookup(&names(&["a"])), vec![]);
}

#[test]
fn registered_entries_are_found_at_once() -> Result<(), Error> {
    let mut catalog = Catalog::new();
    catalog.register("tb1", "file:///lake/tb1")?;
    assert_eq!(catalog.len(), 1);
    assert_eq!(catalog.lookup(&names(&["tb1"])), vec![entry("tb1", "file:///lake/tb1")]);
    Ok(())
}

#[test]
fn lookup_returns_all_matches_in_order_of_registration() {
    let mut catalog = Catalog::new();
    catalog.register("a", "s3://l/a").unwrap();
    catalog.register("b", "s3://l/b").unwrap();
    catalog.register("c", "s3://l/c").unwrap();
    assert_eq!(
        catalog.lookup(&names(&["c", "a", "zzz"])),
        vec![entry("a", "s3://l/a"), entry("c", "s3://l/c")]
    );
    assert_eq!(catalog.lookup(&names(&[])), vec![]);
    assert_eq!(catalog.lookup(&names(&["A", "a ", ""])), vec![]);
}

#[test]
fn a_name_asked_twice_is_found_once() {
    let mut catalog = Catalog::new();
    catalog.register("a", "s3://l/a").unwrap();
    assert_eq!(catalog.lookup(&names(&["a", "a"])), vec![entry("a", "s3://l/a")]);
}

#[test]
fn a_name_registered_twice_has_two_entries() {
    let mut catalog = Catalog::new();
    catalog.register("a", "s3://l/one").unwrap();
    catalog.register("b", "s3://l/b").unwrap();
    catalog.register("a", "s3://l/two").unwrap();
    assert_eq!(catalog.len(), 3);
    assert_eq!(
        catalog.lookup(&names(&["a"])),
        vec![entry("a", "s3://l/one"), entry("a", "s3://l/two")]
    );
}

#[test]
fn contains_name_compares_whole_names() {
    let list = names(&["orders", "items"]);
    assert!(contains_name(&list, &"orders".to_string()));
    assert!(contains_name(&list, &"items".to_string()));
    assert!(!contains_name(&list, &"order".to_string()));
    assert!(!contains_name(&list, &"".to_string()));
    assert!(!contains_name(&vec![], &"orders".to_string()));
}
