use rhubarb::database::SetRegistry;
use rhubarb::idset::IdSet;
use rhubarb::loader::{cell_label, normalize, registry_from_table, LoadError};
use rhubarb::registry::RoleRegistry;

fn strings(words: &[&str]) -> Vec<String> {
    words.iter().map(|w| w.to_string()).collect()
}

fn set_of(words: &str) -> IdSet {
    let mut set = IdSet::new();
    for w in words.split_whitespace() {
        set.insert(w.to_string());
    }
    set
}

#[test]
fn insert_creates_and_extends_labels() {
    let mut reg = RoleRegistry::new();
    assert!(reg.lookup(&"A".to_string()).is_none());
    reg.insert("A".to_string(), "1".to_string());
    reg.insert("A".to_string(), "2".to_string());
    reg.insert("A".to_string(), "1".to_string());
    assert_eq!(*reg.lookup(&"A".to_string()).unwrap(), set_of("1 2"));
    assert_eq!(reg.lookup(&"A".to_string()).unwrap().len(), 2);
}

#[test]
fn delete_removes_a_label_left_empty() {
    let mut reg = RoleRegistry::new();
    reg.insert("A".to_string(), "1".to_string());
    reg.insert("A".to_string(), "2".to_string());
    reg.insert("B".to_string(), "3".to_string());
    reg.delete(&"A".to_string(), &"1".to_string());
    assert_eq!(*reg.lookup(&"A".to_string()).unwrap(), set_of("2"));
    reg.delete(&"A".to_string(), &"2".to_string());
    assert!(reg.lookup(&"A".to_string()).is_none());
    reg.delete(&"Z".to_string(), &"2".to_string());
    reg.delete(&"B".to_string(), &"9".to_string());
    assert_eq!(*reg.lookup(&"B".to_string()).unwrap(), set_of("3"));
}

#[test]
fn set_registry_insert_and_delete() {
    let mut reg = SetRegistry::new();
    assert!(reg.etl_timestamp > 0);
    reg.insert("k".to_string(), "v".to_string());
    assert_eq!(*reg.data.lookup(&"k".to_string()).unwrap(), set_of("v"));
    reg.delete(&"k".to_string(), &"v".to_string());
    assert!(reg.data.lookup(&"k".to_string()).is_none());
    assert!(reg.ids.is_empty());
}

#[test]
fn id_set_operations() {
    let a = set_of("1 2 3");
    let b = set_of("3 4");
    assert_eq!(a.union(&b), set_of("1 2 3 4"));
    assert_eq!(a.intersection(&b), set_of("3"));
    assert_eq!(a.difference(&b), set_of("1 2"));
    assert!(set_of("3").is_subset_of(&a));
    assert!(!b.is_subset_of(&a));
    let mut c = a.copy();
    c.remove(&"2".to_string());
    assert_eq!(c, set_of("1 3"));
    assert!(!c.contains(&"2".to_string()));
    let mut v = a.to_vec();
    v.sort();
    assert_eq!(v, strings(&["1", "2", "3"]));
}

#[test]
fn fields_are_normalized() {
    assert_eq!(normalize("  Tax Dept (UK) "), "tax_dept__uk_");
    assert_eq!(normalize("ID"), "id");
    assert_eq!(normalize(" \t "), "");
    assert_eq!(cell_label(&"department".to_string(), &" Tax ".to_string()), "department:tax");
}

#[test]
fn table_becomes_registry() {
    let headers = strings(&["Id", "Department", " Designation "]);
    let rows = vec![
        strings(&["e1", "Tax", "Partner"]),
        strings(&["e2", "tax", "Senior Manager"]),
        strings(&["e3", "Audit"]),
    ];
    let reg = registry_from_table(&headers, &rows).unwrap();
    assert_eq!(reg.ids, set_of("e1 e2 e3"));
    assert_eq!(*reg.data.lookup(&"department:tax".to_string()).unwrap(), set_of("e1 e2"));
    assert_eq!(*reg.data.lookup(&"department:audit".to_string()).unwrap(), set_of("e3"));
    assert_eq!(
        *reg.data.lookup(&"designation:senior_manager".to_string()).unwrap(),
        set_of("e2")
    );
    assert!(reg.data.lookup(&"id:e1".to_string()).is_none());
}

#[test]
fn table_without_id_column_is_refused() {
    let rows = vec![strings(&["e1", "Tax"])];
    assert_eq!(
        registry_from_table(&strings(&["name", "id"]), &rows).unwrap_err(),
        LoadError::MissingIdColumn
    );
    assert_eq!(registry_from_table(&Vec::new(), &rows).unwrap_err(), LoadError::MissingIdColumn);
}

#[test]
fn row_without_cells_is_refused() {
    let rows = vec![strings(&["e1", "Tax"]), Vec::new()];
    assert_eq!(
        registry_from_table(&strings(&["id", "dept"]), &rows).unwrap_err(),
        LoadError::EmptyRecord(1)
    );
}
