use workflow_core::{Dict, ParameterSet, ToParameterSet};

#[test]
fn insert_and_get() {
    let mut d: Dict<u32> = Dict::new();
    assert_eq!(d.len(), 0);
    d.insert("b".to_string(), 2);
    d.insert("a".to_string(), 1);
    assert_eq!(d.len(), 2);
    assert_eq!(d.get(&"a".to_string()), Some(&1));
    assert_eq!(d.get(&"b".to_string()), Some(&2));
    assert_eq!(d.get(&"c".to_string()), None);
    assert!(d.contains_key(&"a".to_string()));
    assert!(!d.contains_key(&"c".to_string()));
}

#[test]
fn insert_replaces_and_keeps_order() {
    let mut d: Dict<u32> = Dict::new();
    d.insert("b".to_string(), 2);
    d.insert("a".to_string(), 1);
    d.insert("b".to_string(), 3);
    assert_eq!(d.len(), 2);
    assert_eq!(d.get(&"b".to_string()), Some(&3));
    let (k0, v0) = d.entry_at(0);
    let (k1, v1) = d.entry_at(1);
    assert_eq!((k0.as_str(), *v0), ("b", 3));
    assert_eq!((k1.as_str(), *v1), ("a", 1));
}

#[test]
fn clone_keeps_entries() {
    let mut d: Dict<String> = Dict::new();
    d.insert("x".to_string(), "1".to_string());
    d.insert("y".to_string(), "2".to_string());
    let c = d.clone();
    assert_eq!(c.len(), 2);
    assert_eq!(c.get(&"y".to_string()), Some(&"2".to_string()));
}

#[test]
fn to_params_keeps_last_value() {
    let pairs: &[(&str, &str)] = &[("key", "foobar"), ("other", "x"), ("key", "foobar2")];
    let params: ParameterSet = pairs.to_params();
    assert_eq!(params.len(), 2);
    assert_eq!(params.get(&"key".to_string()), Some(&"foobar2".to_string()));
    assert_eq!(params.get(&"other".to_string()), Some(&"x".to_string()));

    let params = [("input_file", "file1.txt"), ("compression_level", "9")].to_params();
    assert_eq!(params.len(), 2);
    assert_eq!(params.get(&"compression_level".to_string()), Some(&"9".to_string()));

    let owned = vec![("input_file".to_string(), "file1.txt".to_string())];
    let params = owned.to_params();
    assert_eq!(params.get(&"input_file".to_string()), Some(&"file1.txt".to_string()));
}
