use hbbs::table::Table;

fn keys(t: &Table<i32>) -> Vec<(String, i32)> {
    (0..t.len()).map(|i| t.entry(i).clone()).collect()
}

#[test]
fn insert_then_read_back() {
    let mut t = Table::new();
    t.insert("a".to_string(), 1);
    t.insert("b".to_string(), 2);
    t.insert("a".to_string(), 3);
    // an existing key keeps its place and takes the new value
    assert_eq!(keys(&t), vec![("a".to_string(), 3), ("b".to_string(), 2)]);
    assert_eq!(t.index_of(&"b".to_string()), Some(1));
    assert_eq!(t.index_of(&"c".to_string()), None);
}

#[test]
fn remove_and_put_back() {
    let mut t = Table::new();
    for (k, v) in [("x", 1), ("y", 2), ("z", 3)] {
        t.insert(k.to_string(), v);
    }
    let e = t.remove_at(1);
    assert_eq!(e, ("y".to_string(), 2));
    assert_eq!(t.index_of(&"y".to_string()), None);
    assert_eq!(keys(&t), vec![("x".to_string(), 1), ("z".to_string(), 3)]);
    t.insert_at(1, e);
    assert_eq!(keys(&t), vec![("x".to_string(), 1), ("y".to_string(), 2), ("z".to_string(), 3)]);
}

#[test]
fn keep_filters_in_order() {
    let mut t = Table::new();
    for (k, v) in [("x", 1), ("y", 2), ("z", 3)] {
        t.insert(k.to_string(), v);
    }
    t.keep(&vec![true, false, true]);
    assert_eq!(keys(&t), vec![("x".to_string(), 1), ("z".to_string(), 3)]);
}
