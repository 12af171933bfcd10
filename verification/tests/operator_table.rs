use betadog::table::OperatorTable;

#[test]
fn table_of_operators() {
    let mut ops = OperatorTable::new();
    assert_eq!(ops.get(&String::from("+")), None);
    assert_eq!(ops.insert(String::from("+"), 20), None);
    assert_eq!(ops.insert(String::from("*"), 40), None);
    assert_eq!(ops.get(&String::from("+")), Some(20));
    assert_eq!(ops.get(&String::from("*")), Some(40));
    assert_eq!(ops.get(&String::from("-")), None);
    assert_eq!(ops.get(&String::from("")), None);
    assert_eq!(ops.get(&String::from("++")), None);
}

#[test]
fn a_second_insert_replaces_the_level() {
    let mut ops = OperatorTable::new();
    ops.insert(String::from("+"), 20);
    ops.insert(String::from("*"), 40);
    assert_eq!(ops.insert(String::from("+"), -5), Some(20));
    assert_eq!(ops.get(&String::from("+")), Some(-5));
    assert_eq!(ops.get(&String::from("*")), Some(40));
    assert_eq!(ops.insert(String::from("+"), 7), Some(-5));
    let copy = ops.clone();
    assert_eq!(copy.get(&String::from("+")), Some(7));
}
