use duckdelta::error::Error;

#[test]
fn every_kind_carries_its_message() {
    let errors = [
        Error::Parse("a".to_string()),
        Error::Rewrite("b".to_string()),
        Error::Execution("c".to_string()),
        Error::StorageClassification("d".to_string()),
        Error::Storage("e".to_string()),
        Error::UnsupportedFormat("f".to_string()),
        Error::State("g".to_string()),
    ];
    let messages: Vec<&str> = errors.iter().map(|e| e.message().as_str()).collect();
    assert_eq!(messages, vec!["a", "b", "c", "d", "e", "f", "g"]);
}

#[test]
fn kinds_can_be_told_apart() {
    assert!(matches!(Error::Parse(String::new()), Error::Parse(_)));
    assert!(!matches!(Error::Execution(String::new()), Error::Parse(_)));
    assert_eq!(format!("{:?}", Error::State("x".to_string())), "State(\"x\")");
    let copy = Error::Storage("s".to_string()).clone();
    assert!(matches!(copy, Error::Storage(m) if m == "s"));
}
