use segfetch::store::{list, parse_index, StoreError};

#[test]
fn list_orders_numerically_not_lexicographically() {
    let names = vec![
        String::from("0.ts"),
        String::from("1.ts"),
        String::from("10.ts"),
        String::from("2.ts"),
    ];
    let entries = list(&names).unwrap();
    let indices: Vec<u32> = entries.iter().map(|e| e.index).collect();
    assert_eq!(indices, vec![0, 1, 2, 10]);
    let ordered: Vec<&str> = entries.iter().map(|e| e.name.as_str()).collect();
    assert_eq!(ordered, vec!["0.ts", "1.ts", "2.ts", "10.ts"]);
}

#[test]
fn list_rejects_malformed_entry() {
    let names = vec![String::from("0.ts"), String::from("abc.ts")];
    assert!(matches!(list(&names), Err(StoreError::MalformedEntry)));
}

#[test]
fn list_of_empty_directory_is_empty() {
    let names: Vec<String> = Vec::new();
    let entries = list(&names).unwrap();
    assert!(entries.is_empty());
}

#[test]
fn parse_index_reads_decimal_stem() {
    assert_eq!(parse_index("7.ts"), Some(7));
    assert_eq!(parse_index("007.ts"), Some(7));
    assert_eq!(parse_index("10.ts"), Some(10));
    assert_eq!(parse_index("12"), Some(12));
    assert_eq!(parse_index("1.2.ts"), Some(1));
}

#[test]
fn parse_index_rejects_non_numeric_stems() {
    assert_eq!(parse_index("abc.ts"), None);
    assert_eq!(parse_index(".ts"), None);
    assert_eq!(parse_index(""), None);
    assert_eq!(parse_index("1a.ts"), None);
    assert_eq!(parse_index("-1.ts"), None);
}

#[test]
fn parse_index_observes_the_index_type_bound() {
    assert_eq!(parse_index("4294967295.ts"), Some(u32::MAX));
    assert_eq!(parse_index("4294967296.ts"), None);
    assert_eq!(parse_index("99999999999999999999.ts"), None);
}

#[test]
fn stored_segment_names_parse_back_to_their_index() {
    // The acquisition loop stores index n under "<n>.ts"; listing the
    // store must recover exactly that index.
    for n in [0u32, 1, 9, 10, 4097, u32::MAX] {
        let name = format!("{}.ts", n);
        assert_eq!(parse_index(&name), Some(n));
    }
}

#[test]
fn list_keeps_equal_indices_together() {
    let names = vec![
        String::from("2.ts"),
        String::from("02.mp4"),
        String::from("1.ts"),
    ];
    let entries = list(&names).unwrap();
    let indices: Vec<u32> = entries.iter().map(|e| e.index).collect();
    assert_eq!(indices, vec![1, 2, 2]);
}
