use alixt::AList;

#[test]
fn into_iterator_works() {
    let mut list: AList<String> = AList::new();
    list.push("Hello".to_string());
    list.push(",".to_string());
    list.push("world".to_string());
    list.push("!".to_string());

    let mut results: Vec<String> = Vec::new();
    let mut cursor = list.into_iter();
    while let Some(s) = cursor.next() {
        results.push(s);
    }
    assert_eq!(
        results,
        vec![
            "!".to_string(),
            "world".to_string(),
            ",".to_string(),
            "Hello".to_string(),
        ]
    );
}

#[test]
fn rev_on_into_iter() {
    let mut list: AList<usize> = AList::new();

    (0..10).for_each(|i| list.push(i));

    let mut cursor = list.into_iter();
    let mut i = 0;
    while let Some(v) = cursor.next_back() {
        assert_eq!(i, v);
        i += 1;
    }
    assert_eq!(i, 10);
}
