use scriptvault::order::{key_less, push_path_key, push_text_key, sort_positions};

#[test]
fn keys_compare_lexicographically_with_prefix_first() {
    assert!(key_less(&vec![1, 2], &vec![1, 3]));
    assert!(key_less(&vec![1], &vec![1, 0]));
    assert!(!key_less(&vec![1, 0], &vec![1]));
    assert!(!key_less(&vec![2], &vec![2]));
}

#[test]
fn sorting_is_stable() {
    let keys = vec![vec![2], vec![1], vec![2], vec![0]];
    assert_eq!(sort_positions(&keys), vec![3, 1, 0, 2]);
}

#[test]
fn text_keys_order_like_strings() {
    let mut a = Vec::new();
    push_text_key(&mut a, "ab");
    let mut b = Vec::new();
    push_text_key(&mut b, "abc");
    let mut c = Vec::new();
    push_text_key(&mut c, "b");
    assert!(key_less(&a, &b));
    assert!(key_less(&b, &c));
}

#[test]
fn path_keys_follow_components() {
    let key = |p: &str| {
        let mut k = Vec::new();
        push_path_key(&mut k, p);
        k
    };
    assert!(key_less(&key("/s/a/x"), &key("/s/a-b/x")));
    assert_eq!(key("/s//a/"), key("/s/a"));
    assert_eq!(key("/s/./a"), key("/s/a"));
    assert!(key_less(&key("/a"), &key("a")));
    assert!(key_less(&key("./a"), &key("a")));
}
