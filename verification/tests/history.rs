use echo::history::{add_to_history, HISTORY_LIMIT};

#[test]
fn newest_entry_comes_first() {
    let h = add_to_history(vec![2, 1], 3);
    assert_eq!(h, vec![3, 2, 1]);
    assert_eq!(add_to_history(Vec::<i32>::new(), 7), vec![7]);
}

#[test]
fn history_keeps_at_most_fifty() {
    let mut h: Vec<u32> = Vec::new();
    for i in 0..120u32 {
        h = add_to_history(h, i);
        assert!(h.len() <= HISTORY_LIMIT);
    }
    assert_eq!(h.len(), 50);
    assert_eq!(h[0], 119);
    assert_eq!(h[49], 70);
    let full: Vec<u32> = (0..50).collect();
    let next = add_to_history(full.clone(), 99);
    assert_eq!(next[0], 99);
    assert_eq!(&next[1..], &full[..49]);
}
