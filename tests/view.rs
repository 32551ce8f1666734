use ordered_sample::{
    decisions_from_skips, mask_from_skips, positions_from_skips, select_by_skips, Decision,
    ViewCursor,
};

#[test]
fn positions_of_skips() {
    assert_eq!(positions_from_skips(&vec![2, 0, 3], 10), vec![2, 3, 7]);
    assert_eq!(positions_from_skips(&vec![], 0), Vec::<usize>::new());
    assert_eq!(positions_from_skips(&vec![0, 0, 0], 3), vec![0, 1, 2]);
}

#[test]
fn mask_of_skips() {
    let m = mask_from_skips(&vec![2, 0, 3], 10);
    assert_eq!(
        m,
        vec![false, false, true, true, false, false, false, true, false, false]
    );
    assert_eq!(mask_from_skips(&vec![], 3), vec![false, false, false]);
}

#[test]
fn selection_keeps_order() {
    let items: Vec<u64> = (100..110).collect();
    assert_eq!(select_by_skips(&items, &vec![2, 0, 3]), vec![102, 103, 107]);
    assert_eq!(select_by_skips(&items, &vec![9]), vec![109]);
}

#[test]
fn full_selection_is_the_input() {
    let items: Vec<char> = "sample".chars().collect();
    assert_eq!(select_by_skips(&items, &vec![0; 6]), items);
}

#[test]
fn decisions_consume_whole_population() {
    let d = decisions_from_skips(&vec![2, 0, 3], 10);
    assert_eq!(
        d,
        vec![
            Decision::Skip(2),
            Decision::Select,
            Decision::Skip(0),
            Decision::Select,
            Decision::Skip(3),
            Decision::Select,
            Decision::Skip(2),
        ]
    );
    assert_eq!(decisions_from_skips(&vec![], 4), vec![Decision::Skip(4)]);
}

#[test]
fn cursor_discards_then_hands_out() {
    let mut c = ViewCursor::new();
    assert!(!c.is_armed());
    c.load(2);
    assert!(c.is_armed());
    assert!(!c.pull());
    assert!(!c.pull());
    assert!(c.pull());
    assert!(!c.is_armed());
    c.load(0);
    assert!(c.pull());
}
