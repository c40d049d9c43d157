use hdr_netflix::selection::{select_all, sort_and_dedup, text_lt, toggle_target_selection};

fn v(list: &[&str]) -> Vec<String> {
    list.iter().map(|s| s.to_string()).collect()
}

#[test]
fn ordering_is_string_order() {
    let pairs = [("a", "b"), ("a", "ab"), ("", "a"), ("Z", "a"), ("z", "é"), ("1:2:3", "1:2:30")];
    for (x, y) in pairs {
        assert!(text_lt(&x.to_string(), &y.to_string()));
        assert!(!text_lt(&y.to_string(), &x.to_string()));
        assert_eq!(text_lt(&x.to_string(), &y.to_string()), x.to_string() < y.to_string());
    }
    assert!(!text_lt(&"a".to_string(), &"a".to_string()));
}

#[test]
fn sorting_and_dropping_repeats() {
    let mut t = v(&["b", "a", "b", "c", "a"]);
    sort_and_dedup(&mut t);
    assert_eq!(t, v(&["a", "b", "c"]));
    let mut t = v(&[]);
    sort_and_dedup(&mut t);
    assert!(t.is_empty());
    let mut t = v(&["0:1:2", "-1:0:0", "0:1:10"]);
    let mut expected = t.clone();
    expected.sort();
    expected.dedup();
    sort_and_dedup(&mut t);
    assert_eq!(t, expected);
}

#[test]
fn toggling_displays() {
    let mut t = v(&[]);
    toggle_target_selection(&mut t, "k".to_string());
    assert_eq!(t, v(&["k"]));
    toggle_target_selection(&mut t, "k".to_string());
    assert!(t.is_empty());
    let mut t = v(&["b", "a"]);
    toggle_target_selection(&mut t, "c".to_string());
    assert_eq!(t, v(&["a", "b", "c"]));
    toggle_target_selection(&mut t, "a".to_string());
    assert_eq!(t, v(&["b", "c"]));
    let mut t = v(&["k", "k"]);
    toggle_target_selection(&mut t, "k".to_string());
    assert_eq!(t, v(&["k"]));
}

#[test]
fn toggling_twice_restores() {
    for start in [v(&[]), v(&["a"]), v(&["a", "b"]), v(&["k"])] {
        let mut t = start.clone();
        sort_and_dedup(&mut t);
        let saved = t.clone();
        toggle_target_selection(&mut t, "k".to_string());
        toggle_target_selection(&mut t, "k".to_string());
        assert_eq!(t, saved);
    }
}

#[test]
fn all_displays_clears() {
    let mut t = v(&["a"]);
    select_all(&mut t);
    assert!(t.is_empty());
}
