use drive_download::ways::{fill, Way};

fn way(ids: &[&str]) -> Way {
    let mut way = Way::new();
    for id in ids {
        way = way.into_folder(&id.to_string());
    }
    way
}

fn has(way: &Way, id: &str) -> bool {
    way.has(&id.to_string())
}

#[test]
fn a_way_has_the_folders_that_it_went_into() {
    assert!(!has(&Way::new(), "a"));
    let both = way(&["a", "b"]);
    assert!(has(&both, "a") && has(&both, "b") && !has(&both, "c"));
    let copy = both.copy();
    let longer = both.into_folder(&"c".to_string());
    assert!(has(&longer, "a") && has(&longer, "c"));
    assert!(has(&copy, "b") && !has(&copy, "c") && !has(&both, "c"));
}

#[test]
fn ways_are_filled_up() {
    let mut ways = vec![way(&["a"]), way(&["b"])];
    fill(&mut ways, 4, &way(&["c"]));
    assert_eq!(ways.len(), 4);
    assert!(has(&ways[0], "a") && has(&ways[1], "b"));
    assert!(has(&ways[2], "c") && has(&ways[3], "c") && !has(&ways[3], "a"));
    fill(&mut ways, 1, &Way::new());
    assert_eq!(ways.len(), 1);
    assert!(has(&ways[0], "a"));
    fill(&mut ways, 1, &way(&["d"]));
    assert!(!has(&ways[0], "d"));
}
