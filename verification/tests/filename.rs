use drive_download::filename::{accepts_filename, sanitize_filename, MAX_FILENAME_BYTES};

#[test]
fn slashes_become_underscores() {
    assert_eq!(sanitize_filename("a/b/c.txt"), ("a_b_c.txt".to_string(), false));
    assert_eq!(sanitize_filename("/"), ("_".to_string(), false));
}

#[test]
fn clean_names_stay() {
    assert_eq!(sanitize_filename("report.pdf"), ("report.pdf".to_string(), false));
    assert_eq!(sanitize_filename(""), (String::new(), false));
    assert_eq!(sanitize_filename(".."), ("..".to_string(), false));
    assert_eq!(sanitize_filename("\u{e4}\u{20ac}\u{1f600}"), ("\u{e4}\u{20ac}\u{1f600}".to_string(), false));
}

#[test]
fn the_limit_is_inclusive() {
    assert_eq!(MAX_FILENAME_BYTES, 255);
    let longest = "x".repeat(255);
    assert_eq!(sanitize_filename(&longest), (longest.clone(), false));
    let longer = "x".repeat(256);
    assert_eq!(sanitize_filename(&longer), (longest, true));
}

#[test]
fn the_extension_survives_the_cut() {
    let name = format!("{}.tar.gz", "y".repeat(300));
    let (safe, cut) = sanitize_filename(&name);
    assert!(cut);
    assert_eq!(safe, format!("{}.gz", "y".repeat(252)));
    assert_eq!(safe.len(), 255);
}

#[test]
fn characters_are_not_cut_in_two() {
    // 130 characters of two bytes each, and four bytes of extension.
    let name = format!("{}.txt", "\u{e9}".repeat(130));
    let (safe, cut) = sanitize_filename(&name);
    assert!(cut);
    assert_eq!(safe, format!("{}.txt", "\u{e9}".repeat(125)));
    assert_eq!(safe.len(), 254);

    let wide = format!("{}.md", "\u{1f600}".repeat(80));
    assert_eq!(sanitize_filename(&wide).0, format!("{}.md", "\u{1f600}".repeat(63)));
    let three = format!("{}z", "\u{20ac}".repeat(85));
    assert_eq!(sanitize_filename(&three), ("\u{20ac}".repeat(85), true));
}

#[test]
fn an_extension_may_fill_the_name() {
    let extension = format!(".{}", "e".repeat(254));
    let name = format!("stem{}", extension);
    assert!(accepts_filename(&name));
    assert_eq!(sanitize_filename(&name), (extension, true));
}

#[test]
fn an_extension_that_is_too_long_is_not_accepted() {
    assert!(!accepts_filename(&format!("a.{}", "e".repeat(255))));
    assert!(!accepts_filename(&format!(".{}", "e".repeat(255))));
    assert!(accepts_filename(&"e".repeat(400)));
    assert!(accepts_filename(&format!(".{}", "e".repeat(254))));
    assert!(accepts_filename("a.b"));
}

#[test]
fn sanitizing_twice_is_sanitizing_once() {
    for name in ["a/b", "plain", &"w".repeat(600), &format!("{}/x.jpeg", "\u{e9}".repeat(400))] {
        let (once, _) = sanitize_filename(name);
        assert_eq!(sanitize_filename(&once), (once.clone(), false));
        assert!(once.len() <= MAX_FILENAME_BYTES);
        assert!(!once.contains('/'));
    }
}
