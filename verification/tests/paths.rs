use drive_download::paths::{join_name, pathdiff_relative, relative_steps, PartKind, PathPart};
use std::path::PathBuf;

fn diff(base: &str, target: &str) -> PathBuf {
    pathdiff_relative(&PathBuf::from(base), &PathBuf::from(target))
}

#[test]
fn names_are_joined() {
    assert_eq!(join_name(&PathBuf::from("/data"), "a.txt"), PathBuf::from("/data/a.txt"));
    assert_eq!(join_name(&PathBuf::from("."), "a.txt").to_str(), Some("./a.txt"));
    assert_eq!(join_name(&PathBuf::from("x/"), "y").to_str(), Some("x/y"));
    assert_eq!(join_name(&PathBuf::from("x"), "/y").to_str(), Some("/y"));
}

#[test]
fn siblings_need_no_step_up() {
    assert_eq!(diff("/root/dir", "/root/dir/file").to_str(), Some("file"));
    assert_eq!(diff("/root/dir", "/root/dir/sub/file").to_str(), Some("sub/file"));
}

#[test]
fn cousins_go_up_and_down() {
    assert_eq!(diff("/root/a/b", "/root/c/file").to_str(), Some("../../c/file"));
    assert_eq!(diff("/root/a/b", "/root/a/file").to_str(), Some("../file"));
    assert_eq!(diff("a/b", "c").to_str(), Some("../../c"));
}

#[test]
fn names_may_look_like_drives() {
    assert_eq!(diff("/root/a", "/root/C:x/f").to_str(), Some("../C:x/f"));
    assert_eq!(diff("/root/C:x", "/root/f").to_str(), Some("../f"));
}

#[test]
fn a_directory_leads_to_itself() {
    assert_eq!(diff("/root/a", "/root/a").to_str(), Some(""));
    assert_eq!(diff("/root/a/b", "/root").to_str(), Some("../.."));
}

#[test]
fn separators_and_dots_do_not_count() {
    assert_eq!(diff("/root//a/./b", "/root/a/c").to_str(), Some("../c"));
    assert_eq!(diff("./a", "b").to_str(), Some("../b"));
    assert_eq!(diff("a", "./b").to_str(), Some("../b"));
    assert_eq!(diff("./a", "a/b").to_str(), Some("b"));
    assert_eq!(diff(".", "b").to_str(), Some("b"));
    assert_eq!(diff(".", ".").to_str(), Some(""));
}

#[test]
fn an_absolute_target_stands_alone() {
    assert_eq!(diff("a", "/b/c").to_str(), Some("/b/c"));
}

#[test]
fn the_relative_path_leads_to_the_target() {
    for (base, target) in [("/r/a/b/c", "/r/a/x/y"), ("/r", "/r/a"), ("/r/a/b", "/r/f")] {
        let mut place: Vec<String> = base.split('/').map(|part| part.to_string()).collect();
        for part in diff(base, target).components() {
            let part = part.as_os_str().to_str().unwrap().to_string();
            if part == ".." {
                place.pop();
            } else {
                place.push(part);
            }
        }
        assert_eq!(place.join("/"), target);
    }
}

fn part(text: &str) -> PathPart {
    let kind = match text {
        "/" => PartKind::RootDir,
        "." => PartKind::CurDir,
        ".." => PartKind::ParentDir,
        _ => PartKind::Normal,
    };
    PathPart { kind, path: PathBuf::from(text) }
}

fn steps(base: &[&str], target: &[&str]) -> Vec<String> {
    let base: Vec<PathPart> = base.iter().map(|text| part(text)).collect();
    let target: Vec<PathPart> = target.iter().map(|text| part(text)).collect();
    relative_steps(&base, &target).iter().map(|step| step.path.display().to_string()).collect()
}

#[test]
fn steps_go_up_and_then_down() {
    assert_eq!(steps(&["/", "r", "a", "b"], &["/", "r", "x"]), ["..", "..", "x"]);
    assert_eq!(steps(&["/", "r"], &["/", "r", "x"]), ["x"]);
    assert_eq!(steps(&["/", "r", "x", "y", "z"], &["/", "r", "x"]), ["..", ".."]);
    assert!(steps(&["/", "r", "x"], &["/", "r", "x"]).is_empty());
}

#[test]
fn dots_are_no_steps() {
    assert_eq!(steps(&[".", "a"], &["b"]), ["..", "b"]);
    assert_eq!(steps(&["a"], &[".", "b"]), ["..", "b"]);
    assert_eq!(steps(&[".", "a"], &["a", "b"]), ["b"]);
    assert!(steps(&["."], &[]).is_empty());
}

#[test]
fn kinds_tell_components_apart() {
    let named = vec![PathPart { kind: PartKind::Normal, path: PathBuf::from("..") }];
    let parent = vec![part("..")];
    assert_eq!(relative_steps(&named, &parent).len(), 2);
    assert_eq!(relative_steps(&parent, &parent).len(), 0);
    let drive = vec![PathPart { kind: PartKind::Prefix, path: PathBuf::from("C:") }];
    assert_eq!(relative_steps(&drive, &drive).len(), 0);
}

#[test]
fn a_path_below_is_the_rest() {
    for base in ["/r", "r/s", "./r"] {
        for rest in ["x", "x/y", "x/y/z"] {
            assert_eq!(diff(base, &format!("{}/{}", base, rest)).to_str(), Some(rest));
        }
        assert_eq!(diff(base, base).to_str(), Some(""));
    }
}

#[test]
fn a_common_root_does_not_matter() {
    for (base, target) in [("a/b", "c"), ("a", "a/b"), ("a/b/c", "a/d/e")] {
        let way = diff(base, target);
        for root in ["/", "/r", "r/s", "./r"] {
            let below = |path: &str| PathBuf::from(root).join(path);
            assert_eq!(pathdiff_relative(&below(base), &below(target)), way);
        }
    }
}
