//! Local paths, and the way from one to another.
//!
//! A path is std's `PathBuf`. Contracts speak of the bytes that it holds; what std's path
//! functions make of those bytes is named here, and stated where std documents it.

use std::path::{Component, PathBuf};
use vstd::prelude::*;
use vstd::utf8::*;

verus! {

/// The path type of std, as an opaque value.
#[verifier::external_type_specification]
#[verifier::external_body]
pub struct ExPathBuf(std::path::PathBuf);

/// The bytes that `path` holds.
pub uninterp spec fn path_bytes(path: PathBuf) -> Seq<u8>;

/// The kinds of components that a path is made of, as std tells them apart.
#[derive(Debug, Copy, Clone, Eq, PartialEq, Structural)]
pub enum PartKind {
    /// A prefix such as a drive.
    Prefix,
    /// The root directory.
    RootDir,
    /// The current directory.
    CurDir,
    /// The parent directory.
    ParentDir,
    /// A name.
    Normal,
}

/// A component of a path: its kind, and the component as a path of its own.
pub struct PathPart {
    pub kind: PartKind,
    pub path: PathBuf,
}

/// What a [`PathPart`] holds.
#[verifier::ext_equal]
pub struct Part {
    pub kind: PartKind,
    pub bytes: Seq<u8>,
}

impl View for PathPart {
    type V = Part;

    open spec fn view(&self) -> Part {
        Part { kind: self.kind, bytes: path_bytes(self.path) }
    }
}

/// What each of `parts` holds.
pub open spec fn parts_of(parts: Seq<PathPart>) -> Seq<Part> {
    parts.map_values(|part: PathPart| part@)
}

/// The component that stands for the parent directory.
pub open spec fn parent_dir() -> Part {
    Part { kind: PartKind::ParentDir, bytes: encode_utf8(".."@) }
}

/// Whether `bytes` start like a drive: with a letter and a colon.
pub open spec fn is_like_drive(bytes: Seq<u8>) -> bool {
    bytes.len() >= 2 && bytes[1] == 0x3a && (0x41 <= bytes[0] <= 0x5a || 0x61 <= bytes[0] <= 0x7a)
}

/// Whether `part` is the same component on any platform when it is a path of its own: a step to
/// the parent directory, or a name that holds no slash and does not start like a drive.
pub open spec fn is_portable(part: Part) -> bool {
    match part.kind {
        PartKind::ParentDir => true,
        PartKind::Normal => !part.bytes.contains(0x2f) && !is_like_drive(part.bytes),
        _ => false,
    }
}

/// Whether `part` is a step from one directory to the next: up, or down to a name.
pub open spec fn is_step(part: Part) -> bool {
    part.kind == PartKind::ParentDir || part.kind == PartKind::Normal
}

/// Whether the path that is made of `parts` starts neither at a root nor at a prefix.
pub open spec fn is_relative(parts: Seq<Part>) -> bool {
    forall|i: int|
        0 <= i < parts.len() ==> (#[trigger] parts[i]).kind != PartKind::RootDir && parts[i].kind
            != PartKind::Prefix
}

/// The bytes of what `Path::join` makes of `base` and `other`.
pub uninterp spec fn joined(base: Seq<u8>, other: Seq<u8>) -> Seq<u8>;

/// The components of `path`, as `Path::components` gives them.
pub uninterp spec fn components_of(path: Seq<u8>) -> Seq<Part>;

/// Whether std's `==` takes two paths that differ in their bytes for the same.
pub uninterp spec fn taken_for_same(left: Seq<u8>, right: Seq<u8>) -> bool;

/// Whether std's `==` takes the two paths for the same.
pub open spec fn same_path(left: Seq<u8>, right: Seq<u8>) -> bool {
    left == right || taken_for_same(left, right)
}

/// Whether `part` is a step, and the one component of the path that it makes up.
pub open spec fn is_single(part: Part) -> bool {
    is_step(part) && components_of(part.bytes) == seq![part]
}

/// Whether each of `parts` that is portable is single.
pub open spec fn portable_are_single(parts: Seq<Part>) -> bool {
    forall|i: int|
        0 <= i < parts.len() && is_portable(#[trigger] parts[i]) ==> is_single(parts[i])
}

/// The bytes of what `Path::with_extension` makes of `path`.
pub uninterp spec fn extension_replaced(path: Seq<u8>, extension: Seq<char>) -> Seq<u8>;

/// The text that `Path::display` shows for `path`, which is not valid UTF-8.
pub uninterp spec fn displayed(path: Seq<u8>) -> Seq<char>;

/// The text that stands for `path` in a message.
pub open spec fn shown_path(path: Seq<u8>) -> Seq<char> {
    if valid_utf8(path) {
        decode_utf8(path)
    } else {
        displayed(path)
    }
}

/// `PathBuf::clone` gives a path that holds the same bytes.
pub assume_specification[ <PathBuf as Clone>::clone ](path: &PathBuf) -> (copy: PathBuf)
    ensures
        path_bytes(copy) == path_bytes(*path),
;

/// `PathBuf::from` on a string gives the path that holds the bytes of the string. The empty
/// path has no components, and two dots are the component for the parent directory.
#[verifier::external_body]
pub(crate) fn path_from(text: &str) -> (path: PathBuf)
    ensures
        path_bytes(path) == encode_utf8(text@),
        text@.len() == 0 ==> components_of(path_bytes(path)) == Seq::<Part>::empty(),
        text@ == ".."@ ==> components_of(path_bytes(path)) == seq![parent_dir()],
{
    PathBuf::from(text)
}

/// `Path::join` makes one path of two. The result depends on the bytes of the two alone. A
/// single step that is joined to a relative path becomes its last component. What is left to
/// std: where a separator goes, and that `other` replaces `base` where it is absolute.
#[verifier::external_body]
pub(crate) fn join_path(base: &PathBuf, other: &PathBuf) -> (path: PathBuf)
    ensures
        path_bytes(path) == joined(path_bytes(*base), path_bytes(*other)),
        ({
            let (before, last) = (
                components_of(path_bytes(*base)),
                components_of(path_bytes(*other)),
            );
            is_relative(before) && last.len() == 1 && is_step(last[0]) ==> components_of(
                path_bytes(path),
            ) == before + last
        }),
{
    base.join(other)
}

/// `Path::components` takes a path apart. Each component comes back with its kind and as a path
/// of its own, which has no other component where it is a portable one. The list depends on the
/// bytes of the path alone; how std normalizes separators and dots is left to std.
#[verifier::external_body]
pub(crate) fn components(path: &PathBuf) -> (parts: Vec<PathPart>)
    ensures
        parts_of(parts@) == components_of(path_bytes(*path)),
        portable_are_single(parts_of(parts@)),
{
    path.components().map(|part| PathPart {
        kind: match part {
            Component::Prefix(_) => PartKind::Prefix,
            Component::RootDir => PartKind::RootDir,
            Component::CurDir => PartKind::CurDir,
            Component::ParentDir => PartKind::ParentDir,
            Component::Normal(_) => PartKind::Normal,
        },
        path: PathBuf::from(part.as_os_str()),
    }).collect()
}

/// `==` on two paths. The answer depends on the bytes of the two alone, and is yes where those
/// are equal; which other paths std takes for the same is left to std.
#[verifier::external_body]
pub(crate) fn is_same_path(left: &PathBuf, right: &PathBuf) -> (same: bool)
    ensures
        path_bytes(*left) == path_bytes(*right) ==> same,
        path_bytes(*left) != path_bytes(*right) ==> same == taken_for_same(
            path_bytes(*left),
            path_bytes(*right),
        ),
{
    left == right
}

/// `==` on what `Path::as_os_str` gives for two paths tells whether they hold the same bytes.
#[verifier::external_body]
fn is_same_text(left: &PathBuf, right: &PathBuf) -> (same: bool)
    ensures
        same == (path_bytes(*left) == path_bytes(*right)),
{
    left.as_os_str() == right.as_os_str()
}

/// `Path::with_extension` gives the path with its extension replaced by, or extended by, the
/// one given, which may hold no separator. The result depends on the bytes of the path and on
/// the extension alone.
#[verifier::external_body]
pub(crate) fn replace_extension(path: &PathBuf, extension: &str) -> (replaced: PathBuf)
    requires
        forall|i: int|
            0 <= i < extension@.len() ==> extension@[i] != '/' && extension@[i] != '\\',
    ensures
        path_bytes(replaced) == extension_replaced(path_bytes(*path), extension@),
{
    path.with_extension(extension)
}

/// `Path::display` shows a path as text: the path itself where its bytes are valid UTF-8. What
/// it shows otherwise depends on those bytes alone.
#[verifier::external_body]
pub(crate) fn display_path(path: &PathBuf) -> (shown: String)
    ensures
        valid_utf8(path_bytes(*path)) ==> shown@ == decode_utf8(path_bytes(*path)),
        !valid_utf8(path_bytes(*path)) ==> shown@ == displayed(path_bytes(*path)),
{
    path.display().to_string()
}

/// Joins the file name `name` to `base`.
pub fn join_name(base: &PathBuf, name: &str) -> (path: PathBuf)
    ensures
        path_bytes(path) == joined(path_bytes(*base), encode_utf8(name@)),
{
    join_path(base, &path_from(name))
}

/// Whether two components are the same. A prefix has more than one spelling; anything else has
/// one.
pub open spec fn same_part(left: Part, right: Part) -> bool {
    if left.kind == PartKind::Prefix && right.kind == PartKind::Prefix {
        same_path(left.bytes, right.bytes)
    } else {
        left == right
    }
}

/// Tells whether two components are the same.
fn is_same_part(left: &PathPart, right: &PathPart) -> (same: bool)
    ensures
        same == same_part(left@, right@),
{
    if left.kind != right.kind {
        false
    } else if left.kind == PartKind::Prefix {
        is_same_path(&left.path, &right.path)
    } else {
        is_same_text(&left.path, &right.path)
    }
}

/// `parts` without those that stand for the current directory.
pub open spec fn without_dots(parts: Seq<Part>) -> Seq<Part>
    decreases parts.len(),
{
    if parts.len() == 0 {
        Seq::empty()
    } else if parts.last().kind == PartKind::CurDir {
        without_dots(parts.drop_last())
    } else {
        without_dots(parts.drop_last()).push(parts.last())
    }
}

/// How many leading components the two lists have in common.
pub open spec fn common_len(left: Seq<Part>, right: Seq<Part>) -> nat
    decreases left.len(),
{
    if left.len() > 0 && right.len() > 0 && same_part(left[0], right[0]) {
        1 + common_len(left.drop_first(), right.drop_first())
    } else {
        0
    }
}

/// `ups` steps to the parent directory, then `down`.
pub open spec fn up_and_down(ups: nat, down: Seq<Part>) -> Seq<Part> {
    Seq::new(ups, |i: int| parent_dir()) + down
}

/// The components that lead from the directory `base` to `target`: up to the last directory
/// that they share, then down to the target. The current directory is no level of its own.
pub open spec fn relative_parts(base: Seq<Part>, target: Seq<Part>) -> Seq<Part> {
    let (from, to) = (without_dots(base), without_dots(target));
    let common = common_len(from, to);
    up_and_down((from.len() - common) as nat, to.skip(common as int))
}

/// The bytes of the path that comes of joining `parts` in order, from the empty path on.
pub open spec fn join_parts(parts: Seq<Part>) -> Seq<u8>
    decreases parts.len(),
{
    if parts.len() == 0 {
        Seq::empty()
    } else {
        joined(join_parts(parts.drop_last()), parts.last().bytes)
    }
}

/// The bytes of the path that leads from the directory `base` to `target`.
pub open spec fn relative_path(base: Seq<u8>, target: Seq<u8>) -> Seq<u8> {
    join_parts(relative_parts(components_of(base), components_of(target)))
}

/// The components that lead from the directory `base` to `target`.
pub open spec fn relative_steps_of(base: Seq<u8>, target: Seq<u8>) -> Seq<Part> {
    relative_parts(components_of(base), components_of(target))
}

/// Whether each of `parts` is single.
pub open spec fn all_single(parts: Seq<Part>) -> bool {
    forall|i: int| 0 <= i < parts.len() ==> is_single(#[trigger] parts[i])
}

/// Whether the path from `base` to `target` has just the steps that it was made of, provided that
/// each of them is single; those that are portable are.
pub open spec fn keeps_its_steps(base: Seq<u8>, target: Seq<u8>) -> bool {
    let steps = relative_steps_of(base, target);
    &&& portable_are_single(steps)
    &&& all_single(steps) ==> components_of(relative_path(base, target)) == steps
}

/// The shared components are no more than either list has, and they are the same.
proof fn lemma_common_len(left: Seq<Part>, right: Seq<Part>)
    ensures
        common_len(left, right) <= left.len(),
        common_len(left, right) <= right.len(),
        forall|i: int|
            0 <= i < common_len(left, right) ==> same_part(#[trigger] left[i], right[i]),
    decreases left.len(),
{
    if left.len() > 0 && right.len() > 0 && same_part(left[0], right[0]) {
        lemma_common_len(left.drop_first(), right.drop_first());
        assert forall|i: int| 0 <= i < common_len(left, right) implies same_part(
            #[trigger] left[i],
            right[i],
        ) by {
            if i > 0 {
                assert(same_part(left.drop_first()[i - 1], right.drop_first()[i - 1]));
            }
        }
    }
}

/// The number of leading components that are the same, where the next two are not.
proof fn lemma_common_len_is(left: Seq<Part>, right: Seq<Part>, count: int)
    requires
        0 <= count <= left.len(),
        count <= right.len(),
        forall|i: int| 0 <= i < count ==> same_part(#[trigger] left[i], right[i]),
        count < left.len() && count < right.len() ==> !same_part(left[count], right[count]),
    ensures
        common_len(left, right) == count,
    decreases count,
{
    if count > 0 {
        assert(same_part(left[0], right[0]));
        let (l, r) = (left.drop_first(), right.drop_first());
        assert forall|i: int| 0 <= i < count - 1 implies same_part(#[trigger] l[i], r[i]) by {
            assert(same_part(left[i + 1], right[i + 1]));
        }
        lemma_common_len_is(l, r, count - 1);
    }
}

impl PathPart {
    /// Copies the component.
    fn copy(&self) -> (part: PathPart)
        ensures
            part@ == self@,
    {
        PathPart { kind: self.kind, path: self.path.clone() }
    }
}

/// The components of `parts` but for those that stand for the current directory.
fn drop_dots(parts: &Vec<PathPart>) -> (kept: Vec<PathPart>)
    ensures
        parts_of(kept@) == without_dots(parts_of(parts@)),
        portable_are_single(parts_of(parts@)) ==> portable_are_single(parts_of(kept@)),
{
    let ghost all = parts_of(parts@);
    let mut kept: Vec<PathPart> = Vec::new();
    let mut i: usize = 0;
    assert(parts_of(kept@) =~= without_dots(all.take(0)));
    while i < parts.len()
        invariant
            i <= parts@.len(),
            all == parts_of(parts@),
            parts_of(kept@) == without_dots(all.take(i as int)),
            portable_are_single(all) ==> portable_are_single(parts_of(kept@)),
        decreases parts@.len() - i,
    {
        let ghost before = parts_of(kept@);
        assert(all.take(i + 1).drop_last() =~= all.take(i as int));
        assert(all.take(i + 1).last() == all[i as int]);
        assert(all[i as int] == parts@[i as int]@);
        if parts[i].kind != PartKind::CurDir {
            kept.push(parts[i].copy());
            assert(parts_of(kept@) =~= before.push(all[i as int]));
        }
        i = i + 1;
    }
    assert(all.take(i as int) =~= all);
    kept
}

/// Counts the leading components that the two lists have in common.
fn count_common(left: &Vec<PathPart>, right: &Vec<PathPart>) -> (count: usize)
    ensures
        count == common_len(parts_of(left@), parts_of(right@)),
        count <= left@.len(),
        count <= right@.len(),
{
    let ghost (l, r) = (parts_of(left@), parts_of(right@));
    let mut count: usize = 0;
    while count < left.len() && count < right.len() && is_same_part(&left[count], &right[count])
        invariant
            count <= left@.len(),
            count <= right@.len(),
            l == parts_of(left@),
            r == parts_of(right@),
            forall|i: int| 0 <= i < count ==> same_part(#[trigger] l[i], r[i]),
        decreases left@.len() - count,
    {
        assert(same_part(l[count as int], r[count as int]));
        count = count + 1;
    }
    proof {
        lemma_common_len_is(l, r, count as int);
    }
    count
}

/// The steps from the directory that has the components `base` to the target that has the
/// components `target`.
pub fn relative_steps(base: &Vec<PathPart>, target: &Vec<PathPart>) -> (steps: Vec<PathPart>)
    ensures
        parts_of(steps@) == relative_parts(parts_of(base@), parts_of(target@)),
        portable_are_single(parts_of(target@)) ==> portable_are_single(parts_of(steps@)),
{
    let from = drop_dots(base);
    let to = drop_dots(target);
    let common: usize = count_common(&from, &to);
    let ups: usize = from.len() - common;
    let ghost all = relative_parts(parts_of(base@), parts_of(target@));
    assert(all == up_and_down(ups as nat, parts_of(to@).skip(common as int)));
    let mut steps: Vec<PathPart> = Vec::new();
    let mut up: usize = 0;
    assert(parts_of(steps@) =~= all.take(0));
    while up < ups
        invariant
            up <= ups,
            all == up_and_down(ups as nat, parts_of(to@).skip(common as int)),
            parts_of(steps@) == all.take(up as int),
            portable_are_single(parts_of(steps@)),
        decreases ups - up,
    {
        let ghost before = parts_of(steps@);
        steps.push(PathPart { kind: PartKind::ParentDir, path: path_from("..") });
        up = up + 1;
        assert(parts_of(steps@) =~= before.push(parent_dir()));
        assert(all.take(up as int) =~= all.take(up - 1).push(parent_dir()));
    }
    let mut next: usize = common;
    while next < to.len()
        invariant
            common <= next <= to@.len(),
            all == up_and_down(ups as nat, parts_of(to@).skip(common as int)),
            parts_of(steps@) == all.take(ups + next - common),
            portable_are_single(parts_of(to@)) ==> portable_are_single(parts_of(steps@)),
        decreases to@.len() - next,
    {
        let ghost before = parts_of(steps@);
        steps.push(to[next].copy());
        next = next + 1;
        let ghost part = parts_of(to@)[next - 1];
        assert(parts_of(steps@) =~= before.push(part));
        assert(all.take(ups + next - common) =~= all.take(ups + next - common - 1).push(part));
    }
    assert(all.take(ups + next - common) =~= all);
    steps
}

/// Joins `parts` in order, from the empty path on.
fn join_all(parts: &Vec<PathPart>) -> (path: PathBuf)
    ensures
        path_bytes(path) == join_parts(parts_of(parts@)),
        all_single(parts_of(parts@)) ==> components_of(path_bytes(path)) == parts_of(parts@),
{
    let ghost all = parts_of(parts@);
    let mut path = path_from("");
    proof {
        reveal_strlit("");
        assert(""@ =~= Seq::<char>::empty());
        assert(encode_utf8(""@) =~= Seq::<u8>::empty());
        assert(all.take(0) =~= Seq::<Part>::empty());
    }
    let mut i: usize = 0;
    while i < parts.len()
        invariant
            i <= parts@.len(),
            all == parts_of(parts@),
            path_bytes(path) == join_parts(all.take(i as int)),
            all_single(all) ==> components_of(path_bytes(path)) == all.take(i as int),
        decreases parts@.len() - i,
    {
        let ghost before = all.take(i as int);
        path = join_path(&path, &parts[i].path);
        i = i + 1;
        proof {
            let last = all[i - 1];
            assert(all.take(i as int).drop_last() =~= before);
            assert(last == parts@[i - 1]@);
            if all_single(all) {
                assert(is_relative(before));
                assert(all.take(i as int) =~= before + seq![last]);
            }
        }
    }
    assert(all.take(i as int) =~= all);
    path
}

/// The path that leads from the directory `base` to `target`. It has just the steps that it was
/// made of wherever each of them is single, and it then leads to the target wherever the two
/// paths fork into names.
pub fn pathdiff_relative(base: &PathBuf, target: &PathBuf) -> (path: PathBuf)
    ensures
        path_bytes(path) == relative_path(path_bytes(*base), path_bytes(*target)),
        keeps_its_steps(path_bytes(*base), path_bytes(*target)),
        is_sound_way(path_bytes(*base), path_bytes(path), path_bytes(*target)),
{
    let path = join_all(&relative_steps(&components(base), &components(target)));
    proof {
        let (from, to) = (path_bytes(*base), path_bytes(*target));
        if all_single(relative_steps_of(from, to)) && forks_into_names(from, to) {
            law_relative_path_leads_to_target(from, to);
        }
    }
    path
}

/// The directory that `part` leads to from the directory `dir`, whose components are resolved.
/// There is no parent above a root, and none is known above the start of a relative path.
pub open spec fn after_part(dir: Seq<Part>, part: Part) -> Seq<Part> {
    match part.kind {
        PartKind::Prefix => seq![part],
        PartKind::RootDir => if dir.len() == 1 && dir[0].kind == PartKind::Prefix {
            dir.push(part)
        } else {
            seq![part]
        },
        PartKind::CurDir => dir,
        PartKind::ParentDir => if dir.len() == 0 {
            seq![part]
        } else {
            match dir.last().kind {
                PartKind::Normal => dir.drop_last(),
                PartKind::ParentDir => dir.push(part),
                _ => dir,
            }
        },
        PartKind::Normal => dir.push(part),
    }
}

/// Where the components of `parts` lead when they are taken one after the other.
pub open spec fn resolved(parts: Seq<Part>) -> Seq<Part>
    decreases parts.len(),
{
    if parts.len() == 0 {
        Seq::empty()
    } else {
        after_part(resolved(parts.drop_last()), parts.last())
    }
}

/// Whether `parts` are all names.
pub open spec fn are_names(parts: Seq<Part>) -> bool {
    forall|i: int| 0 <= i < parts.len() ==> (#[trigger] parts[i]).kind == PartKind::Normal
}

/// Whether `parts` are names alone, behind a prefix and a root where there are any.
pub open spec fn is_straight(parts: Seq<Part>) -> bool {
    ||| are_names(parts)
    ||| parts.len() > 0 && parts[0].kind == PartKind::RootDir && are_names(parts.skip(1))
    ||| parts.len() > 1 && parts[0].kind == PartKind::Prefix && parts[1].kind == PartKind::RootDir
        && are_names(parts.skip(2))
}

/// What follows leads on from where the path before it has led.
proof fn lemma_resolved_goes_on(left: Seq<Part>, right: Seq<Part>, more: Seq<Part>)
    requires
        resolved(left) == resolved(right),
    ensures
        resolved(left + more) == resolved(right + more),
    decreases more.len(),
{
    if more.len() == 0 {
        assert(left + more =~= left);
        assert(right + more =~= right);
    } else {
        lemma_resolved_goes_on(left, right, more.drop_last());
        assert((left + more).drop_last() =~= left + more.drop_last());
        assert((right + more).drop_last() =~= right + more.drop_last());
    }
}

/// The current directory leads nowhere.
proof fn lemma_dots_lead_nowhere(parts: Seq<Part>)
    ensures
        resolved(without_dots(parts)) == resolved(parts),
    decreases parts.len(),
{
    if parts.len() > 0 {
        lemma_dots_lead_nowhere(parts.drop_last());
        if parts.last().kind != PartKind::CurDir {
            assert(without_dots(parts).drop_last() =~= without_dots(parts.drop_last()));
        }
    }
}

/// Each name leads one directory down.
proof fn lemma_names_lead_down(before: Seq<Part>, names: Seq<Part>)
    requires
        are_names(names),
    ensures
        resolved(before + names) == resolved(before) + names,
    decreases names.len(),
{
    if names.len() == 0 {
        assert(before + names =~= before);
        assert(resolved(before) + names =~= resolved(before));
    } else {
        lemma_names_lead_down(before, names.drop_last());
        assert((before + names).drop_last() =~= before + names.drop_last());
        assert((resolved(before) + names.drop_last()).push(names.last()) =~= resolved(before)
            + names);
    }
}

/// As many steps up as there are names lead back.
proof fn lemma_ups_lead_back(before: Seq<Part>, names: Seq<Part>)
    requires
        are_names(names),
    ensures
        resolved(before + names + up_and_down(names.len(), Seq::empty())) == resolved(before),
    decreases names.len(),
{
    let ups = up_and_down(names.len(), Seq::empty());
    if names.len() == 0 {
        assert(before + names + ups =~= before);
    } else {
        let fewer = names.drop_last();
        let rest = up_and_down(fewer.len(), Seq::empty());
        let first = (before + names).push(parent_dir());
        lemma_names_lead_down(before, names);
        lemma_names_lead_down(before, fewer);
        assert(first.drop_last() =~= before + names);
        assert((resolved(before) + names).drop_last() =~= resolved(before) + fewer);
        assert(resolved(first) == resolved(before + fewer));
        lemma_resolved_goes_on(first, before + fewer, rest);
        assert(before + names + ups =~= first + rest);
        lemma_ups_lead_back(before, fewer);
    }
}

/// A straight path is resolved as it stands.
proof fn lemma_straight_is_resolved(parts: Seq<Part>)
    requires
        is_straight(parts),
    ensures
        resolved(parts) == parts,
{
    reveal_with_fuel(resolved, 3);
    let count: int = if are_names(parts) {
        0
    } else if parts[0].kind == PartKind::RootDir {
        1
    } else {
        2
    };
    let (before, names) = (parts.take(count), parts.skip(count));
    lemma_names_lead_down(before, names);
    assert(before + names =~= parts);
    if count == 2 {
        assert(before.drop_last() =~= seq![parts[0]]);
        assert(before.drop_last().drop_last() =~= Seq::<Part>::empty());
        assert(resolved(before) =~= before);
    } else if count == 1 {
        assert(before.drop_last() =~= Seq::<Part>::empty());
        assert(resolved(before) =~= before);
    }
}

/// Whether what `base` and `target` share is spelled the same and `base` goes on from there with
/// nothing but names, as it does where both paths are absolute, or both relative, and `base`
/// holds no step up.
pub open spec fn forks_into_names(base: Seq<u8>, target: Seq<u8>) -> bool {
    let (from, to) = (without_dots(components_of(base)), without_dots(components_of(target)));
    let common = common_len(from, to) as int;
    from.take(common) == to.take(common) && are_names(from.skip(common))
}

/// Whether `way` leads from the directory `base` to `target`: taken behind the components of
/// `base`, those of `way` end where those of `target` do. So they end at just the components of a
/// target that is straight.
pub open spec fn leads_to(base: Seq<u8>, way: Seq<u8>, target: Seq<u8>) -> bool {
    let end = resolved(components_of(base) + components_of(way));
    let parts = without_dots(components_of(target));
    end == resolved(components_of(target)) && (is_straight(parts) ==> end == parts)
}

/// Whether `way` leads from `base` to `target`, provided that the steps between them are single
/// and that the two fork into names.
pub open spec fn is_sound_way(base: Seq<u8>, way: Seq<u8>, target: Seq<u8>) -> bool {
    all_single(relative_steps_of(base, target)) && forks_into_names(base, target) ==> leads_to(
        base,
        way,
        target,
    )
}

/// The relative path leads to its target, where it has the steps that it was made of and the two
/// paths fork into names.
pub proof fn law_relative_path_leads_to_target(base: Seq<u8>, target: Seq<u8>)
    requires
        keeps_its_steps(base, target),
        all_single(relative_steps_of(base, target)),
        forks_into_names(base, target),
    ensures
        leads_to(base, relative_path(base, target), target),
{
    let way = relative_path(base, target);
    let (from, to) = (without_dots(components_of(base)), without_dots(components_of(target)));
    let common = common_len(from, to) as int;
    lemma_common_len(from, to);
    let (shared, names, rest) = (from.take(common), from.skip(common), to.skip(common));
    let ups = up_and_down(names.len(), Seq::empty());
    assert(components_of(way) =~= ups + rest);
    lemma_dots_lead_nowhere(components_of(base));
    lemma_dots_lead_nowhere(components_of(target));
    lemma_resolved_goes_on(components_of(base), from, components_of(way));
    assert(from + components_of(way) =~= (shared + names + ups) + rest);
    lemma_ups_lead_back(shared, names);
    lemma_resolved_goes_on(shared + names + ups, shared, rest);
    assert(shared + rest =~= to);
    if is_straight(to) {
        lemma_straight_is_resolved(to);
    }
}

/// Dots are dropped on either side of a cut alike.
proof fn lemma_without_dots_splits(left: Seq<Part>, right: Seq<Part>)
    ensures
        without_dots(left + right) == without_dots(left) + without_dots(right),
    decreases right.len(),
{
    if right.len() == 0 {
        assert(left + right =~= left);
        assert(without_dots(left) + without_dots(right) =~= without_dots(left));
    } else {
        lemma_without_dots_splits(left, right.drop_last());
        assert((left + right).drop_last() =~= left + right.drop_last());
        assert(without_dots(left + right) =~= without_dots(left) + without_dots(right));
    }
}

/// What stands before both lists is common to both.
proof fn lemma_common_len_behind(root: Seq<Part>, left: Seq<Part>, right: Seq<Part>)
    ensures
        common_len(root + left, root + right) == root.len() + common_len(left, right),
    decreases root.len(),
{
    if root.len() == 0 {
        assert(root + left =~= left);
        assert(root + right =~= right);
    } else {
        lemma_common_len_behind(root.drop_first(), left, right);
        assert((root + left).drop_first() =~= root.drop_first() + left);
        assert((root + right).drop_first() =~= root.drop_first() + right);
    }
}

/// The way between two paths does not depend on what stands before both.
pub proof fn law_common_root_does_not_matter(root: Seq<Part>, base: Seq<Part>, target: Seq<Part>)
    ensures
        relative_parts(root + base, root + target) == relative_parts(base, target),
{
    lemma_without_dots_splits(root, base);
    lemma_without_dots_splits(root, target);
    let (above, from, to) = (without_dots(root), without_dots(base), without_dots(target));
    lemma_common_len_behind(above, from, to);
    lemma_common_len(from, to);
    let common = common_len(from, to) as int;
    assert((above + to).skip(above.len() + common) =~= to.skip(common));
}

/// The way from a directory to what lies below it is what the path of that has more, and there
/// is none from a directory to itself. Only the current directory is left out.
pub proof fn law_path_below_is_the_rest(base: Seq<Part>, rest: Seq<Part>)
    ensures
        relative_parts(base, base + rest) == without_dots(rest),
        are_names(rest) ==> relative_parts(base, base + rest) == rest,
        relative_parts(base, base) == Seq::<Part>::empty(),
{
    let none = Seq::<Part>::empty();
    assert(base + none =~= base);
    law_common_root_does_not_matter(base, none, rest);
    law_common_root_does_not_matter(base, none, none);
    assert(relative_parts(none, rest) =~= without_dots(rest));
    assert(relative_parts(none, none) =~= none);
    if are_names(rest) {
        lemma_names_are_kept(rest);
    }
}

/// A name is no current directory.
proof fn lemma_names_are_kept(names: Seq<Part>)
    requires
        are_names(names),
    ensures
        without_dots(names) == names,
    decreases names.len(),
{
    if names.len() > 0 {
        lemma_names_are_kept(names.drop_last());
        assert(names.drop_last().push(names.last()) =~= names);
    }
}

/// What is left where the current directory is left out is the rest, in its order.
proof fn lemma_without_dots_is_the_rest(parts: Seq<Part>)
    ensures
        without_dots(parts) == parts.filter(|part: Part| part.kind != PartKind::CurDir),
    decreases parts.len(),
{
    reveal(Seq::filter);
    if parts.len() > 0 {
        lemma_without_dots_is_the_rest(parts.drop_last());
    }
}

/// The way goes up and then down. With the current directory left out of both paths, it goes up
/// by `..` once for each component of the base behind those that both share, and then down along
/// the components of the target behind those. They share as many as are the same from the front
/// on: two prefixes that std takes for the same path, or equal components.
pub proof fn law_way_goes_up_and_then_down(base: Seq<Part>, target: Seq<Part>)
    ensures
        ({
            let from = base.filter(|part: Part| part.kind != PartKind::CurDir);
            let to = target.filter(|part: Part| part.kind != PartKind::CurDir);
            let way = relative_parts(base, target);
            exists|shared: int|
                {
                    &&& 0 <= shared <= from.len()
                    &&& shared <= to.len()
                    &&& forall|i: int|
                        0 <= i < shared ==> from[i] == to[i] || ((#[trigger] from[i]).kind
                            == PartKind::Prefix && to[i].kind == PartKind::Prefix && taken_for_same(
                            from[i].bytes,
                            to[i].bytes,
                        ))
                    &&& shared < from.len() && shared < to.len() ==> from[shared] != to[shared]
                    &&& way.take(from.len() - shared) == Seq::new(
                        (from.len() - shared) as nat,
                        |i: int|
                            Part { kind: PartKind::ParentDir, bytes: encode_utf8(".."@) },
                    )
                    &&& way.skip(from.len() - shared) == #[trigger] to.skip(shared)
                }
        }),
{
    lemma_without_dots_is_the_rest(base);
    lemma_without_dots_is_the_rest(target);
    let (from, to) = (without_dots(base), without_dots(target));
    let shared = common_len(from, to) as int;
    lemma_common_len(from, to);
    lemma_next_differs(from, to);
    let way = relative_parts(base, target);
    assert(way.take(from.len() - shared) =~= Seq::new(
        (from.len() - shared) as nat,
        |i: int| Part { kind: PartKind::ParentDir, bytes: encode_utf8(".."@) },
    ));
    assert(way.skip(from.len() - shared) =~= to.skip(shared));
}

/// Behind the shared components the two lists differ.
proof fn lemma_next_differs(left: Seq<Part>, right: Seq<Part>)
    ensures
        ({
            let count = common_len(left, right) as int;
            count < left.len() && count < right.len() ==> !same_part(left[count], right[count])
        }),
    decreases left.len(),
{
    if left.len() > 0 && right.len() > 0 && same_part(left[0], right[0]) {
        lemma_next_differs(left.drop_first(), right.drop_first());
    }
}

/// A path is made of its steps: the path from `base` to `target` is what comes of joining the
/// steps between their components, one after the other, to the empty path.
pub proof fn law_path_is_made_of_its_steps(
    base: Seq<u8>,
    target: Seq<u8>,
    parts: Seq<Part>,
    last: Part,
)
    ensures
        relative_path(base, target) == join_parts(
            relative_parts(components_of(base), components_of(target)),
        ),
        join_parts(Seq::empty()) == Seq::<u8>::empty(),
        join_parts(parts.push(last)) == joined(join_parts(parts), last.bytes),
{
    assert(parts.push(last).drop_last() =~= parts);
}

/// A path is shown as the text that it is the encoding of, and a component is seen as what it
/// holds.
pub proof fn law_paths_are_shown_as_they_are(text: Seq<char>, part: PathPart)
    ensures
        valid_utf8(encode_utf8(text)),
        shown_path(encode_utf8(text)) == text,
        part@.kind == part.kind,
        part@.bytes == path_bytes(part.path),
{
    encode_utf8_valid_utf8(text);
    encode_utf8_decode_utf8(text);
}

/// Two paths are the same where their bytes are, and where std takes them for the same.
pub proof fn law_same_paths(left: Seq<u8>, right: Seq<u8>)
    ensures
        same_path(left, left),
        left != right ==> same_path(left, right) == taken_for_same(left, right),
{
}

} // verus!
