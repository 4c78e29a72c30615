//! File names that a local file system accepts.

use crate::text;
use vstd::prelude::*;
use vstd::utf8::*;

verus! {

/// The longest file name, in bytes, that is written to disk.
pub const MAX_FILENAME_BYTES: usize = 255;

/// `name` with every slash replaced by an underscore.
pub open spec fn without_slashes(name: Seq<char>) -> Seq<char> {
    name.map_values(|ch: char| if ch == '/' { '_' } else { ch })
}

/// Where the extension of `name` starts: at its last dot, or at its end where it has none.
pub open spec fn stem_len(name: Seq<char>) -> nat {
    if name.contains('.') {
        last_dot(name)
    } else {
        name.len()
    }
}

/// The position of the last dot of `name`, which has one.
pub open spec fn last_dot(name: Seq<char>) -> nat
    recommends
        name.contains('.'),
    decreases name.len(),
{
    if name.len() == 0 {
        0
    } else if name.last() == '.' {
        (name.len() - 1) as nat
    } else {
        last_dot(name.drop_last())
    }
}

/// The part of `name` before its extension.
pub open spec fn stem(name: Seq<char>) -> Seq<char> {
    name.take(stem_len(name) as int)
}

/// The part of `name` from its last dot on; empty where it has no dot.
pub open spec fn extension(name: Seq<char>) -> Seq<char> {
    name.skip(stem_len(name) as int)
}

/// `text` without as many of its last characters as it takes to have at most `budget` bytes.
pub open spec fn fitting_prefix(text: Seq<char>, budget: int) -> Seq<char>
    decreases text.len(),
{
    if text.len() == 0 || text::utf8_len(text) <= budget {
        text
    } else {
        fitting_prefix(text.drop_last(), budget)
    }
}

/// Whether `name` has to be cut to be written to disk.
pub open spec fn is_too_long(name: Seq<char>) -> bool {
    text::utf8_len(without_slashes(name)) > MAX_FILENAME_BYTES
}

/// The name under which a file called `name` is written to disk.
pub open spec fn sanitized(name: Seq<char>) -> Seq<char> {
    let safe = without_slashes(name);
    if is_too_long(name) {
        fitting_prefix(stem(safe), MAX_FILENAME_BYTES - text::utf8_len(extension(safe)))
            + extension(safe)
    } else {
        safe
    }
}

/// Whether `name` can be sanitized: it needs no cut, or its extension alone is short enough.
pub open spec fn can_be_sanitized(name: Seq<char>) -> bool {
    is_too_long(name) ==> text::utf8_len(extension(without_slashes(name))) <= MAX_FILENAME_BYTES
}

/// A sequence with a dot in it has its last dot at `last_dot`, and none behind it.
proof fn lemma_last_dot(name: Seq<char>)
    requires
        name.contains('.'),
    ensures
        last_dot(name) < name.len(),
        name[last_dot(name) as int] == '.',
        forall|i: int| last_dot(name) < i < name.len() ==> name[i] != '.',
    decreases name.len(),
{
    if name.last() != '.' {
        let at = choose|i: int| 0 <= i < name.len() && name[i] == '.';
        assert(name.drop_last()[at] == '.');
        lemma_last_dot(name.drop_last());
        assert forall|i: int| last_dot(name) < i < name.len() implies name[i] != '.' by {
            if i < name.len() - 1 {
                assert(name.drop_last()[i] == name[i]);
            }
        }
    }
}

/// The dot at `at`, with none behind it, is the last one.
proof fn lemma_is_last_dot(name: Seq<char>, at: int)
    requires
        0 <= at < name.len(),
        name[at] == '.',
        forall|i: int| at < i < name.len() ==> name[i] != '.',
    ensures
        stem_len(name) == at,
{
    assert(name.contains('.'));
    lemma_last_dot(name);
    if last_dot(name) < at {
        assert(name[at] != '.');
    } else if last_dot(name) > at {
        assert(name[last_dot(name) as int] != '.');
    }
}

/// A prefix that fits the budget while the next longer one does not is the fitting prefix.
proof fn lemma_fitting_prefix_is(text: Seq<char>, count: int, budget: int)
    requires
        0 <= count <= text.len(),
        text::utf8_len(text.take(count)) <= budget,
        count < text.len() ==> text::utf8_len(text.take(count + 1)) > budget,
    ensures
        fitting_prefix(text, budget) == text.take(count),
    decreases text.len(),
{
    if count == text.len() {
        assert(text.take(count) =~= text);
    } else {
        lemma_prefix_is_shorter(text, count + 1);
        assert(text::utf8_len(text) > budget);
        let shorter = text.drop_last();
        assert(shorter.take(count) =~= text.take(count));
        if count < shorter.len() {
            assert(shorter.take(count + 1) =~= text.take(count + 1));
        }
        lemma_fitting_prefix_is(shorter, count, budget);
    }
}

/// A prefix takes no more bytes than the whole.
proof fn lemma_prefix_is_shorter(text: Seq<char>, count: int)
    requires
        0 <= count <= text.len(),
    ensures
        text::utf8_len(text.take(count)) <= text::utf8_len(text),
{
    assert(text =~= text.take(count) + text.skip(count));
    text::lemma_encode_concat(text.take(count), text.skip(count));
}

/// Finds where the extension starts.
fn find_stem_len(chars: &Vec<char>) -> (at: usize)
    ensures
        at == stem_len(chars@),
        at <= chars@.len(),
{
    let mut i: usize = chars.len();
    while i > 0
        invariant
            i <= chars@.len(),
            forall|j: int| i <= j < chars@.len() ==> chars@[j] != '.',
        decreases i,
    {
        if chars[i - 1] == '.' {
            proof {
                lemma_is_last_dot(chars@, i - 1);
            }
            return i - 1;
        }
        i = i - 1;
    }
    assert(!chars@.contains('.'));
    chars.len()
}

/// The characters of `name`, with every slash replaced by an underscore.
fn replace_slashes(name: &str) -> (chars: Vec<char>)
    ensures
        chars@ == without_slashes(name@),
{
    let mut chars: Vec<char> = Vec::new();
    for ch in it: name.chars()
        invariant
            chars@ == without_slashes(name@.take(it.index())),
            it.seq() == name@,
    {
        proof {
            assert(name@.take(it.index() + 1) =~= name@.take(it.index()).push(ch));
        }
        if ch == '/' {
            chars.push('_');
        } else {
            chars.push(ch);
        }
        assert(chars@ =~= without_slashes(name@.take(it.index() + 1)));
    }
    assert(name@.take(name@.len() as int) =~= name@);
    chars
}

/// Replacing slashes changes no width.
proof fn lemma_without_slashes_len(name: Seq<char>)
    ensures
        text::utf8_len(without_slashes(name)) == text::utf8_len(name),
    decreases name.len(),
{
    if name.len() > 0 {
        let rest = name.drop_last();
        lemma_without_slashes_len(rest);
        assert(name =~= rest.push(name.last()));
        let last = if name.last() == '/' { '_' } else { name.last() };
        assert(without_slashes(name) =~= without_slashes(rest).push(last));
        text::lemma_push_width(rest, name.last());
        text::lemma_push_width(without_slashes(rest), last);
    } else {
        assert(without_slashes(name) =~= name);
    }
}

/// The number of bytes that the characters from `start` on take.
fn byte_len_from(chars: &Vec<char>, start: usize) -> (total: usize)
    requires
        start <= chars@.len(),
        text::utf8_len(chars@) <= usize::MAX,
    ensures
        total == text::utf8_len(chars@.skip(start as int)),
{
    let mut total: usize = 0;
    let mut i: usize = start;
    while i < chars.len()
        invariant
            start <= i <= chars@.len(),
            text::utf8_len(chars@) <= usize::MAX,
            total == text::utf8_len(chars@.subrange(start as int, i as int)),
        decreases chars@.len() - i,
    {
        proof {
            let done = chars@.subrange(start as int, i as int);
            assert(chars@.subrange(start as int, i + 1) =~= done.push(chars@[i as int]));
            text::lemma_push_width(done, chars@[i as int]);
            let tail = chars@.skip(start as int);
            assert(tail.take(i + 1 - start) =~= done.push(chars@[i as int]));
            lemma_prefix_is_shorter(tail, i + 1 - start);
            assert(chars@ =~= chars@.take(start as int) + tail);
            text::lemma_encode_concat(chars@.take(start as int), tail);
        }
        total = total + text::width_of(chars[i]);
        i = i + 1;
    }
    assert(chars@.subrange(start as int, i as int) =~= chars@.skip(start as int));
    total
}

/// How many of the first `len` characters fit into `budget` bytes.
fn fitting_count(chars: &Vec<char>, len: usize, budget: usize) -> (count: usize)
    requires
        len <= chars@.len(),
    ensures
        count <= len,
        fitting_prefix(chars@.take(len as int), budget as int) == chars@.take(count as int),
{
    let ghost head = chars@.take(len as int);
    let mut left: usize = budget;
    let mut count: usize = 0;
    while count < len
        invariant
            count <= len <= chars@.len(),
            left <= budget,
            head == chars@.take(len as int),
            text::utf8_len(head.take(count as int)) == budget - left,
        decreases len - count,
    {
        let width: usize = text::width_of(chars[count]);
        proof {
            assert(head.take(count + 1) =~= head.take(count as int).push(chars@[count as int]));
            text::lemma_push_width(head.take(count as int), chars@[count as int]);
        }
        if width > left {
            proof {
                lemma_fitting_prefix_is(head, count as int, budget as int);
                assert(head.take(count as int) =~= chars@.take(count as int));
            }
            return count;
        }
        left = left - width;
        count = count + 1;
    }
    proof {
        lemma_fitting_prefix_is(head, count as int, budget as int);
        assert(head.take(count as int) =~= chars@.take(count as int));
    }
    count
}

/// Appends the characters from `start` up to `end` to `out`.
fn push_range(out: &mut String, chars: &Vec<char>, start: usize, end: usize)
    requires
        start <= end <= chars@.len(),
    ensures
        final(out)@ == old(out)@ + chars@.subrange(start as int, end as int),
{
    let ghost before = out@;
    let mut i: usize = start;
    while i < end
        invariant
            start <= i <= end <= chars@.len(),
            out@ == before + chars@.subrange(start as int, i as int),
        decreases end - i,
    {
        out.push(chars[i]);
        i = i + 1;
        assert(out@ =~= before + chars@.subrange(start as int, i as int));
    }
}

/// Tells whether [`sanitize_filename`] accepts `name`.
pub fn accepts_filename(name: &str) -> (accepted: bool)
    ensures
        accepted == can_be_sanitized(name@),
{
    let bytes: usize = name.as_bytes().len();
    proof {
        lemma_without_slashes_len(name@);
    }
    if bytes <= MAX_FILENAME_BYTES {
        return true;
    }
    let chars = replace_slashes(name);
    let dot: usize = find_stem_len(&chars);
    byte_len_from(&chars, dot) <= MAX_FILENAME_BYTES
}

/// Makes `name` fit for a local file system, and tells whether it had to be cut.
///
/// Slashes become underscores. A name that is too long loses characters from the end of its
/// stem; its extension stays. The extension itself has to fit.
pub fn sanitize_filename(name: &str) -> (result: (String, bool))
    requires
        can_be_sanitized(name@),
    ensures
        result.0@ == sanitized(name@),
        result.1 == is_too_long(name@),
{
    let bytes: usize = name.as_bytes().len();
    proof {
        lemma_without_slashes_len(name@);
    }
    let chars = replace_slashes(name);
    let mut safe = String::new();
    if bytes <= MAX_FILENAME_BYTES {
        push_range(&mut safe, &chars, 0, chars.len());
        assert(safe@ =~= chars@);
        return (safe, false);
    }
    let dot: usize = find_stem_len(&chars);
    let budget: usize = MAX_FILENAME_BYTES - byte_len_from(&chars, dot);
    let count: usize = fitting_count(&chars, dot, budget);
    push_range(&mut safe, &chars, 0, count);
    push_range(&mut safe, &chars, dot, chars.len());
    assert(safe@ =~= chars@.take(count as int) + chars@.skip(dot as int));
    (safe, true)
}

/// The fitting prefix is a prefix, it fits, and one character more would not.
proof fn lemma_fitting_prefix(text: Seq<char>, budget: int)
    requires
        0 <= budget,
    ensures
        fitting_prefix(text, budget).len() <= text.len(),
        fitting_prefix(text, budget) == text.take(fitting_prefix(text, budget).len() as int),
        text::utf8_len(fitting_prefix(text, budget)) <= budget,
        fitting_prefix(text, budget).len() < text.len() ==> text::utf8_len(
            text.take(fitting_prefix(text, budget).len() as int + 1),
        ) > budget,
    decreases text.len(),
{
    if text.len() == 0 || text::utf8_len(text) <= budget {
        assert(text.take(text.len() as int) =~= text);
        if text.len() == 0 {
            assert(text::utf8_len(text) == 0);
        }
    } else {
        let shorter = text.drop_last();
        lemma_fitting_prefix(shorter, budget);
        let count = fitting_prefix(text, budget).len() as int;
        assert(shorter.take(count) =~= text.take(count));
        if count < shorter.len() {
            assert(shorter.take(count + 1) =~= text.take(count + 1));
        } else {
            assert(text.take(count + 1) =~= text);
        }
    }
}

/// A name is made of its stem and its extension, and the stem ends before the last dot.
proof fn lemma_stem_and_extension(name: Seq<char>)
    ensures
        stem_len(name) <= name.len(),
        name == stem(name) + extension(name),
        text::utf8_len(name) == text::utf8_len(stem(name)) + text::utf8_len(extension(name)),
{
    if name.contains('.') {
        lemma_last_dot(name);
    }
    assert(name =~= stem(name) + extension(name));
    text::lemma_encode_concat(stem(name), extension(name));
}

/// A sanitized name fits: it has at most [`MAX_FILENAME_BYTES`] bytes.
pub proof fn law_sanitized_name_fits(name: Seq<char>)
    requires
        can_be_sanitized(name),
    ensures
        text::utf8_len(sanitized(name)) <= MAX_FILENAME_BYTES,
{
    if is_too_long(name) {
        let safe = without_slashes(name);
        let budget = MAX_FILENAME_BYTES - text::utf8_len(extension(safe));
        lemma_fitting_prefix(stem(safe), budget);
        text::lemma_encode_concat(fitting_prefix(stem(safe), budget), extension(safe));
    }
}

/// A sanitized name has no slash, so it names one entry of one directory.
pub proof fn law_sanitized_name_has_no_slash(name: Seq<char>)
    requires
        can_be_sanitized(name),
    ensures
        !sanitized(name).contains('/'),
{
    let safe = without_slashes(name);
    assert forall|i: int| 0 <= i < sanitized(name).len() implies sanitized(name)[i] != '/' by {
        if is_too_long(name) {
            lemma_stem_and_extension(safe);
            let budget = MAX_FILENAME_BYTES - text::utf8_len(extension(safe));
            lemma_fitting_prefix(stem(safe), budget);
            let count = fitting_prefix(stem(safe), budget).len() as int;
            if i < count {
                assert(sanitized(name)[i] == safe[i]);
            } else {
                assert(sanitized(name)[i] == safe[stem_len(safe) + i - count]);
            }
        }
    }
}

/// Sanitizing keeps the extension, also where the name is cut.
pub proof fn law_sanitizing_keeps_the_extension(name: Seq<char>)
    requires
        can_be_sanitized(name),
    ensures
        extension(sanitized(name)) == extension(without_slashes(name)),
{
    if is_too_long(name) {
        let safe = without_slashes(name);
        let ext = extension(safe);
        lemma_stem_and_extension(safe);
        let budget = MAX_FILENAME_BYTES - text::utf8_len(ext);
        lemma_fitting_prefix(stem(safe), budget);
        let head = fitting_prefix(stem(safe), budget);
        let result = sanitized(name);
        if safe.contains('.') {
            lemma_last_dot(safe);
            assert(result[head.len() as int] == ext[0]);
            assert forall|i: int| head.len() < i < result.len() implies result[i] != '.' by {
                assert(result[i] == safe[stem_len(safe) + i - head.len()]);
            }
            lemma_is_last_dot(result, head.len() as int);
            assert(result.skip(head.len() as int) =~= ext);
        } else {
            assert(ext =~= Seq::<char>::empty());
            assert forall|i: int| 0 <= i < result.len() implies result[i] != '.' by {
                assert(result[i] == safe[i]);
            }
            assert(!result.contains('.'));
            assert(extension(result) =~= ext);
        }
    }
}

/// A cut takes no more characters than it must: with the next character of the stem put back,
/// the name would be too long.
pub proof fn law_cut_is_minimal(name: Seq<char>)
    requires
        can_be_sanitized(name),
        is_too_long(name),
    ensures
        ({
            let safe = without_slashes(name);
            let kept = sanitized(name).len() - extension(safe).len();
            &&& 0 <= kept < stem(safe).len()
            &&& sanitized(name) == stem(safe).take(kept) + extension(safe)
            &&& text::utf8_len(stem(safe).take(kept + 1) + extension(safe)) > MAX_FILENAME_BYTES
        }),
{
    let safe = without_slashes(name);
    lemma_stem_and_extension(safe);
    let budget = MAX_FILENAME_BYTES - text::utf8_len(extension(safe));
    lemma_fitting_prefix(stem(safe), budget);
    let kept = fitting_prefix(stem(safe), budget).len() as int;
    assert(stem(safe).take(stem(safe).len() as int) =~= stem(safe));
    text::lemma_encode_concat(stem(safe).take(kept + 1), extension(safe));
}

/// Sanitizing a sanitized name changes nothing and cuts nothing.
pub proof fn law_sanitizing_is_idempotent(name: Seq<char>)
    requires
        can_be_sanitized(name),
    ensures
        can_be_sanitized(sanitized(name)),
        !is_too_long(sanitized(name)),
        sanitized(sanitized(name)) == sanitized(name),
{
    law_sanitized_name_fits(name);
    law_sanitized_name_has_no_slash(name);
    law_clean_name_is_kept(sanitized(name));
}

/// A name that has no slash and is short enough stays as it is.
pub proof fn law_clean_name_is_kept(name: Seq<char>)
    requires
        !name.contains('/'),
        text::utf8_len(name) <= MAX_FILENAME_BYTES,
    ensures
        can_be_sanitized(name),
        !is_too_long(name),
        sanitized(name) == name,
{
    assert forall|i: int| 0 <= i < name.len() implies without_slashes(name)[i] == name[i] by {
        assert(name.contains(name[i]));
    }
    assert(without_slashes(name) =~= name);
}

/// Whether the extension of `name` starts at `dot`: there is the last dot, or it is the end and
/// there is none.
pub open spec fn is_extension_start(name: Seq<char>, dot: int) -> bool {
    &&& 0 <= dot <= name.len()
    &&& dot < name.len() ==> name[dot] == '.'
    &&& forall|i: int| dot < i < name.len() ==> #[trigger] name[i] != '.'
    &&& dot == name.len() ==> !name.contains('.')
}

/// Where the extension starts is where it is said to.
proof fn lemma_extension_start(name: Seq<char>)
    ensures
        is_extension_start(name, stem_len(name) as int),
{
    if name.contains('.') {
        lemma_last_dot(name);
    }
}

/// What a sanitized name is made of. A slash becomes an underscore and any other character stays
/// as it is. A name that then has at most two hundred and fifty-five bytes is kept whole. Any
/// other is made of as much of its front as leaves room for its extension, character by
/// character, and of its extension.
pub proof fn law_sanitized_name_is_made_of_the_name(name: Seq<char>)
    requires
        can_be_sanitized(name),
    ensures
        ({
            let clean = name.map_values(
                |ch: char|
                    if ch == '/' {
                        '_'
                    } else {
                        ch
                    },
            );
            let result = sanitized(name);
            &&& is_too_long(name) <==> encode_utf8(clean).len() > 255
            &&& encode_utf8(result).len() <= 255
            &&& encode_utf8(clean).len() <= 255 ==> result == clean
            &&& encode_utf8(clean).len() > 255 ==> exists|dot: int, kept: int|
                #![trigger is_extension_start(clean, dot), clean.take(kept)]
                {
                    &&& is_extension_start(clean, dot)
                    &&& 0 <= kept < dot
                    &&& result == clean.take(kept) + clean.skip(dot)
                    &&& encode_utf8(clean.take(kept + 1) + clean.skip(dot)).len() > 255
                }
        }),
{
    let clean = without_slashes(name);
    assert(clean =~= name.map_values(
        |ch: char|
            if ch == '/' {
                '_'
            } else {
                ch
            },
    ));
    law_sanitized_name_fits(name);
    if is_too_long(name) {
        law_cut_is_minimal(name);
        lemma_extension_start(clean);
        let dot = stem_len(clean) as int;
        let kept = sanitized(name).len() - extension(clean).len();
        assert(is_extension_start(clean, dot));
        assert(stem(clean).take(kept) =~= clean.take(kept));
        assert(stem(clean).take(kept + 1) =~= clean.take(kept + 1));
    }
}

/// A name can be sanitized unless it is too long by its extension alone.
pub proof fn law_names_with_short_extensions_can_be_sanitized(name: Seq<char>, dot: int)
    requires
        is_extension_start(
            name.map_values(
                |ch: char|
                    if ch == '/' {
                        '_'
                    } else {
                        ch
                    },
            ),
            dot,
        ),
    ensures
        ({
            let clean = name.map_values(
                |ch: char|
                    if ch == '/' {
                        '_'
                    } else {
                        ch
                    },
            );
            can_be_sanitized(name) <==> encode_utf8(clean).len() <= 255 || encode_utf8(
                clean.skip(dot),
            ).len() <= 255
        }),
{
    let clean = without_slashes(name);
    assert(clean =~= name.map_values(
        |ch: char|
            if ch == '/' {
                '_'
            } else {
                ch
            },
    ));
    lemma_extension_start(clean);
    if clean.contains('.') {
        lemma_last_dot(clean);
    }
    assert(stem_len(clean) == dot);
}

} // verus!
