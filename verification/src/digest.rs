//! MD5 checksums of data that arrives in pieces.

use vstd::prelude::*;

verus! {

/// The hash context of the `md5` crate, as an opaque value.
#[verifier::external_type_specification]
#[verifier::external_body]
pub struct ExContext(md5::Context);

/// The bytes that `context` has consumed so far.
pub uninterp spec fn consumed(context: md5::Context) -> Seq<u8>;

/// The MD5 digest of `data`.
pub uninterp spec fn md5_digest(data: Seq<u8>) -> [u8; 16];

/// `md5::Context::new` gives a context that has consumed nothing.
#[verifier::external_body]
fn new_context() -> (context: md5::Context)
    ensures
        consumed(context) == Seq::<u8>::empty(),
{
    md5::Context::new()
}

/// `md5::Context::consume` appends `data` to what the context has consumed.
#[verifier::external_body]
fn consume(context: &mut md5::Context, data: &[u8])
    ensures
        consumed(*final(context)) == consumed(*old(context)) + data@,
{
    context.consume(data)
}

/// `md5::Context::compute` gives the sixteen bytes of the digest of all that was consumed,
/// however it was cut into pieces.
#[verifier::external_body]
fn compute(context: md5::Context) -> (digest: [u8; 16])
    ensures
        digest == md5_digest(consumed(context)),
{
    context.compute().0
}

/// `{:x}` on an `md5::Digest` writes each byte as two lower case hexadecimal digits.
#[verifier::external_body]
fn format_digest(digest: [u8; 16]) -> (text: String)
    ensures
        text@ == hex(digest@),
{
    format!("{:x}", md5::Digest(digest))
}

/// The lower case hexadecimal digit for `value`, which is below sixteen.
pub open spec fn hex_digit(value: int) -> char {
    if value < 10 {
        (0x30 + value) as char
    } else {
        (0x61 + value - 10) as char
    }
}

/// `bytes` in hexadecimal notation, two digits for each.
pub open spec fn hex(bytes: Seq<u8>) -> Seq<char>
    decreases bytes.len(),
{
    if bytes.len() == 0 {
        Seq::empty()
    } else {
        hex(bytes.drop_last()).push(hex_digit(bytes.last() as int / 16)).push(
            hex_digit(bytes.last() as int % 16),
        )
    }
}

/// Whether `digit` is a lower case hexadecimal digit.
pub open spec fn is_hex_digit(digit: char) -> bool {
    '0' <= digit <= '9' || 'a' <= digit <= 'f'
}

/// Whether `text` can be a checksum: it is made of thirty-two lower case hexadecimal digits.
pub open spec fn is_checksum(text: Seq<char>) -> bool {
    text.len() == 32 && forall|i: int| 0 <= i < text.len() ==> is_hex_digit(#[trigger] text[i])
}

/// Hexadecimal notation has two digits for each byte.
proof fn lemma_hex(bytes: Seq<u8>)
    ensures
        hex(bytes).len() == 2 * bytes.len(),
        forall|i: int| 0 <= i < hex(bytes).len() ==> is_hex_digit(#[trigger] hex(bytes)[i]),
    decreases bytes.len(),
{
    if bytes.len() > 0 {
        lemma_hex(bytes.drop_last());
    }
}

/// The MD5 checksum of `data`, as text.
pub open spec fn md5_text(data: Seq<u8>) -> Seq<char> {
    hex(md5_digest(data)@)
}

/// Computes the MD5 checksum of data that arrives in pieces.
pub struct Md5Sum {
    context: md5::Context,
}

impl View for Md5Sum {
    type V = Seq<u8>;

    /// The data that has arrived so far.
    closed spec fn view(&self) -> Seq<u8> {
        consumed(self.context)
    }
}

impl Md5Sum {
    /// Starts with no data.
    pub fn new() -> (sum: Md5Sum)
        ensures
            sum@ == Seq::<u8>::empty(),
    {
        Md5Sum { context: new_context() }
    }

    /// Takes the next piece of the data.
    pub fn update(&mut self, data: &[u8])
        ensures
            final(self)@ == old(self)@ + data@,
            forall|pieces: Seq<Seq<u8>>|
                old(self)@ == #[trigger] taken(pieces) ==> final(self)@ == taken(
                    pieces.push(data@),
                ),
    {
        assert forall|pieces: Seq<Seq<u8>>| self@ == #[trigger] taken(pieces) implies self@ + data@
            == taken(pieces.push(data@)) by {
            assert(pieces.push(data@).drop_last() =~= pieces);
        }
        consume(&mut self.context, data);
    }

    /// Takes the result of one read: the first `count` bytes of `buffer`. Tells whether there
    /// is more to read; a read of nothing is the end of the data.
    pub fn update_from_read(&mut self, buffer: &[u8], count: usize) -> (more: bool)
        requires
            count <= buffer@.len(),
        ensures
            more == (count != 0),
            final(self)@ == old(self)@ + buffer@.take(count as int),
            forall|reads: Seq<Seq<u8>>|
                #[trigger] read_run(reads) == (old(self)@, true) ==> read_run(
                    reads.push(buffer@.take(count as int)),
                ) == (final(self)@, more),
    {
        assert forall|reads: Seq<Seq<u8>>| #[trigger] read_run(reads) == (self@, true) implies
            read_run(reads.push(buffer@.take(count as int))) == (
            self@ + buffer@.take(count as int),
            count != 0,
        ) by {
            assert(reads.push(buffer@.take(count as int)).drop_last() =~= reads);
        }
        if count == 0 {
            assert(self@ + buffer@.take(0) =~= self@);
            return false;
        }
        consume(&mut self.context, vstd::slice::slice_subrange(buffer, 0, count));
        assert(buffer@.subrange(0, count as int) =~= buffer@.take(count as int));
        true
    }

    /// The checksum of all the data, in hexadecimal notation.
    pub fn finish(self) -> (text: String)
        ensures
            text@ == md5_text(self@),
            is_checksum(text@),
    {
        proof {
            law_checksum_has_thirty_two_digits(self@);
        }
        format_digest(compute(self.context))
    }
}

/// A checksum is made of thirty-two lower case hexadecimal digits, whatever it is of.
pub proof fn law_checksum_has_thirty_two_digits(data: Seq<u8>)
    ensures
        is_checksum(md5_text(data)),
{
    lemma_hex(md5_digest(data)@);
}

/// The data that has arrived once `pieces` have been taken in order.
pub open spec fn taken(pieces: Seq<Seq<u8>>) -> Seq<u8>
    decreases pieces.len(),
{
    if pieces.len() == 0 {
        Seq::empty()
    } else {
        taken(pieces.drop_last()) + pieces.last()
    }
}

/// The checksum depends on the data, not on how it is cut: after the pieces of the first list
/// and then those of the second it is that of the one piece made of all of them.
pub proof fn law_checksum_ignores_the_cut(first: Seq<Seq<u8>>, second: Seq<Seq<u8>>)
    ensures
        taken(first + second) == taken(first) + taken(second),
        md5_text(taken(first + second)) == md5_text(taken(seq![taken(first) + taken(second)])),
    decreases second.len(),
{
    if second.len() == 0 {
        assert(first + second =~= first);
        assert(taken(first) + taken(second) =~= taken(first));
    } else {
        law_checksum_ignores_the_cut(first, second.drop_last());
        assert((first + second).drop_last() =~= first + second.drop_last());
        assert((first + second).last() == second.last());
        assert(taken(first + second) =~= taken(first) + taken(second));
    }
    let whole = seq![taken(first) + taken(second)];
    assert(whole.drop_last() =~= Seq::<Seq<u8>>::empty());
    assert(taken(whole.drop_last()) =~= Seq::<u8>::empty());
    assert(taken(whole) =~= taken(first) + taken(second));
}

/// The data that has arrived after `reads`, and whether there is more to read: the first read of
/// nothing is the end of the data, and no read after it counts.
pub open spec fn read_run(reads: Seq<Seq<u8>>) -> (Seq<u8>, bool)
    decreases reads.len(),
{
    if reads.len() == 0 {
        (Seq::empty(), true)
    } else {
        let (data, more) = read_run(reads.drop_last());
        if more {
            (data + reads.last(), reads.last().len() != 0)
        } else {
            (data, false)
        }
    }
}

/// The bytes of `reads` before the first that is empty.
pub open spec fn until_empty(reads: Seq<Seq<u8>>) -> Seq<u8>
    decreases reads.len(),
{
    if reads.len() == 0 || reads[0].len() == 0 {
        Seq::empty()
    } else {
        reads[0] + until_empty(reads.drop_first())
    }
}

/// Reading gives the bytes before the first empty read.
proof fn lemma_reads_give_the_bytes(reads: Seq<Seq<u8>>)
    ensures
        read_run(reads).0 == until_empty(reads),
        read_run(reads).1 == !(exists|i: int|
            0 <= i < reads.len() && #[trigger] reads[i].len() == 0),
    decreases reads.len(),
{
    if reads.len() > 0 {
        let (before, last) = (reads.drop_last(), reads.last());
        lemma_reads_give_the_bytes(before);
        lemma_until_empty_goes_on(before, last);
        assert(before.push(last) =~= reads);
        if exists|i: int| 0 <= i < before.len() && #[trigger] before[i].len() == 0 {
            let i = choose|i: int| 0 <= i < before.len() && #[trigger] before[i].len() == 0;
            assert(reads[i].len() == 0);
        } else {
            assert forall|i: int| 0 <= i < reads.len() implies (#[trigger] reads[i].len() == 0) == (
            i == reads.len() - 1 && last.len() == 0) by {
                if i < before.len() {
                    assert(before[i].len() != 0);
                }
            }
            if last.len() == 0 {
                assert(reads[reads.len() - 1].len() == 0);
            }
        }
    }
}

/// One more read adds its bytes, unless an empty one came before.
proof fn lemma_until_empty_goes_on(reads: Seq<Seq<u8>>, last: Seq<u8>)
    ensures
        (exists|i: int| 0 <= i < reads.len() && #[trigger] reads[i].len() == 0) ==> until_empty(
            reads.push(last),
        ) == until_empty(reads),
        !(exists|i: int| 0 <= i < reads.len() && #[trigger] reads[i].len() == 0) ==> until_empty(
            reads.push(last),
        ) == until_empty(reads) + last,
    decreases reads.len(),
{
    let all = reads.push(last);
    if reads.len() == 0 {
        reveal_with_fuel(until_empty, 2);
        assert(all.drop_first() =~= Seq::<Seq<u8>>::empty());
        assert(until_empty(all) =~= last);
        assert(until_empty(reads) + last =~= last);
    } else if reads[0].len() > 0 {
        let rest = reads.drop_first();
        lemma_until_empty_goes_on(rest, last);
        assert(all.drop_first() =~= rest.push(last));
        assert(forall|i: int| 0 <= i < rest.len() ==> #[trigger] rest[i] == reads[i + 1]);
        if exists|i: int| 0 <= i < reads.len() && #[trigger] reads[i].len() == 0 {
            let i = choose|i: int| 0 <= i < reads.len() && #[trigger] reads[i].len() == 0;
            assert(rest[i - 1].len() == 0);
        } else {
            assert forall|i: int| 0 <= i < rest.len() implies #[trigger] rest[i].len() != 0 by {
                assert(reads[i + 1].len() != 0);
            }
            assert(reads[0] + (until_empty(rest) + last) =~= until_empty(reads) + last);
        }
    }
}

/// What is read decides the checksum, not how it is read: where the reads give the same bytes
/// before the first that is empty, the checksums are the same.
pub proof fn law_same_bytes_same_checksum(first: Seq<Seq<u8>>, second: Seq<Seq<u8>>)
    requires
        until_empty(first) == until_empty(second),
    ensures
        md5_text(read_run(first).0) == md5_text(read_run(second).0),
        md5_text(read_run(first).0) == md5_text(until_empty(first)),
        is_checksum(md5_text(read_run(first).0)),
{
    lemma_reads_give_the_bytes(first);
    lemma_reads_give_the_bytes(second);
    law_checksum_has_thirty_two_digits(read_run(first).0);
}

/// The value of a lower case hexadecimal digit.
pub open spec fn hex_value(digit: char) -> int {
    if digit <= '9' {
        digit as int - '0' as int
    } else {
        digit as int - 'a' as int + 10
    }
}

/// Hexadecimal notation reads back: each two digits have the value of their byte.
pub proof fn law_hex_reads_back(bytes: Seq<u8>)
    ensures
        hex(bytes).len() == 2 * bytes.len(),
        forall|i: int|
            0 <= i < bytes.len() ==> is_hex_digit(hex(bytes)[2 * i]) && is_hex_digit(
                hex(bytes)[2 * i + 1],
            ) && 16 * hex_value(hex(bytes)[2 * i]) + hex_value(hex(bytes)[2 * i + 1])
                == #[trigger] bytes[i],
    decreases bytes.len(),
{
    lemma_hex(bytes);
    if bytes.len() > 0 {
        law_hex_reads_back(bytes.drop_last());
        lemma_hex(bytes.drop_last());
        assert forall|i: int| 0 <= i < bytes.len() implies is_hex_digit(hex(bytes)[2 * i])
            && is_hex_digit(hex(bytes)[2 * i + 1]) && 16 * hex_value(hex(bytes)[2 * i])
            + hex_value(hex(bytes)[2 * i + 1]) == #[trigger] bytes[i] by {
            if i < bytes.len() - 1 {
                assert(bytes.drop_last()[i] == bytes[i]);
            }
        }
    }
}

/// The checksum of data is its digest in hexadecimal notation.
pub proof fn law_checksum_is_the_digest(data: Seq<u8>, i: int)
    requires
        0 <= i < 16,
    ensures
        16 * hex_value(md5_text(data)[2 * i]) + hex_value(md5_text(data)[2 * i + 1])
            == md5_digest(data)@[i],
        md5_text(data).len() == 32,
        is_checksum(md5_text(data)),
{
    law_hex_reads_back(md5_digest(data)@);
    law_checksum_has_thirty_two_digits(data);
}

} // verus!
