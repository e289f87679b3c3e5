//! The transport checksum over the IPv6 pseudo header.

use crate::bytes::{be16, put16, read_u16_at};
use vstd::prelude::*;

verus! {

/// The sum of the 16-bit big-endian words of `s`; an odd last byte counts as
/// the high byte of a word that a zero byte completes.
pub open spec fn word_sum(s: Seq<u8>) -> int
    decreases s.len(),
{
    if s.len() == 0 {
        0
    } else {
        word_sum(s.drop_last()) + if s.len() % 2 == 1 {
            s.last() * 256
        } else {
            s.last() as int
        }
    }
}

/// The 16-bit ones' complement value of a sum: carries out of the top are
/// added back in, and only zero stays zero.
pub open spec fn ones_complement(sum: int) -> int {
    if sum == 0 {
        0
    } else {
        (sum - 1) % 0xffff + 1
    }
}

/// The 40-byte pseudo header of RFC 8200 section 8.1: both addresses, the
/// 32-bit upper-layer length, 24 zero bits and the next header.
pub open spec fn pseudo_header(
    source: Seq<u8>,
    destination: Seq<u8>,
    length: int,
    next_header: u8,
) -> Seq<u8> {
    source + destination + seq![
        (length / 0x100_0000) as u8,
        ((length / 0x1_0000) % 256) as u8,
        ((length / 0x100) % 256) as u8,
        (length % 256) as u8,
        0u8,
        0u8,
        0u8,
        next_header,
    ]
}

/// What a receiver folds: the pseudo header of `segment` and then `segment`
/// itself, checksum field included.
pub open spec fn receiver_sum(
    source: Seq<u8>,
    destination: Seq<u8>,
    next_header: u8,
    segment: Seq<u8>,
) -> int {
    ones_complement(
        word_sum(pseudo_header(source, destination, segment.len() as int, next_header) + segment),
    )
}

/// The checksum of a segment whose checksum field holds zero.
pub open spec fn checksum_value(
    source: Seq<u8>,
    destination: Seq<u8>,
    next_header: u8,
    segment: Seq<u8>,
) -> int {
    0xffff - receiver_sum(source, destination, next_header, segment)
}

/// The words of two sequences add up, where no word spans both.
pub proof fn lemma_word_sum_concat(a: Seq<u8>, b: Seq<u8>)
    requires
        a.len() % 2 == 0,
    ensures
        word_sum(a + b) == word_sum(a) + word_sum(b),
    decreases b.len(),
{
    if b.len() == 0 {
        assert(a + b =~= a);
    } else {
        assert((a + b).drop_last() =~= a + b.drop_last());
        lemma_word_sum_concat(a, b.drop_last());
    }
}

/// One word on its own.
proof fn lemma_word_sum_pair(s: Seq<u8>)
    requires
        s.len() == 2,
    ensures
        word_sum(s) == be16(s, 0),
{
    assert(s.drop_last().drop_last().len() == 0);
    assert(word_sum(s.drop_last().drop_last()) == 0);
    assert(word_sum(s.drop_last()) == s[0] * 256);
}

/// The word at an even index takes part in the sum with its value alone.
pub proof fn lemma_word_sum_field(s: Seq<u8>, at: int)
    requires
        0 <= at,
        at + 2 <= s.len(),
        at % 2 == 0,
    ensures
        word_sum(s) == word_sum(s.take(at)) + be16(s, at) + word_sum(s.skip(at + 2)),
{
    let field: Seq<u8> = s.subrange(at, at + 2);
    assert(s =~= s.take(at) + (field + s.skip(at + 2)));
    lemma_word_sum_concat(s.take(at), field + s.skip(at + 2));
    lemma_word_sum_concat(field, s.skip(at + 2));
    lemma_word_sum_pair(field);
}

/// No sum of words is negative, nor larger than its words allow.
pub proof fn lemma_word_sum_bounds(s: Seq<u8>)
    ensures
        0 <= word_sum(s) <= ((s.len() + 1) / 2) * 0xffff,
        s.len() % 2 == 0 || word_sum(s) <= (s.len() / 2) * 0xffff + 0xff00,
    decreases s.len(),
{
    if s.len() > 0 {
        lemma_word_sum_bounds(s.drop_last());
    }
}

/// The pseudo header's words, one part at a time.
pub proof fn lemma_pseudo_header_sum(
    source: Seq<u8>,
    destination: Seq<u8>,
    length: int,
    next_header: u8,
)
    requires
        source.len() == 16,
        destination.len() == 16,
        0 <= length < 0x1_0000_0000,
    ensures
        pseudo_header(source, destination, length, next_header).len() == 40,
        word_sum(pseudo_header(source, destination, length, next_header)) == word_sum(source)
            + word_sum(destination) + length / 0x1_0000 + length % 0x1_0000 + next_header,
{
    let tail: Seq<u8> = pseudo_header(source, destination, length, next_header).skip(32);
    assert(pseudo_header(source, destination, length, next_header) =~= (source + destination)
        + tail);
    lemma_word_sum_concat(source + destination, tail);
    lemma_word_sum_concat(source, destination);
    lemma_word_sum_field(tail, 0);
    lemma_word_sum_field(tail.skip(2), 0);
    lemma_word_sum_field(tail.skip(2).skip(2), 0);
    lemma_word_sum_field(tail.skip(2).skip(2).skip(2), 0);
    assert(tail.len() == 8);
    assert(tail.skip(2).skip(2).skip(2).skip(2).len() == 0);
    assert(tail.take(0).len() == 0);
    assert(tail.skip(2).take(0).len() == 0);
    assert(tail.skip(2).skip(2).take(0).len() == 0);
    assert(tail.skip(2).skip(2).skip(2).take(0).len() == 0);
    assert(be16(tail, 0) == length / 0x1_0000);
    assert(be16(tail, 2) == length % 0x1_0000);
}

/// A positive sum and its complement add up to all ones.
proof fn lemma_complement_completes(sum: int, value: int)
    requires
        sum > 0,
        value == 0xffff - ones_complement(sum) || (ones_complement(sum) == 0xffff && value
            == 0xffff),
    ensures
        0 <= value <= 0xffff,
        ones_complement(sum + value) == 0xffff,
{
    let quotient: int = (sum - 1) / 0xffff;
    let rest: int = (sum - 1) % 0xffff;
    assert(sum - 1 == quotient * 0xffff + rest);
    if value == 0xffff - ones_complement(sum) {
        assert(sum + value - 1 == quotient * 0xffff + 0xfffe);
        assert((quotient * 0xffff + 0xfffe) % 0xffff == 0xfffe);
    } else {
        assert(sum + value - 1 == (quotient + 1) * 0xffff + 0xfffe);
        assert(((quotient + 1) * 0xffff + 0xfffe) % 0xffff == 0xfffe);
    }
}

/// Law: a receiver that folds a segment whose checksum field was filled from
/// the segment with a zeroed field arrives at `0xffff`, whatever the upper
/// layer. The field may also hold `0xffff` where the checksum is zero.
pub proof fn law_receiver_arrives_at_all_ones(
    source: Seq<u8>,
    destination: Seq<u8>,
    next_header: u8,
    segment: Seq<u8>,
    at: int,
    value: int,
)
    requires
        source.len() == 16,
        destination.len() == 16,
        segment.len() < 0x1_0000_0000,
        0 <= at,
        at + 2 <= segment.len(),
        at % 2 == 0,
        be16(segment, at) == 0,
        ({
            let checksum: int = checksum_value(source, destination, next_header, segment);
            value == checksum || (checksum == 0 && value == 0xffff)
        }),
    ensures
        receiver_sum(source, destination, next_header, put16(segment, at, value)) == 0xffff,
{
    let pseudo: Seq<u8> = pseudo_header(
        source,
        destination,
        segment.len() as int,
        next_header,
    );
    let filled: Seq<u8> = put16(segment, at, value);
    lemma_pseudo_header_sum(source, destination, segment.len() as int, next_header);
    lemma_word_sum_bounds(source);
    lemma_word_sum_bounds(destination);
    lemma_word_sum_bounds(segment);
    lemma_word_sum_concat(pseudo, segment);
    lemma_word_sum_concat(pseudo, filled);
    lemma_word_sum_field(segment, at);
    lemma_word_sum_field(filled, at);
    assert(filled.take(at) =~= segment.take(at));
    assert(filled.skip(at + 2) =~= segment.skip(at + 2));
    let sum: int = word_sum(pseudo + segment);
    assert(sum > 0);
    lemma_complement_completes(sum, value);
    assert(be16(filled, at) == value);
    assert(word_sum(pseudo + filled) == sum + value);
}

/// Adds the carries of a sum back in until it fits sixteen bits.
fn fold(sum: u32) -> (folded: u16)
    ensures
        folded == ones_complement(sum as int),
{
    let mut rest: u32 = sum;
    while rest >> 16 != 0
        invariant
            ones_complement(rest as int) == ones_complement(sum as int),
        decreases rest,
    {
        assert(rest >> 16 == rest / 0x1_0000) by (bit_vector);
        assert(rest & 0xffff == rest % 0x1_0000) by (bit_vector);
        rest = (rest & 0xffff) + (rest >> 16);
    }
    assert(rest < 0x1_0000) by (bit_vector)
        requires
            rest >> 16 == 0,
    ;
    rest as u16
}

/// `start` plus the words of `data`.
fn add_words(start: u32, data: &[u8]) -> (sum: u32)
    requires
        start + ((data@.len() + 1) / 2) * 0xffff <= u32::MAX,
    ensures
        sum == start + word_sum(data@),
{
    let length: usize = data.len();
    let mut sum: u32 = start;
    let mut index: usize = 0;
    while length - index >= 2
        invariant
            index <= length,
            index % 2 == 0,
            length == data@.len(),
            start + ((data@.len() + 1) / 2) * 0xffff <= u32::MAX,
            sum == start + word_sum(data@.take(index as int)),
            sum <= start + (index / 2) * 0xffff,
        decreases length - index,
    {
        proof {
            let seen: Seq<u8> = data@.take(index + 2);
            lemma_word_sum_field(seen, index as int);
            assert(seen.take(index as int) =~= data@.take(index as int));
            assert(seen.skip(index + 2).len() == 0);
        }
        sum = sum + read_u16_at(data, index) as u32;
        index = index + 2;
    }
    if index < length {
        let last: u8 = data[index];
        assert((last as u32) << 8 == last * 256) by (bit_vector);
        assert(data@.drop_last() =~= data@.take(index as int));
        sum = sum + ((last as u32) << 8);
    } else {
        assert(data@ =~= data@.take(index as int));
    }
    sum
}

/// The checksum of `segment`, whose checksum field holds zero, over the pseudo
/// header that the addresses, the segment's length and `next_header` make up.
pub fn ipv6_checksum(
    source: &[u8],
    destination: &[u8],
    next_header: u8,
    segment: &[u8],
) -> (checksum: u16)
    requires
        source@.len() == 16,
        destination@.len() == 16,
        segment@.len() <= u16::MAX,
    ensures
        checksum == checksum_value(source@, destination@, next_header, segment@),
{
    proof {
        let length: int = segment@.len() as int;
        lemma_pseudo_header_sum(source@, destination@, length, next_header);
        lemma_word_sum_concat(
            pseudo_header(source@, destination@, length, next_header),
            segment@,
        );
        lemma_word_sum_bounds(source@);
        lemma_word_sum_bounds(destination@);
        lemma_word_sum_bounds(segment@);
    }
    let mut sum: u32 = add_words(0, source);
    sum = add_words(sum, destination);
    let length: u32 = segment.len() as u32;
    assert(length >> 16 == length / 0x1_0000) by (bit_vector);
    assert(length & 0xffff == length % 0x1_0000) by (bit_vector);
    sum = sum + (length >> 16) + (length & 0xffff) + next_header as u32;
    sum = add_words(sum, segment);
    let folded: u16 = fold(sum);
    assert(!folded == 0xffff - folded) by (bit_vector);
    !folded
}

/// The big-endian words of `s` from an index on, added up front to back; a last
/// byte without a partner is a high byte.
pub open spec fn words_from(s: Seq<u8>, at: int) -> int
    decreases s.len() - at,
{
    if at >= s.len() {
        0
    } else if at + 1 == s.len() {
        s[at] * 256
    } else {
        s[at] * 256 + s[at + 1] + words_from(s, at + 2)
    }
}

/// Adding up from the front or from the back makes no difference.
pub proof fn lemma_words_from(s: Seq<u8>, at: int)
    requires
        0 <= at <= s.len(),
    ensures
        words_from(s, at) == word_sum(s.skip(at)),
    decreases s.len() - at,
{
    let rest: Seq<u8> = s.skip(at);
    assert(rest.len() == s.len() - at);
    if at + 1 == s.len() {
        assert(word_sum(rest.drop_last()) == 0);
    } else if at < s.len() {
        lemma_words_from(s, at + 2);
        lemma_word_sum_field(rest, 0);
        assert(rest.skip(2) =~= s.skip(at + 2));
        assert(rest.take(0).len() == 0);
    }
}

/// The words of a part at an even distance count the same inside the whole.
pub proof fn lemma_words_from_part(whole: Seq<u8>, start: int, at: int)
    requires
        0 <= start,
        0 <= at,
        start + at <= whole.len(),
    ensures
        words_from(whole, start + at) == words_from(whole.skip(start), at),
    decreases whole.len() - start - at,
{
    if start + at + 1 < whole.len() {
        lemma_words_from_part(whole, start, at + 2);
    }
}

/// The eight words of an address.
proof fn lemma_address_words(address: Seq<u8>)
    requires
        address.len() == 16,
    ensures
        word_sum(address) == be16(address, 0) + be16(address, 2) + be16(address, 4) + be16(
            address,
            6,
        ) + be16(address, 8) + be16(address, 10) + be16(address, 12) + be16(address, 14),
{
    lemma_words_from(address, 0);
    assert(address.skip(0) =~= address);
    reveal_with_fuel(words_from, 9);
}

/// Law: a sum counts every word with its whole value: storing another word in
/// place of one changes the sum by the difference of the two.
pub proof fn law_every_word_counts(s: Seq<u8>, at: int, value: int)
    requires
        0 <= at,
        at + 2 <= s.len(),
        at % 2 == 0,
        0 <= value <= 0xffff,
    ensures
        word_sum(s.update(at, (value / 256) as u8).update(at + 1, (value % 256) as u8))
            == word_sum(s) - (s[at] * 256 + s[at + 1]) + value,
{
    let changed: Seq<u8> = s.update(at, (value / 256) as u8).update(
        at + 1,
        (value % 256) as u8,
    );
    lemma_word_sum_field(s, at);
    lemma_word_sum_field(changed, at);
    assert(changed.take(at) =~= s.take(at));
    assert(changed.skip(at + 2) =~= s.skip(at + 2));
}

/// Law: a byte behind an even number of bytes counts as a high byte, and one
/// behind an odd number as a low byte; nothing adds up to zero.
pub proof fn law_bytes_count_by_their_place(s: Seq<u8>, byte: u8)
    ensures
        word_sum(Seq::<u8>::empty()) == 0,
        s.len() % 2 == 0 ==> word_sum(s.push(byte)) == word_sum(s) + byte * 256,
        s.len() % 2 == 1 ==> word_sum(s.push(byte)) == word_sum(s) + byte,
{
    assert(s.push(byte).drop_last() =~= s);
}

/// Law: what a receiver folds is, modulo `0xffff`, the sum of all sixteen words
/// of the two addresses, both halves of the segment's length, the next header and
/// every word of the segment; it fits sixteen bits and is zero only for a sum of
/// zero.
pub proof fn law_receiver_folds_the_whole_pseudo_header(
    source: Seq<u8>,
    destination: Seq<u8>,
    next_header: u8,
    segment: Seq<u8>,
)
    requires
        source.len() == 16,
        destination.len() == 16,
        segment.len() < 0x1_0000_0000,
    ensures
        ({
            let length: int = segment.len() as int;
            let total: int = (source[0] + source[2] + source[4] + source[6] + source[8]
                + source[10] + source[12] + source[14] + destination[0] + destination[2]
                + destination[4] + destination[6] + destination[8] + destination[10]
                + destination[12] + destination[14]) * 256 + source[1] + source[3] + source[5]
                + source[7] + source[9] + source[11] + source[13] + source[15] + destination[1]
                + destination[3] + destination[5] + destination[7] + destination[9]
                + destination[11] + destination[13] + destination[15] + length / 0x1_0000 + length
                % 0x1_0000 + next_header + words_from(segment, 0);
            let folded: int = receiver_sum(source, destination, next_header, segment);
            &&& 0 <= folded <= 0xffff
            &&& (total - folded) % 0xffff == 0
            &&& folded == 0 <==> total == 0
        }),
{
    let length: int = segment.len() as int;
    let pseudo: Seq<u8> = pseudo_header(source, destination, length, next_header);
    lemma_pseudo_header_sum(source, destination, length, next_header);
    lemma_word_sum_concat(pseudo, segment);
    lemma_address_words(source);
    lemma_address_words(destination);
    lemma_words_from(segment, 0);
    assert(segment.skip(0) =~= segment);
    lemma_word_sum_bounds(segment);
    lemma_fold_is_congruent(word_sum(pseudo + segment));
}

/// Folding keeps a sum modulo `0xffff`.
proof fn lemma_fold_is_congruent(sum: int)
    requires
        sum >= 0,
    ensures
        0 <= ones_complement(sum) <= 0xffff,
        (sum - ones_complement(sum)) % 0xffff == 0,
        ones_complement(sum) == 0 <==> sum == 0,
{
    if sum > 0 {
        let quotient: int = (sum - 1) / 0xffff;
        assert(sum - ones_complement(sum) == quotient * 0xffff);
        assert((quotient * 0xffff) % 0xffff == 0);
    }
}

/// Law: changing a word of either address changes what the receiver folds by the
/// difference, modulo `0xffff`.
pub proof fn law_receiver_notices_every_address_word(
    source: Seq<u8>,
    destination: Seq<u8>,
    next_header: u8,
    segment: Seq<u8>,
    at: int,
    value: int,
)
    requires
        source.len() == 16,
        destination.len() == 16,
        segment.len() < 0x1_0000_0000,
        0 <= at < 16,
        at % 2 == 0,
        0 <= value <= 0xffff,
    ensures
        (receiver_sum(put16(source, at, value), destination, next_header, segment) - receiver_sum(
            source,
            destination,
            next_header,
            segment,
        ) - (value - (source[at] * 256 + source[at + 1]))) % 0xffff == 0,
        (receiver_sum(source, put16(destination, at, value), next_header, segment) - receiver_sum(
            source,
            destination,
            next_header,
            segment,
        ) - (value - (destination[at] * 256 + destination[at + 1]))) % 0xffff == 0,
{
    let new_source: Seq<u8> = put16(source, at, value);
    let new_destination: Seq<u8> = put16(destination, at, value);
    lemma_receiver_sum(source, destination, next_header, segment);
    lemma_receiver_sum(new_source, destination, next_header, segment);
    lemma_receiver_sum(source, new_destination, next_header, segment);
    law_every_word_counts(source, at, value);
    law_every_word_counts(destination, at, value);
    lemma_folds_differ_like_sums(
        unfolded(source, destination, next_header, segment),
        receiver_sum(source, destination, next_header, segment),
        unfolded(new_source, destination, next_header, segment),
        receiver_sum(new_source, destination, next_header, segment),
    );
    lemma_folds_differ_like_sums(
        unfolded(source, destination, next_header, segment),
        receiver_sum(source, destination, next_header, segment),
        unfolded(source, new_destination, next_header, segment),
        receiver_sum(source, new_destination, next_header, segment),
    );
}

/// Law: changing a word of the segment, or the next header, changes what the
/// receiver folds by the difference, modulo `0xffff`.
pub proof fn law_receiver_notices_every_segment_word(
    source: Seq<u8>,
    destination: Seq<u8>,
    next_header: u8,
    other: u8,
    segment: Seq<u8>,
    at: int,
    value: int,
)
    requires
        source.len() == 16,
        destination.len() == 16,
        segment.len() < 0x1_0000_0000,
        0 <= at,
        at + 2 <= segment.len(),
        at % 2 == 0,
        0 <= value <= 0xffff,
    ensures
        (receiver_sum(source, destination, next_header, put16(segment, at, value)) - receiver_sum(
            source,
            destination,
            next_header,
            segment,
        ) - (value - (segment[at] * 256 + segment[at + 1]))) % 0xffff == 0,
        (receiver_sum(source, destination, other, segment) - receiver_sum(
            source,
            destination,
            next_header,
            segment,
        ) - (other - next_header)) % 0xffff == 0,
{
    let new_segment: Seq<u8> = put16(segment, at, value);
    lemma_receiver_sum(source, destination, next_header, segment);
    lemma_receiver_sum(source, destination, other, segment);
    lemma_receiver_sum(source, destination, next_header, new_segment);
    law_every_word_counts(segment, at, value);
    lemma_folds_differ_like_sums(
        unfolded(source, destination, next_header, segment),
        receiver_sum(source, destination, next_header, segment),
        unfolded(source, destination, next_header, new_segment),
        receiver_sum(source, destination, next_header, new_segment),
    );
    lemma_folds_differ_like_sums(
        unfolded(source, destination, next_header, segment),
        receiver_sum(source, destination, next_header, segment),
        unfolded(source, destination, other, segment),
        receiver_sum(source, destination, other, segment),
    );
}

/// Two folded sums differ like the sums themselves, modulo `0xffff`.
proof fn lemma_folds_differ_like_sums(first: int, folded: int, second: int, refolded: int)
    requires
        (first - folded) % 0xffff == 0,
        (second - refolded) % 0xffff == 0,
    ensures
        (refolded - folded - (second - first)) % 0xffff == 0,
{
}

/// The parts of what a receiver folds, added up.
spec fn unfolded(
    source: Seq<u8>,
    destination: Seq<u8>,
    next_header: u8,
    segment: Seq<u8>,
) -> int {
    word_sum(source) + word_sum(destination) + segment.len() as int / 0x1_0000
        + segment.len() as int % 0x1_0000 + next_header + word_sum(segment)
}

/// What a receiver folds, as parts, modulo `0xffff`.
proof fn lemma_receiver_sum(
    source: Seq<u8>,
    destination: Seq<u8>,
    next_header: u8,
    segment: Seq<u8>,
)
    requires
        source.len() == 16,
        destination.len() == 16,
        segment.len() < 0x1_0000_0000,
    ensures
        (unfolded(source, destination, next_header, segment) - receiver_sum(
            source,
            destination,
            next_header,
            segment,
        )) % 0xffff == 0,
{
    let length: int = segment.len() as int;
    let pseudo: Seq<u8> = pseudo_header(source, destination, length, next_header);
    lemma_pseudo_header_sum(source, destination, length, next_header);
    lemma_word_sum_concat(pseudo, segment);
    lemma_word_sum_bounds(source);
    lemma_word_sum_bounds(destination);
    lemma_word_sum_bounds(segment);
    lemma_fold_is_congruent(word_sum(pseudo + segment));
}

/// Law: a checksum completes what the receiver folds of the segment without it;
/// together they are a multiple of `0xffff`, and only a sum of zero has the
/// checksum `0xffff`.
pub proof fn law_checksum_completes_the_sum(
    source: Seq<u8>,
    destination: Seq<u8>,
    next_header: u8,
    segment: Seq<u8>,
)
    requires
        source.len() == 16,
        destination.len() == 16,
        segment.len() < 0x1_0000_0000,
    ensures
        ({
            let length: int = segment.len() as int;
            let checksum: int = checksum_value(source, destination, next_header, segment);
            &&& 0 <= checksum <= 0xffff
            &&& (words_from(source, 0) + words_from(destination, 0) + length / 0x1_0000 + length
                % 0x1_0000 + next_header + words_from(segment, 0) + checksum) % 0xffff == 0
            &&& next_header > 0 ==> checksum < 0xffff
        }),
{
    lemma_receiver_sum(source, destination, next_header, segment);
    law_receiver_folds_the_whole_pseudo_header(source, destination, next_header, segment);
    lemma_words_from(source, 0);
    lemma_words_from(destination, 0);
    lemma_words_from(segment, 0);
    lemma_word_sum_bounds(segment);
    assert(source.skip(0) =~= source);
    assert(destination.skip(0) =~= destination);
    assert(segment.skip(0) =~= segment);
}

} // verus!
