//! Checksum engine: a 16-bit one's-complement checksum in the style of
//! RFC 1071, computed over big-endian 16-bit words with end-around carry and a
//! final one's complement.  While summing, the word at byte offset 4 (the
//! checksum field of the frame header) is treated as if it held the fixed
//! placeholder value 0xCCCC, so the computed checksum never depends on the
//! bytes actually stored in that field.

use vstd::arithmetic::div_mod::{
    lemma_add_mod_noop, lemma_fundamental_div_mod, lemma_mod_bound, lemma_mod_multiples_vanish,
    lemma_small_mod,
};
use vstd::prelude::*;

verus! {

/// Value of the big-endian 16-bit word at even byte offset `i` of the first
/// `n` bytes of `data`, as the engine sees it: the word at offset 4 is pinned
/// to 0xCCCC, and a trailing odd byte is padded with a zero low byte.
pub open spec fn word_at(data: Seq<u8>, n: nat, i: int) -> int {
    if i == 4 {
        0xCCCC
    } else if i + 1 < n {
        (data[i] as int) * 256 + (data[i + 1] as int)
    } else {
        (data[i] as int) * 256
    }
}

/// How many 16-bit words cover `n` bytes; a trailing odd byte counts as one.
pub open spec fn word_count(n: nat) -> nat {
    (n + 1) / 2
}

/// The `t`-th word the engine sums: the word at byte offset `2 * t`.
pub open spec fn nth_word(data: Seq<u8>, n: nat, t: int) -> int {
    word_at(data, n, 2 * t)
}

/// One step of end-around-carry folding: a sum above 16 bits drops its carry
/// bit and adds 1 back in, which is the same as subtracting 0xFFFF.
pub open spec fn fold_carry(s: int) -> int {
    if s > 0xFFFF {
        s - 0xFFFF
    } else {
        s
    }
}

/// One's-complement sum, with end-around carry folded after every addition,
/// of the first `k` words of the first `n` bytes of `data`.
pub open spec fn folded_sum(data: Seq<u8>, n: nat, k: nat) -> int
    decreases k,
{
    if k == 0 {
        0
    } else {
        fold_carry(folded_sum(data, n, (k - 1) as nat) + nth_word(data, n, k - 1))
    }
}

/// Plain integer sum of the same words, with no folding.
pub open spec fn plain_sum(data: Seq<u8>, n: nat, k: nat) -> int
    decreases k,
{
    if k == 0 {
        0
    } else {
        plain_sum(data, n, (k - 1) as nat) + nth_word(data, n, k - 1)
    }
}

/// The checksum of the first `n` bytes of `data`: the one's complement of the
/// folded word sum, as a 16-bit value.
pub open spec fn checksum_of(data: Seq<u8>, n: nat) -> int {
    0xFFFF - folded_sum(data, n, word_count(n))
}

/// The checksum a frame carries: the big-endian 16-bit value stored at byte
/// offset 4 of its header.
pub open spec fn stored_checksum(data: Seq<u8>) -> int {
    (data[4] as int) * 256 + (data[5] as int)
}

/// The stored checksum agrees with the checksum recomputed over the first `n`
/// bytes.
pub open spec fn checksum_matches(data: Seq<u8>, n: nat) -> bool {
    stored_checksum(data) == checksum_of(data, n)
}

/// A word index below `word_count(n)` addresses a byte offset inside the
/// summed range.
proof fn lemma_word_index_in_range(n: nat, t: int)
    requires
        0 <= t < word_count(n),
    ensures
        2 * t < n,
{
    lemma_fundamental_div_mod(n as int + 1, 2);
    lemma_mod_bound(n as int + 1, 2);
}

/// Folding the carry after every addition does not change the sum's residue
/// modulo 0xFFFF.
proof fn lemma_folded_sum_congruent(data: Seq<u8>, n: nat, k: nat)
    requires
        n <= data.len(),
        2 * k <= n + 1,
    ensures
        folded_sum(data, n, k) % 0xFFFF == plain_sum(data, n, k) % 0xFFFF,
    decreases k,
{
    if k > 0 {
        let km1 = (k - 1) as nat;
        lemma_folded_sum_congruent(data, n, km1);
        let f = folded_sum(data, n, km1);
        let p = plain_sum(data, n, km1);
        let w = word_at(data, n, 2 * (k - 1));
        lemma_add_mod_noop(f, w, 0xFFFF);
        lemma_add_mod_noop(p, w, 0xFFFF);
        if f + w > 0xFFFF {
            lemma_mod_multiples_vanish(-1, f + w, 0xFFFF);
            assert(0xFFFF * (-1) + (f + w) == f + w - 0xFFFF);
        }
    }
}

/// Two buffers whose words all agree have the same folded sum.
proof fn lemma_folded_sum_same_words(data1: Seq<u8>, data2: Seq<u8>, n: nat, k: nat)
    requires
        forall|t: int| 0 <= t < k ==> #[trigger] nth_word(data1, n, t) == nth_word(data2, n, t),
    ensures
        folded_sum(data1, n, k) == folded_sum(data2, n, k),
    decreases k,
{
    if k > 0 {
        lemma_folded_sum_same_words(data1, data2, n, (k - 1) as nat);
        assert(nth_word(data1, n, k - 1) == nth_word(data2, n, k - 1));
    }
}

/// When the words of two buffers agree everywhere but possibly at index `w`,
/// their plain sums differ by exactly the difference of that one word.
proof fn lemma_plain_sum_delta(data1: Seq<u8>, data2: Seq<u8>, n: nat, k: nat, w: int)
    requires
        forall|t: int| 0 <= t < k && t != w ==> #[trigger] nth_word(data1, n, t) == nth_word(data2, n, t),
    ensures
        plain_sum(data2, n, k) - plain_sum(data1, n, k) == if 0 <= w < k {
            word_at(data2, n, 2 * w) - word_at(data1, n, 2 * w)
        } else {
            0
        },
    decreases k,
{
    if k > 0 {
        lemma_plain_sum_delta(data1, data2, n, (k - 1) as nat, w);
    }
}

/// Shifting a value by a positive amount smaller than the modulus always
/// changes its residue.
proof fn lemma_mod_shift_nonzero(p: int, d: int, m: int)
    requires
        0 < d < m,
    ensures
        (p + d) % m != p % m,
{
    lemma_mod_bound(p, m);
    let r = p % m;
    lemma_add_mod_noop(p, d, m);
    lemma_small_mod(d as nat, m as nat);
    if r + d < m {
        lemma_small_mod((r + d) as nat, m as nat);
    } else {
        lemma_mod_multiples_vanish(-1, r + d, m);
        assert(m * (-1) + (r + d) == r + d - m);
        lemma_small_mod((r + d - m) as nat, m as nat);
    }
}

/// A byte at offset `j` only enters the word at index `j / 2`: every other
/// word reads byte offsets different from `j`.
proof fn lemma_words_agree_outside(data1: Seq<u8>, data2: Seq<u8>, n: nat, j: int, t: int)
    requires
        n <= data1.len(),
        n <= data2.len(),
        0 <= j < n,
        forall|i: int| 0 <= i < n && i != j ==> data1[i] == data2[i],
        0 <= t,
        2 * t < n,
        t != j / 2,
    ensures
        word_at(data1, n, 2 * t) == word_at(data2, n, 2 * t),
{
    lemma_fundamental_div_mod(j, 2);
    lemma_mod_bound(j, 2);
    assert(2 * t != j && 2 * t + 1 != j);
}

/// Corrupting a single byte outside the checksum field (byte offsets 4 and 5)
/// always changes the computed checksum: the affected word's contribution
/// shifts the one's-complement sum by a nonzero amount smaller than 0xFFFF.
pub proof fn lemma_corrupted_byte_changes_checksum(
    data1: Seq<u8>,
    data2: Seq<u8>,
    n: nat,
    j: int,
)
    requires
        n <= data1.len(),
        n <= data2.len(),
        0 <= j < n,
        j != 4,
        j != 5,
        forall|i: int| 0 <= i < n && i != j ==> data1[i] == data2[i],
        data1[j] != data2[j],
    ensures
        checksum_of(data1, n) != checksum_of(data2, n),
{
    let kk = word_count(n);
    let w = j / 2;
    lemma_fundamental_div_mod(j, 2);
    lemma_mod_bound(j, 2);
    assert(j == 2 * w || j == 2 * w + 1);
    assert forall|t: int| 0 <= t < kk && t != w implies #[trigger] nth_word(data1, n, t)
        == nth_word(data2, n, t) by {
        lemma_word_index_in_range(n, t);
        lemma_words_agree_outside(data1, data2, n, j, t);
    }
    lemma_plain_sum_delta(data1, data2, n, kk, w);
    lemma_fundamental_div_mod(n as int + 1, 2);
    lemma_mod_bound(n as int + 1, 2);
    assert(0 <= w < kk);
    let d = word_at(data2, n, 2 * w) - word_at(data1, n, 2 * w);
    if j == 2 * w {
        assert(2 * w != 4);
        if j + 1 < n {
            assert(data1[j + 1] == data2[j + 1]);
            assert(d == (data2[j] as int - data1[j] as int) * 256);
        } else {
            assert(d == (data2[j] as int - data1[j] as int) * 256);
        }
    } else {
        assert(2 * w == j - 1);
        assert(2 * w != 4);
        assert(data1[2 * w] == data2[2 * w]);
        assert(d == data2[j] as int - data1[j] as int);
    }
    assert(d != 0 && -0xFFFF < d < 0xFFFF);
    let p1 = plain_sum(data1, n, kk);
    let p2 = plain_sum(data2, n, kk);
    if d > 0 {
        lemma_mod_shift_nonzero(p1, d, 0xFFFF);
    } else {
        lemma_mod_shift_nonzero(p2, -d, 0xFFFF);
    }
    lemma_folded_sum_congruent(data1, n, kk);
    lemma_folded_sum_congruent(data2, n, kk);
}

/// The computed checksum is independent of the bytes stored in the checksum
/// field itself: the engine pins that word to the placeholder 0xCCCC, whatever
/// the field really holds.
pub proof fn lemma_checksum_ignores_stored_field(data1: Seq<u8>, data2: Seq<u8>, n: nat)
    requires
        n <= data1.len(),
        n <= data2.len(),
        forall|i: int| 0 <= i < n && i != 4 && i != 5 ==> data1[i] == data2[i],
    ensures
        checksum_of(data1, n) == checksum_of(data2, n),
{
    let kk = word_count(n);
    assert forall|t: int| 0 <= t < kk implies #[trigger] nth_word(data1, n, t) == nth_word(
        data2,
        n,
        t,
    ) by {
        lemma_word_index_in_range(n, t);
        if 2 * t != 4 {
            assert(2 * t != 4 && 2 * t != 5);
            assert(2 * t + 1 != 4);
            if 2 * t + 1 < n && 2 * t + 1 != 5 {
                assert(data1[2 * t + 1] == data2[2 * t + 1]);
            }
            assert(data1[2 * t] == data2[2 * t]);
            if 2 * t + 1 == 5 {
                assert(2 * t == 4);
            }
        }
    }
    lemma_folded_sum_same_words(data1, data2, n, kk);
}

/// A buffer whose stored checksum is correct fails verification after any
/// single byte outside the checksum field is corrupted: the stored field is
/// untouched while the recomputed checksum changes.
pub proof fn lemma_corruption_detected(data1: Seq<u8>, data2: Seq<u8>, n: nat, j: int)
    requires
        6 <= n,
        n <= data1.len(),
        n <= data2.len(),
        0 <= j < n,
        j != 4,
        j != 5,
        forall|i: int| 0 <= i < n && i != j ==> data1[i] == data2[i],
        data1[j] != data2[j],
        checksum_matches(data1, n),
    ensures
        !checksum_matches(data2, n),
{
    lemma_corrupted_byte_changes_checksum(data1, data2, n, j);
    assert(data1[4] == data2[4] && data1[5] == data2[5]);
}

/// Computes the frame checksum over the first `packet_size` bytes of
/// `packet_data`: big-endian 16-bit words are summed with end-around carry,
/// the word at byte offset 4 is treated as 0xCCCC, a trailing odd byte is
/// padded with a zero low byte, and the folded sum is complemented.
pub fn calculate_checksum(packet_data: &[u8], packet_size: usize) -> (r: u16)
    requires
        packet_size <= packet_data@.len(),
        packet_size < usize::MAX,
    ensures
        r as int == checksum_of(packet_data@, packet_size as nat),
{
    let ghost data = packet_data@;
    let ghost n = packet_size as nat;
    let mut sum: u32 = 0;
    let mut i: usize = 0;
    while i < packet_size
        invariant
            packet_size <= packet_data@.len(),
            packet_size < usize::MAX,
            data == packet_data@,
            n == packet_size as nat,
            i % 2 == 0,
            i <= packet_size + 1,
            sum <= 0xFFFF,
            sum as int == folded_sum(data, n, (i / 2) as nat),
        decreases packet_size + 1 - i,
    {
        let word: u16 = if i == 4 {
            0xCCCC
        } else {
            let hi: u16 = (packet_data[i] as u16) * 256;
            if i + 1 < packet_size {
                hi + (packet_data[i + 1] as u16)
            } else {
                hi
            }
        };
        proof {
            assert(word as int == word_at(data, n, i as int));
        }
        sum = sum + (word as u32);
        if sum > 0xFFFF {
            sum = sum - 0xFFFF;
        }
        i = i + 2;
        proof {
            assert((i / 2) as nat == (i / 2 - 1) as nat + 1);
            assert(folded_sum(data, n, (i / 2) as nat) == fold_carry(
                folded_sum(data, n, (i / 2 - 1) as nat) + word_at(data, n, i - 2),
            ));
        }
    }
    proof {
        assert((i / 2) as nat == word_count(n));
    }
    (0xFFFF - sum) as u16
}

/// Recomputes the checksum and compares it against the stored big-endian
/// checksum field at byte offset 4; a mismatch is a validation failure that
/// the caller must surface.
pub fn check_checksum(packet_data: &[u8], packet_size: usize) -> (r: bool)
    requires
        6 <= packet_size,
        packet_size <= packet_data@.len(),
        packet_size < usize::MAX,
    ensures
        r == checksum_matches(packet_data@, packet_size as nat),
{
    let expected_checksum: u16 = (packet_data[4] as u16) * 256 + (packet_data[5] as u16);
    let actual_checksum: u16 = calculate_checksum(packet_data, packet_size);
    expected_checksum == actual_checksum
}

} // verus!
