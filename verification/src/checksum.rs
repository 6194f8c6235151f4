//! The Internet checksum (RFC 1071): the one's complement of the one's
//! complement sum of a buffer read as big-endian 16-bit words.

use vstd::arithmetic::div_mod::lemma_mod_multiples_vanish;
use vstd::prelude::*;

verus! {

/// Number of 16-bit words that `bytes` holds, a trailing odd byte counting as one.
pub open spec fn word_count(bytes: Seq<u8>) -> nat {
    (bytes.len() + 1) / 2
}

/// The word that starts at byte `2 * k`, read big-endian. A trailing odd byte
/// is the high byte of a word whose low byte is zero.
pub open spec fn word_at(bytes: Seq<u8>, k: int) -> nat {
    let high = bytes[2 * k] as nat;
    let low = if 2 * k + 1 < bytes.len() {
        bytes[2 * k + 1] as nat
    } else {
        0
    };
    high * 256 + low
}

/// Sum of the first `n` words of `bytes`, with no bound on its size.
pub open spec fn word_sum(bytes: Seq<u8>, n: nat) -> nat
    decreases n,
{
    if n == 0 {
        0
    } else {
        word_sum(bytes, (n - 1) as nat) + word_at(bytes, n - 1)
    }
}

/// Adds what lies above bit 15 back into the low 16 bits, until nothing lies
/// above bit 15.
pub open spec fn fold_carries(sum: nat) -> nat
    decreases sum,
{
    if sum < 0x10000 {
        sum
    } else {
        fold_carries(sum % 0x10000 + sum / 0x10000)
    }
}

/// The checksum of `bytes`: the complement, in 16 bits, of the folded word sum.
pub open spec fn internet_checksum(bytes: Seq<u8>) -> u16 {
    (0xFFFF - fold_carries(word_sum(bytes, word_count(bytes)))) as u16
}

/// Folding keeps a sum of zero, and maps every other sum to the one value in
/// `1..=0xFFFF` that is congruent to it modulo `0xFFFF`.
pub proof fn lemma_fold_carries_value(sum: nat)
    ensures
        fold_carries(sum) == if sum == 0 {
            0
        } else {
            ((sum - 1) % 0xFFFF + 1) as nat
        },
        fold_carries(sum) <= 0xFFFF,
    decreases sum,
{
    if sum >= 0x10000 {
        let high = sum / 0x10000;
        let next = sum % 0x10000 + high;
        lemma_fold_carries_value(next);
        assert(sum - 1 == 0xFFFF * high + (next - 1));
        lemma_mod_multiples_vanish(high as int, next - 1, 0xFFFF);
    }
}

/// Folding before a further word is added changes nothing in the folded total.
pub proof fn lemma_fold_carries_add(sum: nat, word: nat)
    ensures
        fold_carries(fold_carries(sum) + word) == fold_carries(sum + word),
{
    lemma_fold_carries_value(sum);
    lemma_fold_carries_value(sum + word);
    lemma_fold_carries_value(fold_carries(sum) + word);
    if sum > 0 {
        let q = (sum - 1) / 0xFFFF;
        let r = (sum - 1) % 0xFFFF;
        assert(sum - 1 + word == 0xFFFF * q + (r + word));
        lemma_mod_multiples_vanish(q, r + word, 0xFFFF);
    }
}

/// `bytes` with word `k` replaced by `word`, written big-endian.
pub open spec fn with_word(bytes: Seq<u8>, k: int, word: u16) -> Seq<u8> {
    bytes.update(2 * k, (word / 256) as u8).update(2 * k + 1, (word % 256) as u8)
}

/// `bytes` with word `k` replaced by the checksum of the buffer in which that
/// word is zero.
pub open spec fn embed_checksum(bytes: Seq<u8>, k: int) -> Seq<u8> {
    with_word(bytes, k, internet_checksum(with_word(bytes, k, 0)))
}

/// Whether word `k` lies within `bytes` and holds the checksum of the buffer
/// in which that word is zero.
pub open spec fn holds_checksum(bytes: Seq<u8>, k: int) -> bool {
    &&& 0 <= k
    &&& 2 * k + 1 < bytes.len()
    &&& word_at(bytes, k) == internet_checksum(with_word(bytes, k, 0))
}

/// Replacing word `k` changes the sum of the first `n` words by the
/// difference of the two words, if word `k` is among them.
pub proof fn lemma_word_sum_with_word(bytes: Seq<u8>, k: int, word: u16, n: nat)
    requires
        0 <= k,
        2 * k + 1 < bytes.len(),
        n <= word_count(bytes),
    ensures
        word_sum(with_word(bytes, k, word), n) + (if k < n {
            word_at(bytes, k)
        } else {
            0
        }) == word_sum(bytes, n) + (if k < n {
            word as nat
        } else {
            0
        }),
    decreases n,
{
    if n > 0 {
        lemma_word_sum_with_word(bytes, k, word, (n - 1) as nat);
        let changed = with_word(bytes, k, word);
        if n - 1 == k {
            assert(word_at(changed, k) == (word / 256) * 256 + word % 256);
        } else {
            assert(word_at(changed, n - 1) == word_at(bytes, n - 1));
        }
    }
}

/// A buffer that holds its own checksum in one of its words has the checksum
/// zero.
pub proof fn lemma_checksum_verifies(bytes: Seq<u8>, k: int)
    requires
        holds_checksum(bytes, k),
    ensures
        internet_checksum(bytes) == 0,
{
    let zeroed = with_word(bytes, k, 0);
    let count = word_count(bytes);
    let sum = word_sum(zeroed, count);
    let held = internet_checksum(zeroed);
    lemma_fold_carries_value(sum);
    lemma_word_sum_with_word(bytes, k, 0, count);
    assert(word_sum(bytes, count) == sum + held);
    lemma_fold_carries_value(sum + held as nat);
    if sum > 0 {
        let q = (sum - 1) / 0xFFFF;
        assert(sum + held - 1 == 0xFFFF * q + 0xFFFE);
        lemma_mod_multiples_vanish(q, 0xFFFE, 0xFFFF);
    }
}

/// Writing a buffer's checksum into one of its words gives a buffer whose
/// checksum is zero, whatever the word held before.
pub proof fn lemma_checksum_embedded(bytes: Seq<u8>, k: int)
    requires
        0 <= k,
        2 * k + 1 < bytes.len(),
    ensures
        holds_checksum(embed_checksum(bytes, k), k),
        internet_checksum(embed_checksum(bytes, k)) == 0,
{
    let held = internet_checksum(with_word(bytes, k, 0));
    let embedded = embed_checksum(bytes, k);
    assert(with_word(embedded, k, 0) =~= with_word(bytes, k, 0));
    assert(word_at(embedded, k) == (held / 256) * 256 + held % 256);
    lemma_checksum_verifies(embedded, k);
}

/// One end-around carry: the low 16 bits plus what lies above them.
fn end_around_carry(sum: u32) -> (folded: u32)
    requires
        sum <= 0x1FFFE,
    ensures
        folded == fold_carries(sum as nat),
        folded <= 0xFFFF,
{
    assert((sum & 0xFFFF) + (sum >> 16) == sum % 0x10000 + sum / 0x10000 && (sum & 0xFFFF) + (sum
        >> 16) <= 0xFFFF) by (bit_vector)
        requires
            sum <= 0x1FFFE,
    ;
    let folded = (sum & 0xFFFF) + (sum >> 16);
    assert(fold_carries(sum as nat) == folded) by {
        reveal_with_fuel(fold_carries, 2);
    }
    folded
}

/// Computes the Internet checksum of `buf`.
///
/// The words are summed with an end-around carry after each, which gives the
/// folded total of the plain sum whatever the length of `buf`.
pub fn calculate_checksum(buf: &[u8]) -> (checksum: u16)
    ensures
        checksum == internet_checksum(buf@),
{
    let len = buf.len();
    let mut sum: u32 = 0;
    let mut i: usize = 0;
    while len - i >= 2
        invariant
            len == buf@.len(),
            i <= len,
            i % 2 == 0,
            sum <= 0xFFFF,
            sum == fold_carries(word_sum(buf@, (i / 2) as nat)),
        decreases len - i,
    {
        let high: u32 = buf[i] as u32;
        let low: u32 = buf[i + 1] as u32;
        let word: u32 = (high << 8) | low;
        assert((high << 8) | low == high * 256 + low) by (bit_vector)
            requires
                high <= 0xFF,
                low <= 0xFF,
        ;
        proof {
            let done = (i / 2) as nat;
            assert(word == word_at(buf@, done as int));
            assert(word_sum(buf@, done + 1) == word_sum(buf@, done) + word);
            lemma_fold_carries_add(word_sum(buf@, done), word as nat);
        }
        sum = end_around_carry(sum + word);
        i += 2;
    }
    if i < len {
        let high: u32 = buf[i] as u32;
        let word: u32 = high << 8;
        assert(high << 8 == high * 256) by (bit_vector)
            requires
                high <= 0xFF,
        ;
        proof {
            let done = (i / 2) as nat;
            assert(word == word_at(buf@, done as int));
            assert(word_sum(buf@, done + 1) == word_sum(buf@, done) + word);
            lemma_fold_carries_add(word_sum(buf@, done), word as nat);
            assert(done + 1 == word_count(buf@));
        }
        sum = end_around_carry(sum + word);
    } else {
        assert((i / 2) as nat == word_count(buf@));
    }
    let folded: u16 = sum as u16;
    assert(!folded == 0xFFFF - folded) by (bit_vector);
    !folded
}

} // verus!
