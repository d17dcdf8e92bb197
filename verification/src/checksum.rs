//! One's complement checksums of Internet packets.

use vstd::prelude::*;

verus! {

/// The sum of the big-endian 16-bit words of `s`; a last odd byte counts as a
/// word whose low half is zero.
pub open spec fn word_sum(s: Seq<u8>) -> nat
    decreases s.len(),
{
    if s.len() == 0 {
        0
    } else {
        word_sum(s.drop_last()) + s.last() as nat * (if s.len() % 2 == 1 {
            256nat
        } else {
            1nat
        })
    }
}

/// The 16-bit one's complement value of a sum: carries out of the low 16 bits
/// are added back in until none is left.
pub open spec fn fold(sum: nat) -> nat {
    if sum == 0 {
        0
    } else {
        ((sum - 1) % 0xffff + 1) as nat
    }
}

/// The checksum that belongs to a sum of words: its one's complement.
pub open spec fn complement(sum: nat) -> u16 {
    (0xffff - fold(sum)) as u16
}

pub proof fn lemma_fold_range(sum: nat)
    ensures
        fold(sum) <= 0xffff,
        fold(sum) == 0 <==> sum == 0,
        sum <= 0xffff ==> fold(sum) == sum,
{
    if 0 < sum <= 0xffff {
        vstd::arithmetic::div_mod::lemma_small_mod((sum - 1) as nat, 0xffff);
    }
}

/// Carries may be added back in at any time.
pub proof fn lemma_fold_add(a: nat, b: nat)
    ensures
        fold(fold(a) + b) == fold(a + b),
{
    if a > 0 {
        let r = fold(a);
        let k = (a - 1) / 0xffff;
        assert(a - 1 == 0xffff * k + (a - 1) % 0xffff) by {
            vstd::arithmetic::div_mod::lemma_fundamental_div_mod(a - 1, 0xffff);
        }
        assert((a + b - 1) == 0xffff * k + (r + b - 1));
        vstd::arithmetic::div_mod::lemma_mod_multiples_vanish(k as int, r + b - 1, 0xffff);
    }
}

/// A sum that the complement of another completes to a multiple of `0xffff`
/// folds to all ones.
pub proof fn lemma_complement_completes(sum: nat)
    ensures
        fold(sum + complement(sum) as nat) == 0xffff,
{
    lemma_fold_range(sum);
    let c = complement(sum) as nat;
    lemma_fold_add(sum, c);
    assert(fold(sum) + c == 0xffff);
    lemma_fold_range(0xffff);
}

/// Changing one byte changes the sum by the weighted difference.
pub proof fn lemma_word_sum_update(s: Seq<u8>, i: int, b: u8)
    requires
        0 <= i < s.len(),
    ensures
        word_sum(s.update(i, b)) == word_sum(s) + (b as int - s[i] as int) * (if i % 2 == 0 {
            256int
        } else {
            1int
        }),
    decreases s.len(),
{
    let t = s.update(i, b);
    if i == s.len() - 1 {
        assert(t.drop_last() =~= s.drop_last());
    } else {
        assert(t.drop_last() =~= s.drop_last().update(i, b));
        lemma_word_sum_update(s.drop_last(), i, b);
    }
}

/// Writing `x` over a zeroed, word-aligned field adds `x` to the sum.
pub proof fn lemma_word_sum_put16(s: Seq<u8>, at: int, x: u16)
    requires
        0 <= at,
        at + 1 < s.len(),
        at % 2 == 0,
        s[at] == 0,
        s[at + 1] == 0,
    ensures
        word_sum(crate::bytes::put16(s, at, x)) == word_sum(s) + x,
{
    let hi = (x / 256) as u8;
    let lo = (x % 256) as u8;
    lemma_word_sum_update(s, at, hi);
    lemma_word_sum_update(s.update(at, hi), at + 1, lo);
}

/// Adds a word to a folded sum.
pub fn add_word(sum: u32, word: u32) -> (r: u32)
    requires
        sum <= 0xffff,
        word <= 0xffff,
    ensures
        r <= 0xffff,
        r as nat == fold((sum + word) as nat),
{
    let total: u32 = sum + word;
    if total > 0xffff {
        proof {
            vstd::arithmetic::div_mod::lemma_mod_multiples_vanish(1, total - 1 - 0xffff, 0xffff);
            vstd::arithmetic::div_mod::lemma_small_mod((total - 1 - 0xffff) as nat, 0xffff);
        }
        total - 0xffff
    } else {
        proof {
            lemma_fold_range(total as nat);
        }
        total
    }
}

/// Adds the words of `data` to a folded sum.
pub fn add_words(sum: u32, data: &[u8]) -> (r: u32)
    requires
        sum <= 0xffff,
    ensures
        r <= 0xffff,
        r as nat == fold(sum as nat + word_sum(data@)),
{
    let mut acc: u32 = sum;
    let mut i: usize = 0;
    proof {
        lemma_fold_range(sum as nat);
    }
    while i < data.len()
        invariant
            i <= data.len(),
            acc <= 0xffff,
            acc as nat == fold(sum as nat + word_sum(data@.take(i as int))),
        decreases data.len() - i,
    {
        let byte: u32 = data[i] as u32;
        let word: u32 = if i % 2 == 0 {
            byte * 256
        } else {
            byte
        };
        proof {
            let before = sum as nat + word_sum(data@.take(i as int));
            assert(data@.take(i + 1).drop_last() =~= data@.take(i as int));
            assert(word_sum(data@.take(i + 1)) == word_sum(data@.take(i as int)) + word);
            lemma_fold_add(before, word as nat);
        }
        acc = add_word(acc, word);
        i = i + 1;
    }
    assert(data@.take(data@.len() as int) =~= data@);
    acc
}

/// The checksum that belongs to a folded sum.
pub fn complement_of(folded: u32) -> (r: u16)
    requires
        folded <= 0xffff,
    ensures
        r == 0xffff - folded,
        forall|sum: nat| folded == #[trigger] fold(sum) ==> r == complement(sum),
{
    (0xffff - folded) as u16
}

/// Compute the Internet checksum (RFC 1071).
pub fn internet_checksum(data: &[u8]) -> (r: u16)
    ensures
        r == complement(word_sum(data@)),
{
    complement_of(add_words(0, data))
}

} // verus!
