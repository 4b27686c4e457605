//! The Internet checksum (ones' complement sum of big-endian 16-bit words).

use vstd::prelude::*;

verus! {

/// The 16-bit big-endian word at word index `i`; a trailing odd byte is the
/// high byte of a word whose low byte is zero.
pub open spec fn word_at(s: Seq<u8>, i: int) -> int {
    let hi = s[2 * i] as int;
    let lo = if 2 * i + 1 < s.len() { s[2 * i + 1] as int } else { 0 };
    hi * 256 + lo
}

/// The number of words that cover `s`.
pub open spec fn word_count(s: Seq<u8>) -> int {
    (s.len() as int + 1) / 2
}

/// The plain sum of the first `n` words of `s`, leaving out word `skip`.
pub open spec fn word_sum(s: Seq<u8>, skip: int, n: int) -> int
    decreases n,
{
    if n <= 0 {
        0
    } else {
        word_sum(s, skip, n - 1) + if n - 1 == skip { 0 } else { word_at(s, n - 1) }
    }
}

/// One end-around-carry step: the high half added onto the low half.
pub open spec fn fold_once(x: int) -> int {
    x / 65536 + x % 65536
}

/// The ones' complement checksum of `s` with word `skip` taken as zero.
pub open spec fn checksum_of(s: Seq<u8>, skip: int) -> int {
    if s.len() == 0 {
        0
    } else {
        65535 - fold_once(fold_once(word_sum(s, skip, word_count(s))))
    }
}

/// Relies on pnet::packet::util::checksum: the big-endian word sum of `data`
/// without word `skipword`, carries folded back in, then complemented.
#[verifier::external_body]
pub(crate) fn internet_checksum(data: &[u8], skipword: usize) -> (r: u16)
    requires
        data@.len() <= 65535,
    ensures
        r as int == checksum_of(data@, skipword as int),
{
    pnet::packet::util::checksum(data, skipword)
}

/// `s` with the checksum `c` written big-endian into bytes 2 and 3.
pub open spec fn with_checksum(s: Seq<u8>, c: int) -> Seq<u8> {
    s.update(2, (c / 256) as u8).update(3, (c % 256) as u8)
}

/// Whether `data`, checksum field included, sums to the all-ones word.
pub fn checksum_valid(data: &[u8]) -> (r: bool)
    requires
        data@.len() <= 65535,
    ensures
        r == (checksum_of(data@, word_count(data@)) == 0),
{
    let words: usize = (data.len() + 1) / 2;
    internet_checksum(data, words) == 0
}

proof fn lemma_fold_once(x: int)
    requires
        0 <= x < 0x1_0000_0000,
    ensures
        0 <= fold_once(x) <= 0x1fffe,
        fold_once(x) % 65535 == x % 65535,
        fold_once(x) == 0 <==> x == 0,
        x <= 0x1fffe ==> fold_once(x) <= 65535,
{
    let q = x / 65536;
    let r = x % 65536;
    assert(x == 65536 * q + r && 0 <= r < 65536 && 0 <= q < 65536) by (nonlinear_arith)
        requires 0 <= x < 0x1_0000_0000, q == x / 65536, r == x % 65536;
    assert(fold_once(x) == x - 65535 * q);
    vstd::arithmetic::div_mod::lemma_mod_multiples_vanish(-q, x, 65535);
    assert(x + 65535 * (-q) == x - 65535 * q) by (nonlinear_arith);
    if x <= 0x1fffe {
        assert(q <= 1) by (nonlinear_arith)
            requires x == 65536 * q + r, 0 <= r, x <= 0x1fffe;
    }
}

proof fn lemma_fold_twice(x: int)
    requires
        0 <= x < 0x1_0000_0000,
    ensures
        0 <= fold_once(fold_once(x)) <= 65535,
        fold_once(fold_once(x)) % 65535 == x % 65535,
        fold_once(fold_once(x)) == 0 <==> x == 0,
{
    lemma_fold_once(x);
    lemma_fold_once(fold_once(x));
}

proof fn lemma_word_bounds(s: Seq<u8>, skip: int, n: int)
    requires
        0 <= n <= word_count(s),
    ensures
        0 <= word_sum(s, skip, n) <= 65535 * n,
    decreases n,
{
    if n > 0 {
        lemma_word_bounds(s, skip, n - 1);
        let i = n - 1;
        assert(0 <= word_at(s, i) <= 65535) by {
            assert(0 <= 2 * i < s.len());
        }
    }
}

proof fn lemma_word_sum_with_checksum(s: Seq<u8>, c: int, n: int)
    requires
        4 <= s.len(),
        0 <= c <= 65535,
        0 <= n <= word_count(s),
    ensures
        word_sum(with_checksum(s, c), word_count(s), n) == word_sum(s, 1, n) + if n > 1 { c } else { 0 },
    decreases n,
{
    let t = with_checksum(s, c);
    if n > 0 {
        lemma_word_sum_with_checksum(s, c, n - 1);
        let i = n - 1;
        if i == 1 {
            assert(word_at(t, 1) == c) by {
                assert(t[2] as int == c / 256 && t[3] as int == c % 256);
            }
        } else {
            assert(word_at(t, i) == word_at(s, i)) by {
                assert(t[2 * i] == s[2 * i]);
                if 2 * i + 1 < s.len() {
                    assert(t[2 * i + 1] == s[2 * i + 1]);
                }
            }
        }
    }
}

/// Writing the checksum of a buffer (computed with its checksum word taken
/// as zero) into that word gives a buffer whose full checksum is zero.
pub proof fn lemma_checksum_round_trip(s: Seq<u8>)
    requires
        4 <= s.len() <= 65535,
    ensures
        checksum_of(with_checksum(s, checksum_of(s, 1)), word_count(with_checksum(s, checksum_of(s, 1)))) == 0,
{
    let n = word_count(s);
    let total = word_sum(s, 1, n);
    lemma_word_bounds(s, 1, n);
    assert(65535 * n < 0x8000_0000) by (nonlinear_arith)
        requires n == word_count(s), s.len() <= 65535;
    lemma_fold_twice(total);
    let c = checksum_of(s, 1);
    let t = with_checksum(s, c);
    lemma_word_sum_with_checksum(s, c, n);
    let total2 = total + c;
    assert(total2 % 65535 == 0) by {
        let f = fold_once(fold_once(total));
        assert(c == 65535 - f);
        vstd::arithmetic::div_mod::lemma_fundamental_div_mod(total, 65535);
        vstd::arithmetic::div_mod::lemma_fundamental_div_mod(f, 65535);
        vstd::arithmetic::div_mod::lemma_mod_multiples_vanish(total / 65535 - f / 65535 + 1, 0, 65535);
        assert(total2 == 65535 * (total / 65535 - f / 65535 + 1)) by (nonlinear_arith)
            requires total2 == total + 65535 - f, total == 65535 * (total / 65535) + total % 65535,
                f == 65535 * (f / 65535) + f % 65535, f % 65535 == total % 65535;
        assert(0int % 65535 == 0);
    }
    lemma_fold_twice(total2);
    assert(word_count(t) == n);
}

} // verus!
