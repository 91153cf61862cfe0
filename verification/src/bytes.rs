//! Little-endian integers and hexadecimal digits in byte sequences.
use vstd::prelude::*;

verus! {

/// The `k` low bytes of `n`, the lowest first.
pub open spec fn le_bytes(n: nat, k: nat) -> Seq<u8>
    decreases k,
{
    if k == 0 {
        Seq::empty()
    } else {
        seq![(n % 256) as u8] + le_bytes(n / 256, (k - 1) as nat)
    }
}

/// The number whose bytes are `s`, the lowest first.
pub open spec fn le_value(s: Seq<u8>) -> nat
    decreases s.len(),
{
    if s.len() == 0 {
        0
    } else {
        s[0] as nat + 256 * le_value(s.skip(1))
    }
}

/// `n` fits in `k` bytes.
pub open spec fn le_fits(n: nat, k: nat) -> bool
    decreases k,
{
    if k == 0 {
        n == 0
    } else {
        le_fits(n / 256, (k - 1) as nat)
    }
}

/// Reading the bytes of a number that fits gives the number back.
pub proof fn law_le_round_trip(n: nat, k: nat)
    requires
        le_fits(n, k),
    ensures
        le_bytes(n, k).len() == k,
        le_value(le_bytes(n, k)) == n,
    decreases k,
{
    if k > 0 {
        law_le_round_trip(n / 256, (k - 1) as nat);
        assert(le_bytes(n, k).skip(1) =~= le_bytes(n / 256, (k - 1) as nat));
    }
}

pub proof fn lemma_le_len(n: nat, k: nat)
    ensures
        le_bytes(n, k).len() == k,
    decreases k,
{
    if k > 0 {
        lemma_le_len(n / 256, (k - 1) as nat);
    }
}

/// Every `u32` fits in four bytes and every `u64` in eight.
pub proof fn lemma_word_fits(n: nat)
    ensures
        n <= u32::MAX ==> le_fits(n, 4),
        n <= u64::MAX ==> le_fits(n, 8),
{
    reveal_with_fuel(le_fits, 9);
}

/// Appends the `k` low bytes of `n`.
pub fn put_le(out: &mut Vec<u8>, n: u64, k: usize)
    ensures
        final(out)@ == old(out)@ + le_bytes(n as nat, k as nat),
{
    let mut rest: u64 = n;
    let mut left: usize = k;
    proof {
        assert(out@ + le_bytes(n as nat, k as nat) =~= old(out)@ + le_bytes(n as nat, k as nat));
    }
    while left > 0
        invariant
            left <= k,
            out@ + le_bytes(rest as nat, left as nat) == old(out)@ + le_bytes(n as nat, k as nat),
        decreases left,
    {
        proof {
            let b = (rest % 256) as u8;
            assert(out@.push(b) + le_bytes((rest / 256) as nat, (left - 1) as nat) =~= out@ + (
            seq![b] + le_bytes((rest / 256) as nat, (left - 1) as nat)));
        }
        out.push((rest % 256) as u8);
        rest = rest / 256;
        left -= 1;
    }
    proof {
        assert(out@ + le_bytes(rest as nat, 0) =~= out@);
    }
}

/// The `u32` at `at`.
pub fn get_u32(bytes: &[u8], at: usize) -> (r: u32)
    requires
        at + 4 <= bytes@.len(),
    ensures
        r == le_value(bytes@.subrange(at as int, at + 4)),
{
    proof {
        lemma_four(bytes@.subrange(at as int, at + 4));
    }
    bytes[at] as u32 + bytes[at + 1] as u32 * 0x100 + bytes[at + 2] as u32 * 0x10000 + bytes[at + 3] as u32 * 0x100_0000
}

/// The `u64` at `at`.
pub fn get_u64(bytes: &[u8], at: usize) -> (r: u64)
    requires
        at + 8 <= bytes@.len(),
    ensures
        r == le_value(bytes@.subrange(at as int, at + 8)),
{
    proof {
        let s = bytes@.subrange(at as int, at + 8);
        lemma_four(s.skip(4));
        lemma_four(s.take(4));
        lemma_eight(s);
        assert(s.take(4) =~= bytes@.subrange(at as int, at + 4));
        assert(s.skip(4) =~= bytes@.subrange(at + 4, at + 8));
    }
    let _size: usize = bytes.len();
    let low: u32 = get_u32(bytes, at);
    let high: u32 = get_u32(bytes, at + 4);
    low as u64 + high as u64 * 0x1_0000_0000
}

proof fn lemma_four(s: Seq<u8>)
    requires
        s.len() == 4,
    ensures
        le_value(s) == s[0] + 0x100 * s[1] + 0x10000 * s[2] + 0x100_0000 * s[3],
{
    reveal_with_fuel(le_value, 5);
    assert(s.skip(1).skip(1) =~= s.skip(2));
    assert(s.skip(2).skip(1) =~= s.skip(3));
}

proof fn lemma_eight(s: Seq<u8>)
    requires
        s.len() == 8,
    ensures
        le_value(s) == le_value(s.take(4)) + 0x1_0000_0000 * le_value(s.skip(4)),
{
    reveal_with_fuel(le_value, 5);
    lemma_four(s.take(4));
    assert(s.skip(1).skip(1) =~= s.skip(2));
    assert(s.skip(2).skip(1) =~= s.skip(3));
    assert(s.skip(3).skip(1) =~= s.skip(4));
}

/// The hexadecimal digit of value `n`, in lower case.
pub open spec fn nibble(n: int) -> char {
    let digits = seq![
        '0',
        '1',
        '2',
        '3',
        '4',
        '5',
        '6',
        '7',
        '8',
        '9',
        'a',
        'b',
        'c',
        'd',
        'e',
        'f',
    ];
    digits[n]
}

/// The value of a lower case hexadecimal digit.
pub open spec fn nibble_value(c: char) -> Option<int> {
    if '0' <= c <= '9' {
        Some(c as int - '0' as int)
    } else if 'a' <= c <= 'f' {
        Some(c as int - 'a' as int + 10)
    } else {
        None
    }
}

/// Two hexadecimal digits for each byte.
pub open spec fn hex(s: Seq<u8>) -> Seq<char> {
    Seq::new(
        s.len() * 2,
        |i: int|
            if i % 2 == 0 {
                nibble(s[i / 2] as int / 16)
            } else {
                nibble(s[i / 2] as int % 16)
            },
    )
}

/// The bytes that pairs of hexadecimal digits write.
pub open spec fn unhex(s: Seq<char>) -> Seq<u8> {
    Seq::new(
        s.len() / 2,
        |i: int| (nibble_value(s[2 * i])->0 * 16 + nibble_value(s[2 * i + 1])->0) as u8,
    )
}

/// Every character is a lower case hexadecimal digit.
pub open spec fn is_hex(s: Seq<char>) -> bool {
    forall|i: int| 0 <= i < s.len() ==> nibble_value(#[trigger] s[i]) is Some
}

pub fn nibble_char(n: u8) -> (r: char)
    requires
        n < 16,
    ensures
        r == nibble(n as int),
{
    let digits: [char; 16] = [
        '0',
        '1',
        '2',
        '3',
        '4',
        '5',
        '6',
        '7',
        '8',
        '9',
        'a',
        'b',
        'c',
        'd',
        'e',
        'f',
    ];
    digits[n as usize]
}

/// The hexadecimal digits of `value`.
pub fn to_hex(value: &[u8]) -> (r: String)
    ensures
        r@ == hex(value@),
{
    let mut out = String::new();
    let n: usize = value.len();
    let mut i: usize = 0;
    while i < n
        invariant
            n == value@.len(),
            i <= n,
            out@ == hex(value@).take(2 * i),
        decreases n - i,
    {
        out.push(nibble_char(value[i] / 16));
        out.push(nibble_char(value[i] % 16));
        proof {
            assert((2 * i) / 2 == i && (2 * i + 1) / 2 == i);
            assert((2 * i) % 2 == 0 && (2 * i + 1) % 2 == 1);
            assert(out@ =~= hex(value@).take(2 * (i + 1)));
        }
        i += 1;
    }
    proof {
        assert(hex(value@).take(2 * n) =~= hex(value@));
    }
    out
}

pub fn hex_value(c: char) -> (r: Option<u8>)
    ensures
        match r {
            Some(v) => nibble_value(c) == Some(v as int) && v < 16,
            None => nibble_value(c) is None,
        },
{
    if '0' <= c && c <= '9' {
        Some((c as u32 - '0' as u32) as u8)
    } else if 'a' <= c && c <= 'f' {
        Some((c as u32 - 'a' as u32 + 10) as u8)
    } else {
        None
    }
}

/// Reading the hexadecimal digits of bytes gives the bytes back.
pub proof fn law_hex_round_trip(s: Seq<u8>)
    ensures
        is_hex(hex(s)),
        unhex(hex(s)) == s,
{
    assert forall|i: int| 0 <= i < hex(s).len() implies nibble_value(#[trigger] hex(s)[i])
        is Some by {
        lemma_nibble(s[i / 2] as int / 16);
        lemma_nibble(s[i / 2] as int % 16);
    }
    assert forall|i: int| 0 <= i < s.len() implies unhex(hex(s))[i] == s[i] by {
        lemma_nibble(s[i] as int / 16);
        lemma_nibble(s[i] as int % 16);
        assert((2 * i) / 2 == i && (2 * i + 1) / 2 == i);
        assert((2 * i) % 2 == 0 && (2 * i + 1) % 2 == 1);
    }
    assert(unhex(hex(s)) =~= s);
}

pub proof fn lemma_nibble(n: int)
    requires
        0 <= n < 16,
    ensures
        nibble_value(nibble(n)) == Some(n),
{
}

} // verus!
