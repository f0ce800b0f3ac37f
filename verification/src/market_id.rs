use vstd::prelude::*;

use crate::digest::{sha256, sha256_digest};
use crate::errors::Error;
use soroban_sdk::Env;

verus! {

/// Largest per-admin counter an id can carry.
pub const MAX_COUNTER: u32 = 999_999;

/// Number of ids tried before giving up on collisions.
pub const MAX_RETRIES: u32 = 10;

/// Offset basis of the 32-bit FNV-1a hash.
pub const FNV_OFFSET_BASIS: u32 = 0x811c_9dc5;

/// Prime of the 32-bit FNV-1a hash.
pub const FNV_PRIME: u32 = 0x0100_0193;

/// Generates collision-resistant market ids of the form
/// `mkt_{8 hex digits}_{counter, at least 6 digits}`.
pub struct MarketIdGenerator;

// ===== MATHEMATICAL MODEL =====

/// The hashed input of an id: the nonce then the counter, big-endian.
pub open spec fn id_input(nonce: u64, counter: u32) -> Seq<u8> {
    seq![
        ((nonce >> 56u64) & 0xffu64) as u8,
        ((nonce >> 48u64) & 0xffu64) as u8,
        ((nonce >> 40u64) & 0xffu64) as u8,
        ((nonce >> 32u64) & 0xffu64) as u8,
        ((nonce >> 24u64) & 0xffu64) as u8,
        ((nonce >> 16u64) & 0xffu64) as u8,
        ((nonce >> 8u64) & 0xffu64) as u8,
        (nonce & 0xffu64) as u8,
        ((counter >> 24u32) & 0xffu32) as u8,
        ((counter >> 16u32) & 0xffu32) as u8,
        ((counter >> 8u32) & 0xffu32) as u8,
        (counter & 0xffu32) as u8,
    ]
}

/// One FNV-1a step: xor the byte in, then multiply by the prime (mod 2^32).
pub open spec fn fnv1a_step(h: u32, b: u8) -> u32 {
    (h ^ (b as u32)).wrapping_mul(FNV_PRIME)
}

/// The 32-bit FNV-1a hash of `s`.
pub open spec fn fnv1a_32(s: Seq<u8>) -> u32
    decreases s.len(),
{
    if s.len() == 0 {
        FNV_OFFSET_BASIS
    } else {
        fnv1a_step(fnv1a_32(s.drop_last()), s.last())
    }
}

/// The lowercase hexadecimal digit of `n` (below 16).
pub open spec fn hex_char(n: u8) -> char {
    match n {
        0u8 => '0',
        1u8 => '1',
        2u8 => '2',
        3u8 => '3',
        4u8 => '4',
        5u8 => '5',
        6u8 => '6',
        7u8 => '7',
        8u8 => '8',
        9u8 => '9',
        10u8 => 'a',
        11u8 => 'b',
        12u8 => 'c',
        13u8 => 'd',
        14u8 => 'e',
        _ => 'f',
    }
}

/// The two hexadecimal digits of a byte.
pub open spec fn byte_hex(b: u8) -> Seq<char> {
    seq![hex_char(b / 16), hex_char(b % 16)]
}

/// The decimal digits of `n`, padded with zeros to at least `width` digits.
pub open spec fn dec_digits(n: nat, width: nat) -> Seq<char>
    decreases n, width,
{
    if n == 0 && width == 0 {
        Seq::empty()
    } else {
        dec_digits(
            n / 10,
            if width > 0 {
                (width - 1) as nat
            } else {
                0
            },
        ) + seq![hex_char((n % 10) as u8)]
    }
}

/// The text of a market id from the digest of its input, the hash of the
/// admin and the counter: each of the digest's first four bytes is xored
/// with the matching byte of the admin hash (most significant first).
pub open spec fn market_id_text(digest: Seq<u8>, admin_hash: u32, counter: u32) -> Seq<char> {
    "mkt_"@ + byte_hex(digest[0] ^ ((admin_hash >> 24u32) as u8)) + byte_hex(
        digest[1] ^ ((admin_hash >> 16u32) as u8),
    ) + byte_hex(digest[2] ^ ((admin_hash >> 8u32) as u8)) + byte_hex(
        digest[3] ^ (admin_hash as u8),
    ) + "_"@ + dec_digits(counter as nat, 6)
}

/// The error an id attempt is refused with, or the counter it uses.
pub open spec fn attempt_counter(admin_counter: u32, sealed: bool, attempt: u32) -> Result<u32, Error> {
    if admin_counter > MAX_COUNTER {
        Err(Error::InvalidInput)
    } else if sealed {
        Err(Error::InvalidState)
    } else if attempt >= MAX_RETRIES {
        Err(Error::DuplicateMarketId)
    } else if admin_counter + attempt > MAX_COUNTER {
        Err(Error::InvalidInput)
    } else {
        Ok((admin_counter + attempt) as u32)
    }
}

/// Digits pushed least significant first, read back most significant first.
pub open spec fn digits_text(d: Seq<u8>) -> Seq<char>
    decreases d.len(),
{
    if d.len() == 0 {
        Seq::empty()
    } else {
        seq![hex_char(d.last())] + digits_text(d.drop_last())
    }
}

proof fn lemma_digits_text_index(d: Seq<u8>)
    ensures
        digits_text(d).len() == d.len(),
        forall|j: int| 0 <= j < d.len() ==> #[trigger] digits_text(d)[j] == hex_char(d[d.len() - 1 - j]),
    decreases d.len(),
{
    if d.len() > 0 {
        lemma_digits_text_index(d.drop_last());
    }
}

// ===== COMPUTATION =====

/// The one-character text of a digit below 16.
fn hex_str(n: u8) -> (r: &'static str)
    requires
        n < 16,
    ensures
        r@ == seq![hex_char(n)],
{
    proof {
        reveal_strlit("0");
        reveal_strlit("1");
        reveal_strlit("2");
        reveal_strlit("3");
        reveal_strlit("4");
        reveal_strlit("5");
        reveal_strlit("6");
        reveal_strlit("7");
        reveal_strlit("8");
        reveal_strlit("9");
        reveal_strlit("a");
        reveal_strlit("b");
        reveal_strlit("c");
        reveal_strlit("d");
        reveal_strlit("e");
        reveal_strlit("f");
    }
    match n {
        0 => "0",
        1 => "1",
        2 => "2",
        3 => "3",
        4 => "4",
        5 => "5",
        6 => "6",
        7 => "7",
        8 => "8",
        9 => "9",
        10 => "a",
        11 => "b",
        12 => "c",
        13 => "d",
        14 => "e",
        _ => "f",
    }
}

/// Appends the two hexadecimal digits of `b`.
fn append_byte_hex(s: &mut String, b: u8)
    ensures
        final(s)@ == old(s)@ + byte_hex(b),
{
    s.append(hex_str(b / 16));
    s.append(hex_str(b % 16));
    assert(final(s)@ =~= old(s)@ + byte_hex(b));
}

/// Appends the decimal digits of `n`, zero-padded to at least `width`.
fn append_dec(s: &mut String, n: u32, width: u32)
    ensures
        final(s)@ == old(s)@ + dec_digits(n as nat, width as nat),
{
    let mut digits: Vec<u8> = Vec::new();
    let mut m: u32 = n;
    let mut w: u32 = width;
    while m > 0 || w > 0
        invariant
            dec_digits(n as nat, width as nat) == dec_digits(m as nat, w as nat) + digits_text(digits@),
            forall|j: int| 0 <= j < digits@.len() ==> #[trigger] digits@[j] < 10,
        decreases m, w,
    {
        let d = (m % 10) as u8;
        proof {
            let w2: nat = if w > 0 {
                (w - 1) as nat
            } else {
                0
            };
            assert(digits_text(digits@.push(d)) =~= seq![hex_char(d)] + digits_text(digits@)) by {
                assert(digits@.push(d).drop_last() =~= digits@);
            }
            assert(dec_digits(m as nat, w as nat) == dec_digits((m / 10) as nat, w2) + seq![
                hex_char(((m as nat) % 10) as u8),
            ]);
            assert(dec_digits(n as nat, width as nat) =~= dec_digits((m / 10) as nat, w2)
                + digits_text(digits@.push(d)));
        }
        digits.push(d);
        m = m / 10;
        if w > 0 {
            w = w - 1;
        }
    }
    assert(dec_digits(0, 0) =~= Seq::<char>::empty());
    proof {
        lemma_digits_text_index(digits@);
    }
    let ghost start = s@;
    let len = digits.len();
    let mut k: usize = len;
    while k > 0
        invariant
            k <= len == digits@.len(),
            forall|j: int| 0 <= j < digits@.len() ==> #[trigger] digits@[j] < 10,
            s@ == start + Seq::new((len - k) as nat, |j: int| hex_char(digits@[len - 1 - j])),
        decreases k,
    {
        k = k - 1;
        s.append(hex_str(digits[k]));
        assert(s@ =~= start + Seq::new((len - k) as nat, |j: int| hex_char(digits@[len - 1 - j])));
    }
    assert(Seq::new(len as nat, |j: int| hex_char(digits@[len - 1 - j])) =~= digits_text(digits@));
}

/// The 32-bit FNV-1a hash of `data`.
pub fn fnv1a(data: &Vec<u8>) -> (r: u32)
    ensures
        r == fnv1a_32(data@),
{
    let mut h: u32 = FNV_OFFSET_BASIS;
    let mut i: usize = 0;
    while i < data.len()
        invariant
            0 <= i <= data@.len(),
            h == fnv1a_32(data@.take(i as int)),
        decreases data@.len() - i,
    {
        assert(data@.take(i + 1).drop_last() =~= data@.take(i as int));
        h = (h ^ (data[i] as u32)).wrapping_mul(FNV_PRIME);
        i = i + 1;
    }
    assert(data@.take(i as int) =~= data@);
    h
}

impl MarketIdGenerator {
    /// The id built from a global nonce, the admin's counter and the admin's
    /// XDR encoding: the SHA-256 digest of nonce and counter (big-endian),
    /// its first four bytes mixed with the FNV-1a hash of the admin, in
    /// hexadecimal, then the counter zero-padded to six digits.
    pub fn build_market_id(env: &Env, nonce: u64, counter: u32, admin_xdr: &Vec<u8>) -> (id: String)
        ensures
            id@ == market_id_text(sha256_digest(id_input(nonce, counter)), fnv1a_32(admin_xdr@), counter),
    {
        let mut input: Vec<u8> = Vec::new();
        input.push(((nonce >> 56u64) & 0xffu64) as u8);
        input.push(((nonce >> 48u64) & 0xffu64) as u8);
        input.push(((nonce >> 40u64) & 0xffu64) as u8);
        input.push(((nonce >> 32u64) & 0xffu64) as u8);
        input.push(((nonce >> 24u64) & 0xffu64) as u8);
        input.push(((nonce >> 16u64) & 0xffu64) as u8);
        input.push(((nonce >> 8u64) & 0xffu64) as u8);
        input.push((nonce & 0xffu64) as u8);
        input.push(((counter >> 24u32) & 0xffu32) as u8);
        input.push(((counter >> 16u32) & 0xffu32) as u8);
        input.push(((counter >> 8u32) & 0xffu32) as u8);
        input.push((counter & 0xffu32) as u8);
        assert(input@ =~= id_input(nonce, counter));
        let digest = sha256(env, &input);
        let h = fnv1a(admin_xdr);
        proof {
            reveal_strlit("mkt_");
            reveal_strlit("_");
        }
        let mut id = "mkt_".to_owned();
        append_byte_hex(&mut id, digest[0] ^ ((h >> 24u32) as u8));
        append_byte_hex(&mut id, digest[1] ^ ((h >> 16u32) as u8));
        append_byte_hex(&mut id, digest[2] ^ ((h >> 8u32) as u8));
        append_byte_hex(&mut id, digest[3] ^ (h as u8));
        id.append("_");
        append_dec(&mut id, counter, 6);
        id
    }

    /// The counter that attempt number `attempt` of an id generation uses,
    /// starting from the admin's counter: refused with `InvalidInput` when
    /// the admin's counter, or the attempt's, exceeds `MAX_COUNTER`, with
    /// `InvalidState` once the generator is sealed, and with
    /// `DuplicateMarketId` after `MAX_RETRIES` colliding attempts.
    pub fn attempt_counter(admin_counter: u32, sealed: bool, attempt: u32) -> (r: Result<u32, Error>)
        ensures
            r == attempt_counter(admin_counter, sealed, attempt),
    {
        if admin_counter > MAX_COUNTER {
            return Err(Error::InvalidInput);
        }
        if sealed {
            return Err(Error::InvalidState);
        }
        if attempt >= MAX_RETRIES {
            return Err(Error::DuplicateMarketId);
        }
        let counter = admin_counter + attempt;
        if counter > MAX_COUNTER {
            return Err(Error::InvalidInput);
        }
        Ok(counter)
    }
}

} // verus!
