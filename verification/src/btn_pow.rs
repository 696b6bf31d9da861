//! Proof of work: digests with leading zero bits.

use vstd::prelude::*;
use vstd::arithmetic::power2::{lemma2_to64, pow2};
use crate::btn_codec::{sha256, sha256_digest, sha512, sha512_digest};
use crate::text::{ascii_upper, chars_of, is_whitespace, is_ws, spells, to_ascii_upper};
use crate::wire::{be64, bytes64, random_u64};

verus! {

/// How many numbers are tried before the search is given up.
pub const POW_MAX_ITERATIONS: u64 = 20_000_000;

/// Whether the first `bits` bits of a digest are zero: its whole bytes and the upper part of the
/// next byte. A digest that is too short does not qualify.
pub open spec fn leading_zero_bits(hash: Seq<u8>, bits: int) -> bool {
    bits <= 0 || {
        let full = bits / 8;
        let rest = bits % 8;
        &&& hash.len() >= full
        &&& forall|i: int| 0 <= i < full ==> #[trigger] hash[i] == 0
        &&& rest == 0 || (full < hash.len() && hash[full] < pow2((8 - rest) as nat))
    }
}

/// Whether the first `bits` bits of a digest are zero.
pub fn has_leading_zero_bits(hash: &[u8], bits: i32) -> (yes: bool)
    ensures
        yes == leading_zero_bits(hash@, bits as int),
{
    if bits <= 0 {
        return true;
    }
    let full: usize = (bits / 8) as usize;
    let rest: i32 = bits % 8;
    if hash.len() < full {
        return false;
    }
    let mut i: usize = 0;
    while i < full
        invariant
            i <= full <= hash.len(),
            bits > 0,
            full == bits as int / 8,
            forall|k: int| 0 <= k < i ==> #[trigger] hash@[k] == 0,
        decreases full - i,
    {
        if hash[i] != 0 {
            return false;
        }
        i += 1;
    }
    if rest == 0 {
        return true;
    }
    if hash.len() == full {
        return false;
    }
    proof {
        lemma2_to64();
    }
    let limit: u8 = if rest == 1 {
        128
    } else if rest == 2 {
        64
    } else if rest == 3 {
        32
    } else if rest == 4 {
        16
    } else if rest == 5 {
        8
    } else if rest == 6 {
        4
    } else {
        2
    };
    assert(limit == pow2((8 - rest) as nat));
    hash[full] < limit
}

/// More leading zero bits include fewer.
pub proof fn leading_zero_bits_are_monotone(hash: Seq<u8>, bits: int, fewer: int)
    requires
        fewer <= bits,
        leading_zero_bits(hash, bits),
    ensures
        leading_zero_bits(hash, fewer),
{
    lemma2_to64();
    if fewer > 0 {
        let full = fewer / 8;
        let rest = fewer % 8;
        if full == bits / 8 {
            if rest > 0 {
                let more = bits % 8;
                assert(rest <= more);
                assert(pow2((8 - more) as nat) <= pow2((8 - rest) as nat)) by {
                    if rest < more {
                        vstd::arithmetic::power2::lemma_pow2_strictly_increases(
                            (8 - more) as nat,
                            (8 - rest) as nat,
                        );
                    }
                }
            }
        } else if rest > 0 {
            assert(hash[full] == 0);
            vstd::arithmetic::power2::lemma_pow2_pos((8 - rest) as nat);
        }
    }
}

/// The digests that a proof of work may use.
#[derive(Clone, Copy, PartialEq, Eq, Structural, Debug)]
pub enum PowAlgorithm {
    Sha256,
    Sha512,
}

/// A name of an algorithm without white space and hyphens, its letters in upper case.
pub open spec fn algorithm_key(s: Seq<char>) -> Seq<char>
    decreases s.len(),
{
    if s.len() == 0 {
        s
    } else {
        let rest = algorithm_key(s.drop_last());
        if is_ws(s.last()) || s.last() == '-' {
            rest
        } else {
            rest.push(ascii_upper(s.last()))
        }
    }
}

/// The algorithm of a name.
pub open spec fn algorithm_of(name: Seq<char>) -> Option<PowAlgorithm> {
    let key = algorithm_key(name);
    if key == "SHA256"@ || key == "SHA_256"@ {
        Some(PowAlgorithm::Sha256)
    } else if key == "SHA512"@ || key == "SHA_512"@ {
        Some(PowAlgorithm::Sha512)
    } else {
        None
    }
}

impl PowAlgorithm {
    /// The algorithm of a name; case, white space and hyphens do not matter.
    pub fn parse(algorithm: &str) -> (r: Option<Self>)
        ensures
            r == algorithm_of(algorithm@),
    {
        let chars = chars_of(algorithm);
        let mut key: Vec<char> = Vec::new();
        let mut i: usize = 0;
        assert(chars@.take(0) =~= Seq::empty());
        while i < chars.len()
            invariant
                i <= chars.len(),
                key@ == algorithm_key(chars@.take(i as int)),
            decreases chars.len() - i,
        {
            assert(chars@.take(i + 1).drop_last() =~= chars@.take(i as int));
            if !(is_whitespace(chars[i]) || chars[i] == '-') {
                key.push(to_ascii_upper(chars[i]));
            }
            i += 1;
        }
        assert(chars@.take(i as int) =~= algorithm@);
        if spells(key.as_slice(), "SHA256") || spells(key.as_slice(), "SHA_256") {
            Some(PowAlgorithm::Sha256)
        } else if spells(key.as_slice(), "SHA512") || spells(key.as_slice(), "SHA_512") {
            Some(PowAlgorithm::Sha512)
        } else {
            None
        }
    }

    /// The digest of a challenge followed by a nonce.
    pub open spec fn digest_of(self, challenge: Seq<u8>, nonce: Seq<u8>) -> Seq<u8> {
        match self {
            PowAlgorithm::Sha256 => sha256(challenge + nonce),
            PowAlgorithm::Sha512 => sha512(challenge + nonce),
        }
    }

    /// The digest of a challenge followed by a nonce.
    pub fn digest(self, challenge: &[u8], nonce: &[u8]) -> (out: Vec<u8>)
        ensures
            out@ == self.digest_of(challenge@, nonce@),
    {
        let mut data: Vec<u8> = Vec::new();
        push_bytes(&mut data, challenge);
        push_bytes(&mut data, nonce);
        assert(data@ =~= challenge@ + nonce@);
        match self {
            PowAlgorithm::Sha256 => sha256_digest(data.as_slice()),
            PowAlgorithm::Sha512 => sha512_digest(data.as_slice()),
        }
    }
}

fn push_bytes(out: &mut Vec<u8>, more: &[u8])
    ensures
        final(out)@ == old(out)@ + more@,
{
    let ghost before = out@;
    let mut i: usize = 0;
    while i < more.len()
        invariant
            i <= more.len(),
            out@ == before + more@.take(i as int),
        decreases more.len() - i,
    {
        out.push(more[i]);
        i += 1;
        assert(out@ =~= before + more@.take(i as int));
    }
    assert(more@.take(i as int) =~= more@);
}

/// Whether a nonce solves a challenge.
pub open spec fn solves(
    algorithm: PowAlgorithm,
    challenge: Seq<u8>,
    bits: int,
    nonce: Seq<u8>,
) -> bool {
    leading_zero_bits(algorithm.digest_of(challenge, nonce), bits)
}

/// The number `k` steps behind `start`, wrapping round.
pub open spec fn nonce_at(start: u64, k: int) -> u64 {
    ((start as int + k) % 0x1_0000_0000_0000_0000) as u64
}

/// Whether `found` is the outcome of trying numbers upwards from `start`: the first that solves the
/// challenge, or `None` if none of `limit` numbers does.
#[verifier::opaque]
pub open spec fn search_ends(
    algorithm: PowAlgorithm,
    challenge: Seq<u8>,
    difficulty_bits: int,
    start: u64,
    limit: int,
    found: Option<Seq<u8>>,
) -> bool {
    match found {
        Some(nonce) => exists|k: int|
            {
                &&& 0 <= k < limit
                &&& nonce == bytes64(#[trigger] nonce_at(start, k))
                &&& solves(algorithm, challenge, difficulty_bits, nonce)
                &&& forall|j: int|
                    0 <= j < k ==> !solves(
                        algorithm,
                        challenge,
                        difficulty_bits,
                        bytes64(#[trigger] nonce_at(start, j)),
                    )
            },
        None => forall|j: int|
            0 <= j < limit ==> !solves(
                algorithm,
                challenge,
                difficulty_bits,
                bytes64(#[trigger] nonce_at(start, j)),
            ),
    }
}

/// Bytes that may be missing, as a value.
pub open spec fn found_bytes(r: Option<Vec<u8>>) -> Option<Seq<u8>> {
    match r {
        Some(v) => Some(v@),
        None => None,
    }
}

/// Searches upwards from `start` for the first number that solves a challenge, trying `limit`
/// numbers at most.
pub fn solve_from(
    algorithm: PowAlgorithm,
    challenge: &[u8],
    difficulty_bits: i32,
    start: u64,
    limit: u64,
) -> (r: Option<Vec<u8>>)
    ensures
        search_ends(
            algorithm,
            challenge@,
            difficulty_bits as int,
            start,
            limit as int,
            found_bytes(r),
        ),
{
    proof {
        reveal(search_ends);
    }
    let mut nonce: u64 = start;
    let mut tried: u64 = 0;
    while tried < limit
        invariant
            tried <= limit,
            nonce == nonce_at(start, tried as int),
            forall|j: int|
                0 <= j < tried ==> !solves(
                    algorithm,
                    challenge@,
                    difficulty_bits as int,
                    bytes64(#[trigger] nonce_at(start, j)),
                ),
        decreases limit - tried,
    {
        let bytes = be64(nonce);
        let digest = algorithm.digest(challenge, bytes.as_slice());
        if has_leading_zero_bits(digest.as_slice(), difficulty_bits) {
            proof {
                reveal(search_ends);
            }
            return Some(bytes);
        }
        nonce = if nonce == u64::MAX {
            0
        } else {
            nonce + 1
        };
        tried += 1;
    }
    None
}

/// Solves a challenge from a random start: the eight bytes of a number that, behind the challenge,
/// gives a digest with the wanted leading zero bits. `None` if the algorithm is not known or no
/// number was found in time; a difficulty of zero or less is always solved.
pub fn solve_pow(challenge: &[u8], difficulty_bits: i32, algorithm: &str) -> (r: Option<Vec<u8>>)
    ensures
        algorithm_of(algorithm@) is None ==> r is None,
        r matches Some(nonce) ==> nonce.len() == 8 && solves(
            algorithm_of(algorithm@)->0,
            challenge@,
            difficulty_bits as int,
            nonce@,
        ),
        algorithm_of(algorithm@) is Some && difficulty_bits <= 0 ==> r is Some,
        algorithm_of(algorithm@) matches Some(a) ==> exists|start: u64| #[trigger]
            search_ends(
                a,
                challenge@,
                difficulty_bits as int,
                start,
                POW_MAX_ITERATIONS as int,
                found_bytes(r),
            ),
{
    match PowAlgorithm::parse(algorithm) {
        None => None,
        Some(a) => {
            let start = random_u64(0);
            let r = solve_from(a, challenge, difficulty_bits, start, POW_MAX_ITERATIONS);
            proof {
                reveal(search_ends);
                if difficulty_bits <= 0 {
                    assert(solves(
                        a,
                        challenge@,
                        difficulty_bits as int,
                        bytes64(nonce_at(start, 0)),
                    ));
                }
            }
            r
        },
    }
}

// ------------------------------------------------------------------ laws of the proof of work
/// Up to eight leading zero bits are counted in the first byte, and each zero byte in front is eight
/// more.
pub proof fn zero_bits_are_counted_byte_by_byte(hash: Seq<u8>, bits: int)
    ensures
        bits == 1 ==> leading_zero_bits(hash, bits) == (hash.len() > 0 && hash[0] < 128),
        bits == 2 ==> leading_zero_bits(hash, bits) == (hash.len() > 0 && hash[0] < 64),
        bits == 3 ==> leading_zero_bits(hash, bits) == (hash.len() > 0 && hash[0] < 32),
        bits == 4 ==> leading_zero_bits(hash, bits) == (hash.len() > 0 && hash[0] < 16),
        bits == 5 ==> leading_zero_bits(hash, bits) == (hash.len() > 0 && hash[0] < 8),
        bits == 6 ==> leading_zero_bits(hash, bits) == (hash.len() > 0 && hash[0] < 4),
        bits == 7 ==> leading_zero_bits(hash, bits) == (hash.len() > 0 && hash[0] < 2),
        bits == 8 ==> leading_zero_bits(hash, bits) == (hash.len() > 0 && hash[0] < 1),
        bits <= 0 ==> leading_zero_bits(hash, bits),
        bits >= 0 ==> leading_zero_bits(seq![0u8] + hash, bits + 8) == leading_zero_bits(hash, bits),
        bits > 8 && hash.len() > 0 && hash[0] > 0 ==> !leading_zero_bits(hash, bits),
{
    lemma2_to64();
    if bits >= 0 {
        let longer = seq![0u8] + hash;
        let full = bits / 8;
        assert((bits + 8) / 8 == full + 1 && (bits + 8) % 8 == bits % 8);
        assert(forall|i: int| 0 <= i < hash.len() ==> #[trigger] longer[i + 1] == hash[i]);
        if leading_zero_bits(hash, bits) {
            assert forall|i: int| 0 <= i < full + 1 implies #[trigger] longer[i] == 0 by {
                if i > 0 {
                    assert(longer[i] == hash[i - 1]);
                }
            }
        }
        if leading_zero_bits(longer, bits + 8) {
            assert forall|i: int| 0 <= i < full implies #[trigger] hash[i] == 0 by {
                assert(longer[i + 1] == 0);
            }
        }
    }
    if bits == 8 {
        assert(hash.len() > 0 ==> (hash[0] == 0) == (hash[0] < 1));
    }
}

/// The algorithms are named in any case, with or without dashes and white space.
pub proof fn algorithms_are_named_loosely(a: Seq<char>, b: Seq<char>, c: char)
    ensures
        c == '-' || is_ws(c) ==> algorithm_key(a + seq![c] + b) == algorithm_key(a + b),
        !(c == '-' || is_ws(c)) ==> algorithm_key(a.push(c)) == algorithm_key(a).push(
            ascii_upper(c),
        ),
        algorithm_key(a) == "SHA256"@ || algorithm_key(a) == "SHA_256"@ ==> algorithm_of(a) == Some(
            PowAlgorithm::Sha256,
        ),
        algorithm_key(a) == "SHA512"@ || algorithm_key(a) == "SHA_512"@ ==> algorithm_of(a) == Some(
            PowAlgorithm::Sha512,
        ),
        algorithm_key(a) != "SHA256"@ && algorithm_key(a) != "SHA_256"@ && algorithm_key(a)
            != "SHA512"@ && algorithm_key(a) != "SHA_512"@ ==> algorithm_of(a) is None,
    decreases b.len(),
{
    reveal_strlit("SHA256");
    reveal_strlit("SHA_256");
    reveal_strlit("SHA512");
    reveal_strlit("SHA_512");
    assert("SHA256"@.len() == 6 && "SHA256"@[3] == '2');
    assert("SHA512"@.len() == 6 && "SHA512"@[3] == '5');
    assert("SHA_256"@.len() == 7 && "SHA_256"@[4] == '2');
    assert("SHA_512"@.len() == 7 && "SHA_512"@[4] == '5');
    assert(a.push(c).drop_last() =~= a);
    if b.len() == 0 {
        assert(a + seq![c] + b =~= a.push(c));
        assert(a + b =~= a);
    } else {
        algorithms_are_named_loosely(a, b.drop_last(), c);
        assert((a + seq![c] + b).drop_last() =~= a + seq![c] + b.drop_last());
        assert((a + b).drop_last() =~= a + b.drop_last());
        assert((a + b).last() == b.last() && (a + seq![c] + b).last() == b.last());
    }
}

/// The nonces are tried one after the other and go round at the end.
pub proof fn nonces_follow_one_another(start: u64, k: int)
    requires
        0 <= k,
    ensures
        nonce_at(start, 0) == start,
        nonce_at(start, k + 1) == if nonce_at(start, k) == u64::MAX {
            0
        } else {
            nonce_at(start, k) + 1
        },
{
}

/// A search finds the first number that solves the task, counted from its start, and nothing where
/// none of the numbers that it may try does.
pub proof fn searches_find_the_first(
    algorithm: PowAlgorithm,
    challenge: Seq<u8>,
    bits: int,
    start: u64,
    limit: int,
    found: Option<Seq<u8>>,
    j: int,
)
    requires
        search_ends(algorithm, challenge, bits, start, limit, found),
        0 <= j < limit,
        solves(algorithm, challenge, bits, bytes64(nonce_at(start, j))),
    ensures
        found is Some,
        found matches Some(n) ==> solves(algorithm, challenge, bits, n) && exists|k: int|
            0 <= k <= j && n == bytes64(#[trigger] nonce_at(start, k)),
        algorithm == PowAlgorithm::Sha256 ==> (found matches Some(n) ==> leading_zero_bits(
            sha256(challenge + n),
            bits,
        )),
        algorithm == PowAlgorithm::Sha512 ==> (found matches Some(n) ==> leading_zero_bits(
            sha512(challenge + n),
            bits,
        )),
{
    reveal(search_ends);
}

} // verus!
