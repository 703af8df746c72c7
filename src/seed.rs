//! The identifier-to-seed transform.
//!
//! Identifiers of at most [`SEED_LEN`] bytes are copied into the seed and
//! padded with zeros. Longer identifiers are folded: byte `j` is XORed into
//! seed position `j % SEED_LEN`. The fold is lossy by design and gives no
//! collision resistance.

use vstd::prelude::*;
use vstd::string::StringSliceAdditionalSpecFns;

verus! {

/// Width of a derived seed in bytes.
pub const SEED_LEN: usize = 24;

/// XOR of the bytes among the first `n` of `s` whose position is `i` modulo
/// [`SEED_LEN`].
pub open spec fn fold_column(s: Seq<u8>, i: int, n: nat) -> u8
    decreases n,
{
    if n == 0 {
        0u8
    } else {
        let prev = fold_column(s, i, (n - 1) as nat);
        if (n - 1) % (SEED_LEN as int) == i {
            prev ^ s[n - 1]
        } else {
            prev
        }
    }
}

/// The seed of an identifier: zero-padded copy when it fits, positional XOR
/// fold otherwise.
pub open spec fn seed_of(s: Seq<u8>) -> Seq<u8> {
    if s.len() <= SEED_LEN {
        Seq::new(SEED_LEN as nat, |k: int| if k < s.len() { s[k] } else { 0u8 })
    } else {
        Seq::new(SEED_LEN as nat, |k: int| fold_column(s, k, s.len()))
    }
}

/// `a` with the bytes at positions `p` and `p + SEED_LEN` both XORed with `d`.
pub open spec fn flip_pair(a: Seq<u8>, p: int, d: u8) -> Seq<u8> {
    a.update(p, a[p] ^ d).update(p + SEED_LEN, a[p + SEED_LEN] ^ d)
}

proof fn lemma_xor_facts(x: u8, y: u8, d: u8)
    by (bit_vector)
    ensures
        (x ^ d) ^ y == (x ^ y) ^ d,
        x ^ (y ^ d) == (x ^ y) ^ d,
        (x ^ d) ^ (y ^ d) == x ^ y,
        d != 0 ==> x ^ d != x,
{
}

proof fn lemma_fold_column_flip(a: Seq<u8>, p: int, d: u8, i: int, n: nat)
    requires
        0 <= p,
        p + SEED_LEN < a.len(),
        n <= a.len(),
        0 <= i < SEED_LEN,
    ensures
        fold_column(flip_pair(a, p, d), i, n) == if i == p % (SEED_LEN as int) && p < n && n <= p
            + SEED_LEN {
            fold_column(a, i, n) ^ d
        } else {
            fold_column(a, i, n)
        },
    decreases n,
{
    if n > 0 {
        let m = n - 1;
        lemma_fold_column_flip(a, p, d, i, m as nat);
        let b = flip_pair(a, p, d);
        let pa = fold_column(a, i, m as nat);
        lemma_xor_facts(pa, a[m], d);
        if m == p {
            assert(b[m] == a[m] ^ d);
        } else if m == p + SEED_LEN {
            assert(b[m] == a[m] ^ d);
            lemma_xor_facts(pa, a[m], d);
        } else {
            assert(b[m] == a[m]);
        }
    }
}

/// Derivation is a function of the identifier's bytes alone: equal
/// identifiers give equal seeds.
pub proof fn seed_deterministic(a: Seq<u8>, b: Seq<u8>)
    requires
        a == b,
    ensures
        seed_of(a) == seed_of(b),
{
}

/// The fold admits collisions: flipping the same bits at positions `p` and
/// `p + SEED_LEN` of a long identifier gives a different identifier with
/// the same seed.
pub proof fn fold_collision(a: Seq<u8>, p: int, d: u8)
    requires
        0 <= p,
        p + SEED_LEN < a.len(),
        d != 0,
    ensures
        flip_pair(a, p, d) != a,
        flip_pair(a, p, d).len() == a.len(),
        seed_of(flip_pair(a, p, d)) == seed_of(a),
{
    let b = flip_pair(a, p, d);
    lemma_xor_facts(a[p], a[p], d);
    assert(b[p] != a[p]);
    assert forall|k: int| 0 <= k < SEED_LEN implies fold_column(b, k, b.len()) == fold_column(
        a,
        k,
        a.len(),
    ) by {
        lemma_fold_column_flip(a, p, d, k, a.len());
    }
    assert(seed_of(b) =~= seed_of(a));
}

/// Derives the fixed-width seed of an identifier given as bytes.
pub fn derive_seed(identifier: &[u8]) -> (r: [u8; 24])
    ensures
        r@ == seed_of(identifier@),
        identifier@.len() <= SEED_LEN ==> r@.subrange(0, identifier@.len() as int)
            == identifier@,
        identifier@.len() <= SEED_LEN ==> forall|k: int|
            identifier@.len() <= k < SEED_LEN ==> r@[k] == 0,
        identifier@.len() > SEED_LEN ==> forall|k: int|
            0 <= k < SEED_LEN ==> r@[k] == fold_column(identifier@, k, identifier@.len()),
{
    let mut result = [0u8; 24];
    let n = identifier.len();
    if n > SEED_LEN {
        let mut j: usize = 0;
        while j < n
            invariant
                n == identifier@.len(),
                j <= n,
                forall|k: int| 0 <= k < SEED_LEN ==> result@[k] == fold_column(identifier@, k, j as nat),
            decreases n - j,
        {
            let k = j % SEED_LEN;
            let b = identifier[j];
            result[k] = result[k] ^ b;
            j = j + 1;
            assert forall|m: int| 0 <= m < SEED_LEN implies result@[m] == fold_column(
                identifier@,
                m,
                j as nat,
            ) by {
                assert(fold_column(identifier@, m, j as nat) == if (j - 1) % (SEED_LEN as int) == m {
                    fold_column(identifier@, m, (j - 1) as nat) ^ identifier@[j - 1]
                } else {
                    fold_column(identifier@, m, (j - 1) as nat)
                });
            }
        }
    } else {
        let mut j: usize = 0;
        while j < n
            invariant
                n == identifier@.len(),
                n <= SEED_LEN,
                j <= n,
                forall|k: int| 0 <= k < j ==> result@[k] == identifier@[k],
                forall|k: int| j <= k < SEED_LEN ==> result@[k] == 0,
            decreases n - j,
        {
            result[j] = identifier[j];
            j = j + 1;
        }
    }
    assert(result@ =~= seed_of(identifier@));
    assert(n <= SEED_LEN ==> result@.subrange(0, n as int) =~= identifier@);
    result
}

/// Derives the seed of a credential identifier from its UTF-8 bytes.
pub fn process_credential_id_seed(credential_id: &str) -> (r: [u8; 24])
    ensures
        r@ == seed_of(credential_id.spec_bytes()),
{
    derive_seed(credential_id.as_bytes())
}

} // verus!
