//! The Lamport one-time signature core: private keys of 256 pairs of secret
//! halves, public keys of their hash commitments, bit expansion of a hex
//! digest, signing by bit-selection, and verification against the
//! commitments.

use vstd::prelude::*;
use vstd::utf8::encode_utf8;

use crate::agreement::{concat_utf8, Agreement, AgreementModel};
use crate::hashing::{
    bytes_of_hex, hex_decode, hex_encode, hex_of, is_hex_seq, lemma_hex_of_round_trip, sha256_bytes,
    sha256_of, str_bytes,
};

verus! {

/// A one-time private key: 256 pairs of 32-character hex strings, consumed
/// once by the signer, never persisted and never printed.
pub struct PrivateKey {
    key_pairs: Vec<(String, String)>,
}

/// A Lamport public key: the pairwise hash commitments of a private key.
pub struct PublicKey {
    key_pairs: Vec<(String, String)>,
}

/// A Lamport signature: one revealed half of each private-key pair, selected
/// by the bits of the signed digest.
#[derive(Debug)]
pub struct Signature {
    signatures: Vec<String>,
}

/// The sequence of string pairs that a key holds.
pub open spec fn pairs_view(pairs: Seq<(String, String)>) -> Seq<(Seq<char>, Seq<char>)> {
    pairs.map_values(|p: (String, String)| (p.0@, p.1@))
}

/// The sequence of strings that a signature holds.
pub open spec fn strings_view(strings: Seq<String>) -> Seq<Seq<char>> {
    strings.map_values(|s: String| s@)
}

impl View for PrivateKey {
    type V = Seq<(Seq<char>, Seq<char>)>;

    closed spec fn view(&self) -> Seq<(Seq<char>, Seq<char>)> {
        pairs_view(self.key_pairs@)
    }
}

impl View for PublicKey {
    type V = Seq<(Seq<char>, Seq<char>)>;

    closed spec fn view(&self) -> Seq<(Seq<char>, Seq<char>)> {
        pairs_view(self.key_pairs@)
    }
}

impl View for Signature {
    type V = Seq<Seq<char>>;

    closed spec fn view(&self) -> Seq<Seq<char>> {
        strings_view(self.signatures@)
    }
}

impl PrivateKey {
    /// The pair of secret halves at position `i`.
    pub fn get_key(&self, i: usize) -> (r: (String, String))
        requires
            i < self@.len(),
        ensures
            r.0@ == self@[i as int].0,
            r.1@ == self@[i as int].1,
    {
        let pair = &self.key_pairs[i];
        (pair.0.clone(), pair.1.clone())
    }
}

impl PublicKey {
    /// Assemble a public key from its commitment pairs.
    pub fn from_parts(key_pairs: Vec<(String, String)>) -> (r: PublicKey)
        ensures
            r@ == pairs_view(key_pairs@),
    {
        PublicKey { key_pairs }
    }

    /// The number of commitment pairs.
    pub fn len(&self) -> (n: usize)
        ensures
            n == self@.len(),
    {
        self.key_pairs.len()
    }

    /// The pair of hash commitments at position `i`.
    pub fn get_key(&self, i: usize) -> (r: (String, String))
        requires
            i < self@.len(),
        ensures
            r.0@ == self@[i as int].0,
            r.1@ == self@[i as int].1,
    {
        let pair = &self.key_pairs[i];
        (pair.0.clone(), pair.1.clone())
    }
}

impl Signature {
    /// Assemble a signature from its revealed halves.
    pub fn from_parts(signatures: Vec<String>) -> (r: Signature)
        ensures
            r@ == strings_view(signatures@),
    {
        Signature { signatures }
    }

    /// The number of revealed halves.
    pub fn len(&self) -> (n: usize)
        ensures
            n == self@.len(),
    {
        self.signatures.len()
    }

    /// The revealed half at position `i`.
    pub fn get_key(&self, i: usize) -> (r: String)
        requires
            i < self@.len(),
        ensures
            r@ == self@[i as int],
    {
        self.signatures[i].clone()
    }
}

impl Clone for PublicKey {
    fn clone(&self) -> (r: Self)
        ensures
            r@ == self@,
    {
        PublicKey { key_pairs: clone_pairs(&self.key_pairs) }
    }
}

impl Clone for Signature {
    fn clone(&self) -> (r: Self)
        ensures
            r@ == self@,
    {
        let mut out: Vec<String> = Vec::new();
        for i in 0..self.signatures.len()
            invariant
                out@.len() == i,
                forall|j: int| 0 <= j < i ==> out@[j]@ == self.signatures@[j]@,
        {
            out.push(self.signatures[i].clone());
        }
        let r = Signature { signatures: out };
        proof {
            assert(r@ =~= self@);
        }
        r
    }
}

/// Copies a vector of string pairs, preserving its contents.
fn clone_pairs(pairs: &Vec<(String, String)>) -> (r: Vec<(String, String)>)
    ensures
        pairs_view(r@) == pairs_view(pairs@),
{
    let mut out: Vec<(String, String)> = Vec::new();
    for i in 0..pairs.len()
        invariant
            out@.len() == i,
            forall|j: int| 0 <= j < i ==> out@[j].0@ == pairs@[j].0@ && out@[j].1@ == pairs@[j].1@,
    {
        let pair = &pairs[i];
        out.push((pair.0.clone(), pair.1.clone()));
    }
    proof {
        assert(pairs_view(out@) =~= pairs_view(pairs@));
    }
    out
}

/// The canonical string form of the SHA-256 digest of a string's UTF-8 bytes:
/// its lowercase hex rendering.
pub open spec fn hash_spec(s: Seq<char>) -> Seq<char> {
    hex_of(sha256_of(encode_utf8(s)))
}

/// Hash a string slice: SHA-256 of its UTF-8 bytes, rendered as 64 lowercase
/// hex characters.
pub fn hash(s: &str) -> (r: String)
    ensures
        r@ == hash_spec(s@),
        r@.len() == 64,
        is_hex_seq(r@),
{
    let bytes = str_bytes(s);
    let digest = sha256_bytes(&bytes);
    let out = hex_encode(&digest);
    proof {
        lemma_hex_of_round_trip(digest@);
    }
    out
}

/// The hash commitments of a private key: each half replaced by its hash.
pub open spec fn to_public_spec(key: Seq<(Seq<char>, Seq<char>)>) -> Seq<(Seq<char>, Seq<char>)> {
    Seq::new(key.len(), |i: int| (hash_spec(key[i].0), hash_spec(key[i].1)))
}

/// Create a public key from a private key by hashing each half of every pair.
pub fn create_public_key(private_key: &PrivateKey) -> (r: PublicKey)
    ensures
        r@ == to_public_spec(private_key@),
        r@.len() == private_key@.len(),
        forall|i: int| 0 <= i < r@.len() ==> (#[trigger] r@[i]).0.len() == 64 && r@[i].1.len()
            == 64,
{
    let mut out: Vec<(String, String)> = Vec::new();
    let n = private_key.key_pairs.len();
    for i in 0..n
        invariant
            n == private_key@.len(),
            out@.len() == i,
            pairs_view(out@) =~= to_public_spec(private_key@).take(i as int),
            forall|j: int| 0 <= j < i ==> (#[trigger] out@[j]).0@.len() == 64 && out@[j].1@.len()
                == 64,
    {
        let (first_key, second_key) = private_key.get_key(i);
        let pair = (hash(first_key.as_str()), hash(second_key.as_str()));
        out.push(pair);
        proof {
            assert(pairs_view(out@) =~= to_public_spec(private_key@).take(i + 1));
        }
    }
    let r = PublicKey { key_pairs: out };
    proof {
        assert(to_public_spec(private_key@).take(private_key@.len() as int) =~= to_public_spec(
            private_key@,
        ));
    }
    r
}

/// Byte `k` (most significant first) of the big-endian 8-byte encoding of a
/// 64-bit integer.
pub open spec fn be_byte(i: u64, k: int) -> u8 {
    ((i >> (((7 - k) * 8) as u64)) & 0xff) as u8
}

/// The big-endian 8-byte encoding of a 64-bit integer.
pub open spec fn be_bytes8(i: u64) -> Seq<u8> {
    Seq::new(8, |k: int| be_byte(i, k))
}

/// Appends the big-endian 8-byte encoding of `i` to `buf`.
#[verifier::loop_isolation(false)]
fn push_be8(buf: &mut Vec<u8>, i: u64)
    ensures
        final(buf)@ == old(buf)@ + be_bytes8(i),
{
    for k in 0..8usize
        invariant
            buf@ =~= old(buf)@ + be_bytes8(i).take(k as int),
    {
        let sh: u64 = ((7 - k) as u64) * 8;
        assert((i >> sh) & 0xff < 256) by (bit_vector);
        let b: u8 = ((i >> sh) & 0xff) as u8;
        buf.push(b);
        proof {
            assert(sh == ((7 - k as int) * 8) as u64);
            assert(b == be_byte(i, k as int));
            assert(buf@ =~= old(buf)@ + be_bytes8(i).take(k + 1));
        }
    }
    proof {
        assert(be_bytes8(i).take(8) =~= be_bytes8(i));
    }
}

/// The bytes fed to the hash for pair `i` of a derivation: the hex digest of
/// the signer's identity, the nonce, both parties' identities, the date, the
/// terms in order, and the big-endian 8-byte encoding of `i`, all as UTF-8.
pub open spec fn derive_seed(
    principal: Seq<char>,
    ag: AgreementModel,
    nonce: Seq<char>,
    i: u64,
) -> Seq<u8> {
    encode_utf8(hash_spec(principal)) + encode_utf8(nonce) + encode_utf8(ag.by_user.identity)
        + encode_utf8(ag.with_user.identity) + encode_utf8(ag.date) + concat_utf8(ag.terms)
        + be_bytes8(i)
}

/// Pair `i` of a derived private key: the two hex-rendered halves of the
/// SHA-256 digest of the seed for `i`.
pub open spec fn derive_pair(
    principal: Seq<char>,
    ag: AgreementModel,
    nonce: Seq<char>,
    i: u64,
) -> (Seq<char>, Seq<char>) {
    let d = sha256_of(derive_seed(principal, ag, nonce, i));
    (hex_of(d.take(16)), hex_of(d.skip(16)))
}

/// The full derived private key: 256 pairs, one per index.
pub open spec fn derive_spec(principal: Seq<char>, ag: AgreementModel, nonce: Seq<char>) -> Seq<
    (Seq<char>, Seq<char>),
> {
    Seq::new(256, |k: int| derive_pair(principal, ag, nonce, k as u64))
}

/// Derive the one-time private key that binds the signer `principal` to the
/// agreement's immutable fields and the caller-supplied nonce. Deterministic:
/// the same inputs always rebuild the same key.
#[verifier::loop_isolation(false)]
pub fn random_private_key(principal: String, agreement: Agreement, nounce: String) -> (r:
    PrivateKey)
    ensures
        r@ == derive_spec(principal@, agreement@, nounce@),
        r@.len() == 256,
        forall|i: int| 0 <= i < 256 ==> (#[trigger] r@[i]).0.len() == 32 && r@[i].1.len() == 32,
{
    let hashed_principal = hash(principal.as_str());
    let mut key_pairs: Vec<(String, String)> = Vec::new();
    for i in 0..256usize
        invariant
            key_pairs@.len() == i,
            pairs_view(key_pairs@) =~= derive_spec(principal@, agreement@, nounce@).take(i as int),
            forall|j: int|
                0 <= j < i ==> (#[trigger] key_pairs@[j]).0@.len() == 32 && key_pairs@[j].1@.len()
                    == 32,
    {
        let mut msg: Vec<u8> = Vec::new();
        let mut piece = str_bytes(hashed_principal.as_str());
        msg.append(&mut piece);
        let mut piece = str_bytes(nounce.as_str());
        msg.append(&mut piece);
        let mut piece = str_bytes(agreement.by_user.identity.as_str());
        msg.append(&mut piece);
        let mut piece = str_bytes(agreement.with_user.identity.as_str());
        msg.append(&mut piece);
        let mut piece = str_bytes(agreement.date.as_str());
        msg.append(&mut piece);
        let ghost prefix = msg@;
        for t in 0..agreement.terms.len()
            invariant
                msg@ == prefix + concat_utf8(strings_view(agreement.terms@).take(t as int)),
        {
            let mut piece = str_bytes(agreement.terms[t].as_str());
            msg.append(&mut piece);
            proof {
                let terms = strings_view(agreement.terms@);
                assert(terms.take(t + 1).drop_last() =~= terms.take(t as int));
                assert(terms.take(t + 1).last() == agreement.terms@[t as int]@);
                assert(msg@ =~= prefix + concat_utf8(terms.take(t + 1)));
            }
        }
        proof {
            let terms = strings_view(agreement.terms@);
            assert(terms.take(terms.len() as int) =~= terms);
        }
        push_be8(&mut msg, i as u64);
        proof {
            assert(msg@ =~= derive_seed(principal@, agreement@, nounce@, i as u64));
        }
        let digest = sha256_bytes(&msg);
        let mut first: Vec<u8> = Vec::new();
        for j in 0..16usize
            invariant
                digest@.len() == 32,
                first@ =~= digest@.take(j as int),
        {
            first.push(digest[j]);
        }
        let mut second: Vec<u8> = Vec::new();
        for j in 16..32usize
            invariant
                digest@.len() == 32,
                second@ =~= digest@.subrange(16, j as int),
        {
            second.push(digest[j]);
        }
        let pair = (hex_encode(&first), hex_encode(&second));
        proof {
            assert(first@ =~= digest@.take(16));
            assert(second@ =~= digest@.skip(16));
            assert((pair.0@, pair.1@) == derive_pair(principal@, agreement@, nounce@, i as u64));
        }
        key_pairs.push(pair);
        proof {
            assert(pairs_view(key_pairs@) =~= derive_spec(principal@, agreement@, nounce@).take(
                i + 1,
            ));
        }
    }
    proof {
        assert(derive_spec(principal@, agreement@, nounce@).take(256) =~= derive_spec(
            principal@,
            agreement@,
            nounce@,
        ));
    }
    PrivateKey { key_pairs }
}

/// Bit `k` (counting from the least significant) of a byte.
pub open spec fn bit_of(byte: u8, k: u8) -> u8 {
    (byte >> k) & 1
}

/// The bits of a byte string, each byte most-significant-first.
pub open spec fn bits_of_bytes(b: Seq<u8>) -> Seq<u8> {
    Seq::new(b.len() * 8, |i: int| bit_of(b[i / 8], (7 - i % 8) as u8))
}

/// The 256-bit expansion of a digest given as a hex string; empty when the
/// string is not an even-length sequence of hex digits.
pub open spec fn digest_bits(s: Seq<char>) -> Seq<u8> {
    if s.len() % 2 == 0 && is_hex_seq(s) {
        bits_of_bytes(bytes_of_hex(s))
    } else {
        Seq::empty()
    }
}

/// Expand a hex-encoded digest into its bit sequence, most significant bit of
/// each byte first; a string that does not decode yields the empty sequence.
pub fn hash_to_binary_array(hash_string: String) -> (r: Vec<u8>)
    ensures
        r@ == digest_bits(hash_string@),
{
    let mut bits: Vec<u8> = Vec::new();
    match hex_decode(hash_string.as_str()) {
        Some(bytes) => {
            let n = bytes.len();
            for j in 0..n
                invariant
                    n == bytes@.len(),
                    bytes@ == bytes_of_hex(hash_string@),
                    hash_string@.len() % 2 == 0 && is_hex_seq(hash_string@),
                    bits@ =~= bits_of_bytes(bytes@).take(8 * j),
            {
                let byte = bytes[j];
                for t in 0..8usize
                    invariant
                        n == bytes@.len(),
                        j < n,
                        byte == bytes@[j as int],
                        bytes@ == bytes_of_hex(hash_string@),
                        hash_string@.len() % 2 == 0 && is_hex_seq(hash_string@),
                        bits@ =~= bits_of_bytes(bytes@).take(8 * j + t),
                {
                    let sh: u8 = (7 - t) as u8;
                    let bit: u8 = (byte >> sh) & 1;
                    bits.push(bit);
                    proof {
                        let i: int = 8 * (j as int) + t;
                        assert(i / 8 == j && i % 8 == t);
                        assert(bits_of_bytes(bytes@)[i] == bit_of(byte, sh));
                        assert(bits@ =~= bits_of_bytes(bytes@).take(8 * j + t + 1));
                    }
                }
            }
            proof {
                assert(bits_of_bytes(bytes@).take(8 * n) =~= bits_of_bytes(bytes@));
            }
        },
        None => {
        },
    }
    bits
}

/// The signature over a digest: for each bit, the first half of the matching
/// pair when the bit is 0, the second half when it is 1.
pub open spec fn sign_spec(mh: Seq<char>, key: Seq<(Seq<char>, Seq<char>)>) -> Seq<Seq<char>> {
    Seq::new(
        digest_bits(mh).len(),
        |i: int|
            if digest_bits(mh)[i] == 0 {
                key[i].0
            } else {
                key[i].1
            },
    )
}

/// Sign a hex-encoded message digest with a private key. A digest whose bit
/// expansion is shorter than the key yields a correspondingly shorter,
/// degraded signature.
pub fn sign(message_hash: String, private_key: &PrivateKey) -> (r: Signature)
    requires
        digest_bits(message_hash@).len() <= private_key@.len(),
    ensures
        r@ == sign_spec(message_hash@, private_key@),
        r@.len() == digest_bits(message_hash@).len(),
{
    let ghost mh = message_hash@;
    let bits = hash_to_binary_array(message_hash);
    let mut signature_array: Vec<String> = Vec::new();
    let n = bits.len();
    for index in 0..n
        invariant
            n == bits@.len(),
            bits@ == digest_bits(mh),
            bits@.len() <= private_key@.len(),
            signature_array@.len() == index,
            strings_view(signature_array@) =~= sign_spec(mh, private_key@).take(index as int),
    {
        let (first_key, second_key) = private_key.get_key(index);
        if bits[index] == 0 {
            signature_array.push(first_key);
        } else {
            signature_array.push(second_key);
        }
        proof {
            assert(strings_view(signature_array@) =~= sign_spec(mh, private_key@).take(
                index + 1,
            ));
        }
    }
    let r = Signature { signatures: signature_array };
    proof {
        assert(sign_spec(mh, private_key@).take(n as int) =~= sign_spec(mh, private_key@));
    }
    r
}

/// Determinism of derivation: two keys derived from the same signer,
/// agreement and nonce are equal pair for pair, and so are their public
/// keys.
pub proof fn lemma_derivation_deterministic(
    principal: Seq<char>,
    ag: AgreementModel,
    nonce: Seq<char>,
    k1: Seq<(Seq<char>, Seq<char>)>,
    k2: Seq<(Seq<char>, Seq<char>)>,
)
    requires
        k1 == derive_spec(principal, ag, nonce),
        k2 == derive_spec(principal, ag, nonce),
    ensures
        k1 == k2,
        to_public_spec(k1) == to_public_spec(k2),
{
}

/// Correctness of the scheme: a 64-character hex digest signed with a
/// 256-pair private key verifies under the matching public key.
pub proof fn lemma_sign_verify(mh: Seq<char>, key: Seq<(Seq<char>, Seq<char>)>)
    requires
        key.len() == 256,
        mh.len() == 64,
        is_hex_seq(mh),
    ensures
        verify_spec(mh, sign_spec(mh, key), to_public_spec(key)),
{
    let bits = digest_bits(mh);
    assert(bits.len() == 256);
    let sig = sign_spec(mh, key);
    let pk = to_public_spec(key);
    assert forall|i: int|
        0 <= i < 256 implies hash_spec(#[trigger] sig[i]) == (if bits[i] == 0 {
        pk[i].0
    } else {
        pk[i].1
    }) by {
        assert(sig[i] == (if bits[i] == 0 {
            key[i].0
        } else {
            key[i].1
        }));
        assert(pk[i] == (hash_spec(key[i].0), hash_spec(key[i].1)));
    }
}

/// Correctness over derived keys: any 64-character hex digest signed with
/// the key derived for (signer, agreement, nonce) verifies under the public
/// key built from that same key.
pub proof fn lemma_correctness(
    mh: Seq<char>,
    principal: Seq<char>,
    ag: AgreementModel,
    nonce: Seq<char>,
)
    requires
        mh.len() == 64,
        is_hex_seq(mh),
    ensures
        verify_spec(
            mh,
            sign_spec(mh, derive_spec(principal, ag, nonce)),
            to_public_spec(derive_spec(principal, ag, nonce)),
        ),
{
    lemma_sign_verify(mh, derive_spec(principal, ag, nonce));
}

/// A digest that is not 64 characters long never verifies, whatever the
/// signature and public key.
pub proof fn lemma_wrong_length_digest(
    mh: Seq<char>,
    sig: Seq<Seq<char>>,
    pk: Seq<(Seq<char>, Seq<char>)>,
)
    requires
        mh.len() != 64,
    ensures
        !verify_spec(mh, sig, pk),
{
    if mh.len() % 2 == 0 && is_hex_seq(mh) {
        assert(digest_bits(mh).len() == (mh.len() / 2) * 8);
    } else {
        assert(digest_bits(mh).len() == 0);
    }
}

/// A single bit extracted from a byte is zero or one.
proof fn lemma_bit_of_is_binary(byte: u8, k: u8)
    by (bit_vector)
    ensures
        (byte >> k) & 1 == 0 || (byte >> k) & 1 == 1,
{
}

/// A signature accepted under two digests whose bit expansions differ at
/// some position forces the two commitments at that position to coincide;
/// for honestly built public keys that is a collision of the hash.
pub proof fn lemma_double_acceptance_collides(
    mh1: Seq<char>,
    mh2: Seq<char>,
    sig: Seq<Seq<char>>,
    pk: Seq<(Seq<char>, Seq<char>)>,
    i: int,
)
    requires
        verify_spec(mh1, sig, pk),
        verify_spec(mh2, sig, pk),
        0 <= i < 256,
        digest_bits(mh1)[i] != digest_bits(mh2)[i],
    ensures
        pk[i].0 == pk[i].1,
{
    let k = (7 - i % 8) as u8;
    assert(digest_bits(mh1)[i] == bit_of(bytes_of_hex(mh1)[i / 8], k));
    assert(digest_bits(mh2)[i] == bit_of(bytes_of_hex(mh2)[i / 8], k));
    lemma_bit_of_is_binary(bytes_of_hex(mh1)[i / 8], k);
    lemma_bit_of_is_binary(bytes_of_hex(mh2)[i / 8], k);
    assert(hash_spec(sig[i]) == (if digest_bits(mh1)[i] == 0 {
        pk[i].0
    } else {
        pk[i].1
    }));
    assert(hash_spec(sig[i]) == (if digest_bits(mh2)[i] == 0 {
        pk[i].0
    } else {
        pk[i].1
    }));
}

proof fn lemma_xor_bit(y: u8, m: u8, k: u8)
    by (bit_vector)
    requires
        m < 8,
        k < 8,
    ensures
        ((((y ^ (1u8 << m)) >> k) & 1 == (y >> k) & 1) <==> (k != m)),
{
}

/// Bit-flip sensitivity of the expansion: flipping bit `m` (counting from
/// the least significant) of byte `j` changes the bit sequence at exactly
/// position `8 * j + (7 - m)` and nowhere else.
pub proof fn lemma_bit_flip(b1: Seq<u8>, b2: Seq<u8>, j: int, m: u8)
    requires
        b1.len() == b2.len(),
        0 <= j < b1.len(),
        m < 8,
        b2[j] == b1[j] ^ (1u8 << m),
        forall|x: int| 0 <= x < b1.len() && x != j ==> b1[x] == b2[x],
    ensures
        bits_of_bytes(b1).len() == bits_of_bytes(b2).len(),
        forall|i: int|
            0 <= i < bits_of_bytes(b1).len() ==> ((#[trigger] bits_of_bytes(b1)[i])
                != bits_of_bytes(b2)[i] <==> i == 8 * j + (7 - m as int)),
{
    assert forall|i: int|
        0 <= i < bits_of_bytes(b1).len() implies ((#[trigger] bits_of_bytes(b1)[i])
        != bits_of_bytes(b2)[i] <==> i == 8 * j + (7 - m as int)) by {
        let x = i / 8;
        let k = (7 - i % 8) as u8;
        assert(bits_of_bytes(b1)[i] == bit_of(b1[x], k));
        assert(bits_of_bytes(b2)[i] == bit_of(b2[x], k));
        if x == j {
            lemma_xor_bit(b1[j], m, k);
            assert(bit_of(b1[x], k) != bit_of(b2[x], k) <==> k == m);
            assert(i == 8 * j + (7 - m as int) <==> k == m);
        } else {
            assert(b1[x] == b2[x]);
        }
    }
}

/// A digest, signature and public key that verify: all three expand to
/// exactly 256 positions, and at every position the hash of the revealed
/// half equals the bit-selected commitment.
pub open spec fn verify_spec(
    mh: Seq<char>,
    sig: Seq<Seq<char>>,
    pk: Seq<(Seq<char>, Seq<char>)>,
) -> bool {
    &&& digest_bits(mh).len() == 256
    &&& sig.len() == 256
    &&& pk.len() == 256
    &&& forall|i: int|
        0 <= i < 256 ==> hash_spec(#[trigger] sig[i]) == (if digest_bits(mh)[i] == 0 {
            pk[i].0
        } else {
            pk[i].1
        })
}

/// Verify a hex-encoded message digest against a signature and a public key:
/// true exactly when every bit position's revealed half hashes to the
/// bit-selected commitment, and all lengths are 256.
#[verifier::loop_isolation(false)]
pub fn verify(message_hash: String, signature: &Signature, public_key: &PublicKey) -> (r: bool)
    ensures
        r == verify_spec(message_hash@, signature@, public_key@),
{
    let ghost mh = message_hash@;
    let bits = hash_to_binary_array(message_hash);
    if bits.len() != 256 {
        return false;
    }
    if signature.signatures.len() != 256 {
        return false;
    }
    if public_key.key_pairs.len() != 256 {
        return false;
    }
    for index in 0..256usize
        invariant
            bits@ == digest_bits(mh),
            bits@.len() == 256,
            signature@.len() == 256,
            public_key@.len() == 256,
            forall|i: int|
                0 <= i < index ==> hash_spec(#[trigger] signature@[i]) == (if digest_bits(
                    mh,
                )[i] == 0 {
                    public_key@[i].0
                } else {
                    public_key@[i].1
                }),
    {
        let sig = signature.get_key(index);
        let private_key_hash = hash(sig.as_str());
        let (first_pub_key_hash, second_pub_key_hash) = public_key.get_key(index);
        if bits[index] == 0 {
            if private_key_hash != first_pub_key_hash {
                proof {
                    assert(hash_spec(signature@[index as int]) != public_key@[index as int].0);
                }
                return false;
            }
        } else if private_key_hash != second_pub_key_hash {
            proof {
                assert(hash_spec(signature@[index as int]) != public_key@[index as int].1);
            }
            return false;
        }
    }
    true
}

} // verus!
