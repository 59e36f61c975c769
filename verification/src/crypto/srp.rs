//! The client side of SRP-6a (3072-bit group, SHA-512), as the pair-setup exchange uses it.
//! Big numbers travel as big-endian bytes; the arithmetic on them is num-bigint's.
use crate::base::error::CryptoError;
use crate::bytes::{from_be, put_all};
use sha2::Digest;
use subtle::ConstantTimeEq;
use vstd::arithmetic::power::pow;
use vstd::prelude::*;

verus! {

/// Bytes of a big number.
pub const N_BYTES: usize = 384;

/// The RFC 5054 3072-bit prime, big-endian.
pub const RFC5054_N_3072: [u8; 384] = [
    0xFF, 0xFF, 0xFF, 0xFF, 0xFF, 0xFF, 0xFF, 0xFF, 0xC9, 0x0F, 0xDA, 0xA2, 0x21, 0x68, 0xC2, 0x34,
    0xC4, 0xC6, 0x62, 0x8B, 0x80, 0xDC, 0x1C, 0xD1, 0x29, 0x02, 0x4E, 0x08, 0x8A, 0x67, 0xCC, 0x74,
    0x02, 0x0B, 0xBE, 0xA6, 0x3B, 0x13, 0x9B, 0x22, 0x51, 0x4A, 0x08, 0x79, 0x8E, 0x34, 0x04, 0xDD,
    0xEF, 0x95, 0x19, 0xB3, 0xCD, 0x3A, 0x43, 0x1B, 0x30, 0x2B, 0x0A, 0x6D, 0xF2, 0x5F, 0x14, 0x37,
    0x4F, 0xE1, 0x35, 0x6D, 0x6D, 0x51, 0xC2, 0x45, 0xE4, 0x85, 0xB5, 0x76, 0x62, 0x5E, 0x7E, 0xC6,
    0xF4, 0x4C, 0x42, 0xE9, 0xA6, 0x37, 0xED, 0x6B, 0x0B, 0xFF, 0x5C, 0xB6, 0xF4, 0x06, 0xB7, 0xED,
    0xEE, 0x38, 0x6B, 0xFB, 0x5A, 0x89, 0x9F, 0xA5, 0xAE, 0x9F, 0x24, 0x11, 0x7C, 0x4B, 0x1F, 0xE6,
    0x49, 0x28, 0x66, 0x51, 0xEC, 0xE4, 0x5B, 0x3D, 0xC2, 0x00, 0x7C, 0xB8, 0xA1, 0x63, 0xBF, 0x05,
    0x98, 0xDA, 0x48, 0x36, 0x1C, 0x55, 0xD3, 0x9A, 0x69, 0x16, 0x3F, 0xA8, 0xFD, 0x24, 0xCF, 0x5F,
    0x83, 0x65, 0x5D, 0x23, 0xDC, 0xA3, 0xAD, 0x96, 0x1C, 0x62, 0xF3, 0x56, 0x20, 0x85, 0x52, 0xBB,
    0x9E, 0xD5, 0x29, 0x07, 0x70, 0x96, 0x96, 0x6D, 0x67, 0x0C, 0x35, 0x4E, 0x4A, 0xBC, 0x98, 0x04,
    0xF1, 0x74, 0x6C, 0x08, 0xCA, 0x18, 0x21, 0x7C, 0x32, 0x90, 0x5E, 0x46, 0x2E, 0x36, 0xCE, 0x3B,
    0xE3, 0x9E, 0x77, 0x2C, 0x18, 0x0E, 0x86, 0x03, 0x9B, 0x27, 0x83, 0xA2, 0xEC, 0x07, 0xA2, 0x8F,
    0xB5, 0xC5, 0x5D, 0xF0, 0x6F, 0x4C, 0x52, 0xC9, 0xDE, 0x2B, 0xCB, 0xF6, 0x95, 0x58, 0x17, 0x18,
    0x39, 0x95, 0x49, 0x7C, 0xEA, 0x95, 0x6A, 0xE5, 0x15, 0xD2, 0x26, 0x18, 0x98, 0xFA, 0x05, 0x10,
    0x15, 0x72, 0x8E, 0x5A, 0x8A, 0xAA, 0xC4, 0x2D, 0xAD, 0x33, 0x17, 0x0D, 0x04, 0x50, 0x7A, 0x33,
    0xA8, 0x55, 0x21, 0xAB, 0xDF, 0x1C, 0xBA, 0x64, 0xEC, 0xFB, 0x85, 0x04, 0x58, 0xDB, 0xEF, 0x0A,
    0x8A, 0xEA, 0x71, 0x57, 0x5D, 0x06, 0x0C, 0x7D, 0xB3, 0x97, 0x0F, 0x85, 0xA6, 0xE1, 0xE4, 0xC7,
    0xAB, 0xF5, 0xAE, 0x8C, 0xDB, 0x09, 0x33, 0xD7, 0x1E, 0x8C, 0x94, 0xE0, 0x4A, 0x25, 0x61, 0x9D,
    0xCE, 0xE3, 0xD2, 0x26, 0x1A, 0xD2, 0xEE, 0x6B, 0xF1, 0x2F, 0xFA, 0x06, 0xD9, 0x8A, 0x08, 0x64,
    0xD8, 0x76, 0x02, 0x73, 0x3E, 0xC8, 0x6A, 0x64, 0x52, 0x1F, 0x2B, 0x18, 0x17, 0x7B, 0x20, 0x0C,
    0xBB, 0xE1, 0x17, 0x57, 0x7A, 0x61, 0x5D, 0x6C, 0x77, 0x09, 0x88, 0xC0, 0xBA, 0xD9, 0x46, 0xE2,
    0x08, 0xE2, 0x4F, 0xA0, 0x74, 0xE5, 0xAB, 0x31, 0x43, 0xDB, 0x5B, 0xFC, 0xE0, 0xFD, 0x10, 0x8E,
    0x4B, 0x82, 0xD1, 0x20, 0xA9, 0x3A, 0xD2, 0xCA, 0xFF, 0xFF, 0xFF, 0xFF, 0xFF, 0xFF, 0xFF, 0xFF,
];

/// The group generator.
pub const SRP_G: u8 = 5;

/// The shortest big-endian form of `x` (one zero byte for zero), as
/// `BigUint::to_bytes_be` gives it.
pub open spec fn be_min(x: nat) -> Seq<u8>
    decreases x,
{
    if x < 256 {
        seq![x as u8]
    } else {
        be_min(x / 256).push((x % 256) as u8)
    }
}

/// `s` as exactly 384 bytes: its last 384 bytes, or zeros in front.
pub open spec fn pad384(s: Seq<u8>) -> Seq<u8> {
    if s.len() >= 384 {
        s.skip(s.len() - 384)
    } else {
        Seq::new((384 - s.len()) as nat, |_i: int| 0u8) + s
    }
}

pub open spec fn n_val() -> nat {
    from_be(RFC5054_N_3072@)
}

/// What SHA-512 gives for `data`.
pub uninterp spec fn sha512_of(data: Seq<u8>) -> Seq<u8>;

/// `Sha512::digest(data)`. Claims: the digest is the named hash of the data.
#[verifier::external_body]
fn sha512(data: &[u8]) -> (r: [u8; 64])
    ensures
        r@ == sha512_of(data@),
{
    sha2::Sha512::digest(data).into()
}

/// `BigUint::from_bytes_be(a).to_bytes_be()`. Claims: the shortest form of the value.
#[verifier::external_body]
fn big_norm(a: &[u8]) -> (r: Vec<u8>)
    ensures
        r@ == be_min(from_be(a@)),
{
    num_bigint::BigUint::from_bytes_be(a).to_bytes_be()
}

/// `BigUint::modpow`. Claims: `(base ^ exp) % m`, in shortest form; `m` must not be zero
/// (the crate panics on a zero modulus).
#[verifier::external_body]
fn big_modpow(base: &[u8], exp: &[u8], m: &[u8]) -> (r: Vec<u8>)
    requires
        from_be(m@) > 0,
    ensures
        r@ == be_min((pow(from_be(base@) as int, from_be(exp@)) % (from_be(m@) as int)) as nat),
{
    num_bigint::BigUint::from_bytes_be(base).modpow(
        &num_bigint::BigUint::from_bytes_be(exp),
        &num_bigint::BigUint::from_bytes_be(m),
    ).to_bytes_be()
}

/// `BigUint` multiplication. Claims: the product, in shortest form.
#[verifier::external_body]
fn big_mul(a: &[u8], b: &[u8]) -> (r: Vec<u8>)
    ensures
        r@ == be_min(from_be(a@) * from_be(b@)),
{
    (num_bigint::BigUint::from_bytes_be(a) * num_bigint::BigUint::from_bytes_be(b)).to_bytes_be()
}

/// `BigUint` addition. Claims: the sum, in shortest form.
#[verifier::external_body]
fn big_add(a: &[u8], b: &[u8]) -> (r: Vec<u8>)
    ensures
        r@ == be_min(from_be(a@) + from_be(b@)),
{
    (num_bigint::BigUint::from_bytes_be(a) + num_bigint::BigUint::from_bytes_be(b)).to_bytes_be()
}

/// `BigUint` subtraction. Claims: the difference, in shortest form; `a` must be at least
/// `b` (the crate panics below zero).
#[verifier::external_body]
fn big_sub(a: &[u8], b: &[u8]) -> (r: Vec<u8>)
    requires
        from_be(a@) >= from_be(b@),
    ensures
        r@ == be_min((from_be(a@) - from_be(b@)) as nat),
{
    (num_bigint::BigUint::from_bytes_be(a) - num_bigint::BigUint::from_bytes_be(b)).to_bytes_be()
}

/// `BigUint` remainder. Claims: `a % m`, in shortest form; `m` must not be zero (the
/// crate panics on division by zero).
#[verifier::external_body]
fn big_rem(a: &[u8], m: &[u8]) -> (r: Vec<u8>)
    requires
        from_be(m@) > 0,
    ensures
        r@ == be_min(from_be(a@) % from_be(m@)),
{
    (num_bigint::BigUint::from_bytes_be(a) % num_bigint::BigUint::from_bytes_be(m)).to_bytes_be()
}

/// `BigUint` comparison. Claims: whether `a < b`.
#[verifier::external_body]
fn big_lt(a: &[u8], b: &[u8]) -> (r: bool)
    ensures
        r == (from_be(a@) < from_be(b@)),
{
    num_bigint::BigUint::from_bytes_be(a) < num_bigint::BigUint::from_bytes_be(b)
}

/// `subtle::ConstantTimeEq::ct_eq` on byte slices. Claims: true exactly when both have the
/// same length and bytes.
#[verifier::external_body]
fn ct_equal(a: &[u8], b: &[u8]) -> (r: bool)
    ensures
        r == (a@ == b@),
{
    a.ct_eq(b).into()
}

/// The shortest form holds the value and is empty of leading zeros; it is one zero byte
/// exactly for zero.
pub proof fn lemma_be_min(x: nat)
    ensures
        from_be(be_min(x)) == x,
        be_min(x).len() >= 1,
        (be_min(x) == seq![0u8]) <==> x == 0,
    decreases x,
{
    if x >= 256 {
        lemma_be_min(x / 256);
        let p = be_min(x / 256);
        let q = be_min(x);
        assert(q == p.push((x % 256) as u8));
        assert(q.drop_last() =~= p);
        assert(q.last() == (x % 256) as u8);
        assert(from_be(q) == from_be(p) * 256 + (x % 256));
        assert(q.len() == p.len() + 1);
        assert(q.len() >= 2);
        assert(q != seq![0u8]);
    } else {
        let q = be_min(x);
        assert(q == seq![x as u8]);
        assert(q.drop_last() =~= Seq::<u8>::empty());
        assert(q.last() == x as u8);
        assert(from_be(q) == from_be(q.drop_last()) * 256 + (x as u8));
        if q == seq![0u8] {
            assert(q[0] == 0u8);
        }
        if x == 0 {
            assert(q =~= seq![0u8]);
        }
    }
}

/// One byte is its own value.
proof fn lemma_from_be_single(b: u8)
    ensures
        from_be(seq![b]) == b,
{
    assert(seq![b].drop_last() =~= Seq::<u8>::empty());
    assert(from_be(Seq::<u8>::empty()) == 0);
}

/// A big-endian number is at least its first byte.
proof fn lemma_from_be_first(s: Seq<u8>)
    requires
        s.len() >= 1,
    ensures
        from_be(s) >= s[0],
    decreases s.len(),
{
    if s.len() > 1 {
        lemma_from_be_first(s.drop_last());
        assert(s.drop_last()[0] == s[0]);
    } else {
        assert(s.drop_last() =~= Seq::<u8>::empty());
    }
}

proof fn lemma_n_large()
    ensures
        n_val() >= 255,
{
    lemma_from_be_first(RFC5054_N_3072@);
}

/// `x`, hashed in the SRP way: `H(salt | H(identity | ":" | password))`.
pub open spec fn srp_x(salt: Seq<u8>, identity: Seq<u8>, password: Seq<u8>) -> nat {
    from_be(sha512_of(salt + sha512_of(identity + seq![0x3Au8] + password)))
}

/// The multiplier `k = H(pad(N) | pad(g))`.
pub open spec fn srp_k() -> nat {
    from_be(sha512_of(pad384(be_min(n_val())) + pad384(be_min(5))))
}

/// The scrambler `u = H(pad(A) | pad(B))`.
pub open spec fn srp_u(a_pub: nat, b_pub: nat) -> nat {
    from_be(sha512_of(pad384(be_min(a_pub)) + pad384(be_min(b_pub))))
}

/// The premaster secret `S = (B - k g^x) ^ (a + u x) mod N`, with the subtraction taken
/// modulo `N` and the exponent reduced modulo `N - 1`.
pub open spec fn srp_s(a: nat, b_pub: nat, x: nat, u: nat) -> nat {
    let n = n_val();
    let kgx = (srp_k() * ((pow(5, x) % (n as int)) as nat)) % n;
    let base = if b_pub >= kgx {
        ((b_pub - kgx) as nat) % n
    } else {
        ((b_pub + n - kgx) as nat) % n
    };
    let e = (a + u * x) % ((n - 1) as nat);
    (pow(base as int, e) % (n as int)) as nat
}

/// Byte-wise exclusive or.
pub open spec fn xor_bytes(a: Seq<u8>, b: Seq<u8>) -> Seq<u8> {
    Seq::new(a.len(), |i: int| a[i] ^ b[i])
}

/// The client proof `M1 = H(H(N) xor H(g) | H(I) | salt | pad(A) | pad(B) | K)`.
pub open spec fn srp_m1(identity: Seq<u8>, salt: Seq<u8>, a_pub: nat, b_pub: nat, key: Seq<u8>) -> Seq<u8> {
    sha512_of(
        xor_bytes(sha512_of(pad384(be_min(n_val()))), sha512_of(be_min(5))) + sha512_of(identity) + salt
            + pad384(be_min(a_pub)) + pad384(be_min(b_pub)) + key,
    )
}

/// The proof the server owes: `H(pad(A) | M1 | K)`.
pub open spec fn srp_m2(a_pub: nat, m1: Seq<u8>, key: Seq<u8>) -> Seq<u8> {
    sha512_of(pad384(be_min(a_pub)) + m1 + key)
}

/// What answering a challenge gives: (client proof, session key, expected server proof),
/// or the error message.
pub open spec fn srp_answer(
    identity: Seq<u8>,
    password: Seq<u8>,
    a: nat,
    a_pub: nat,
    salt: Seq<u8>,
    b_bytes: Seq<u8>,
) -> Result<(Seq<u8>, Seq<u8>, Seq<u8>), Seq<char>> {
    let b_pub = from_be(b_bytes);
    if b_pub % n_val() == 0 {
        Err("Invalid server public key: B mod N = 0"@)
    } else {
        let u = srp_u(a_pub, b_pub);
        if u == 0 {
            Err("Invalid u value: u = 0"@)
        } else {
            let x = srp_x(salt, identity, password);
            let key = sha512_of(pad384(be_min(srp_s(a, b_pub, x, u))));
            let m1 = srp_m1(identity, salt, a_pub, b_pub, key);
            Ok((m1, key, srp_m2(a_pub, m1, key)))
        }
    }
}

/// The server's salt and public key.
pub struct SrpChallenge {
    pub salt: [u8; 16],
    pub server_public_key: Vec<u8>,
}

pub struct SrpProof {
    pub client_proof: Vec<u8>,
    pub shared_secret: Vec<u8>,
    pub expected_server_proof: Vec<u8>,
}

/// The client: identity, password, the private exponent `a` and `A = g^a mod N`.
pub struct SrpClient {
    identity: Vec<u8>,
    password: Vec<u8>,
    private_key: Vec<u8>,
    public_key: Vec<u8>,
}

/// `s` padded or cut to 384 bytes.
pub fn pad_to_n(s: &[u8]) -> (r: Vec<u8>)
    ensures
        r@ == pad384(s@),
{
    let mut out: Vec<u8> = Vec::new();
    if s.len() >= N_BYTES {
        let start = s.len() - N_BYTES;
        let mut i = start;
        while i < s.len()
            invariant
                start <= i <= s@.len(),
                start == s@.len() - 384,
                out@ == s@.subrange(start as int, i as int),
            decreases s@.len() - i,
        {
            out.push(s[i]);
            i += 1;
        }
        assert(out@ =~= pad384(s@));
    } else {
        let z = N_BYTES - s.len();
        let mut i: usize = 0;
        while i < z
            invariant
                i <= z,
                out@ == Seq::new(i as nat, |_j: int| 0u8),
            decreases z - i,
        {
            out.push(0);
            i += 1;
            assert(out@ =~= Seq::new(i as nat, |_j: int| 0u8));
        }
        put_all(&mut out, s);
        assert(out@ =~= pad384(s@));
    }
    out
}

/// Whether a shortest-form number is zero.
fn is_zero_min(v: &[u8], Ghost(x): Ghost<nat>) -> (r: bool)
    requires
        v@ == be_min(x),
    ensures
        r == (x == 0),
{
    proof {
        lemma_be_min(x);
    }
    let r = v.len() == 1 && v[0] == 0;
    assert(r ==> v@ =~= seq![0u8]);
    r
}

impl SrpClient {
    #[verifier::type_invariant]
    spec fn keys_match(&self) -> bool {
        &&& from_be(self.private_key@) > 0
        &&& self.private_key@ == be_min(from_be(self.private_key@))
        &&& self.public_key@ == be_min(((pow(5, from_be(self.private_key@)) % (n_val() as int)) as nat))
    }

    pub closed spec fn identity(&self) -> Seq<u8> {
        self.identity@
    }

    pub closed spec fn password(&self) -> Seq<u8> {
        self.password@
    }

    /// The private exponent `a`.
    pub closed spec fn secret(&self) -> nat {
        from_be(self.private_key@)
    }

    /// The public value `A = g^a mod N`.
    pub open spec fn public_value(&self) -> nat {
        ((pow(5, self.secret()) % (n_val() as int)) as nat)
    }

    /// A client whose private exponent is the big-endian number `random`; none for zero.
    pub fn from_private_key(identity: &[u8], password: &[u8], random: [u8; 32]) -> (r: Option<Self>)
        ensures
            from_be(random@) == 0 ==> r is None,
            from_be(random@) != 0 ==> (r matches Some(c) && c.secret() == from_be(random@)
                && c.identity() == identity@ && c.password() == password@),
    {
        let a = big_norm(&random);
        if is_zero_min(a.as_slice(), Ghost(from_be(random@))) {
            return None;
        }
        proof {
            lemma_be_min(from_be(random@));
            lemma_n_large();
        }
        let g: Vec<u8> = vec![5u8];
        assert(from_be(g@) == 5) by {
            assert(g@ =~= seq![5u8]);
            lemma_from_be_single(5);
        }
        let public_key = big_modpow(g.as_slice(), a.as_slice(), &RFC5054_N_3072);
        let mut id: Vec<u8> = Vec::new();
        put_all(&mut id, identity);
        let mut pw: Vec<u8> = Vec::new();
        put_all(&mut pw, password);
        Some(SrpClient { identity: id, password: pw, private_key: a, public_key })
    }

    /// `A`, padded to 384 bytes.
    pub fn public_key(&self) -> (r: Vec<u8>)
        ensures
            r@ == pad384(be_min(self.public_value())),
    {
        proof {
            use_type_invariant(self);
        }
        pad_to_n(self.public_key.as_slice())
    }

    /// Answers the server's challenge (see `srp_answer`).
    #[verifier::rlimit(50)]
    pub fn process_challenge(&self, challenge: &SrpChallenge) -> (r: Result<SrpProof, CryptoError>)
        ensures
            match srp_answer(
                self.identity(),
                self.password(),
                self.secret(),
                self.public_value(),
                challenge.salt@,
                challenge.server_public_key@,
            ) {
                Ok((m1, key, m2)) => r matches Ok(p) && p.client_proof@ == m1 && p.shared_secret@ == key
                    && p.expected_server_proof@ == m2,
                Err(m) => r matches Err(CryptoError::Encryption(e)) && e@ == m,
            },
            r matches Ok(p) ==> p.client_proof@.len() == 64 && p.shared_secret@.len() == 64
                && p.expected_server_proof@.len() == 64,
    {
        proof {
            use_type_invariant(self);
            lemma_n_large();
        }
        let n: &[u8] = &RFC5054_N_3072;
        let b = big_norm(challenge.server_public_key.as_slice());
        let ghost b_pub = from_be(challenge.server_public_key@);
        proof {
            lemma_be_min(b_pub);
        }
        let b_mod = big_rem(b.as_slice(), n);
        if is_zero_min(b_mod.as_slice(), Ghost(b_pub % n_val())) {
            return Err(CryptoError::Encryption("Invalid server public key: B mod N = 0".to_owned()));
        }
        let ghost a_pub = self.public_value();
        proof {
            lemma_be_min(a_pub);
        }
        let mut ab: Vec<u8> = pad_to_n(self.public_key.as_slice());
        put_all(&mut ab, pad_to_n(b.as_slice()).as_slice());
        let u_hash = sha512(ab.as_slice());
        let u = big_norm(&u_hash);
        let ghost u_val = srp_u(a_pub, b_pub);
        if is_zero_min(u.as_slice(), Ghost(u_val)) {
            return Err(CryptoError::Encryption("Invalid u value: u = 0".to_owned()));
        }
        proof {
            lemma_be_min(u_val);
        }
        let x = compute_x(&challenge.salt, self.identity.as_slice(), self.password.as_slice());
        let ghost x_val = srp_x(challenge.salt@, self.identity@, self.password@);
        proof {
            lemma_be_min(x_val);
        }
        let s = compute_s(self.private_key.as_slice(), b.as_slice(), x.as_slice(), u.as_slice());
        let shared_secret = sha512(pad_to_n(s.as_slice()).as_slice());
        let client_proof = compute_m1(self.identity.as_slice(), &challenge.salt, self.public_key.as_slice(), b.as_slice(), &shared_secret);
        let mut h: Vec<u8> = pad_to_n(self.public_key.as_slice());
        put_all(&mut h, client_proof.as_slice());
        put_all(&mut h, &shared_secret);
        let expected_server_proof = sha512(h.as_slice());
        let mut key: Vec<u8> = Vec::new();
        put_all(&mut key, &shared_secret);
        let mut m2: Vec<u8> = Vec::new();
        put_all(&mut m2, &expected_server_proof);
        Ok(SrpProof { client_proof, shared_secret: key, expected_server_proof: m2 })
    }

    /// Whether the server's proof is the expected one (compared in constant time).
    pub fn verify_server_proof(&self, proof: &[u8], expected: &[u8]) -> (r: bool)
        ensures
            r == (proof@ == expected@),
    {
        ct_equal(proof, expected)
    }
}

/// `x` in shortest form.
fn compute_x(salt: &[u8], identity: &[u8], password: &[u8]) -> (r: Vec<u8>)
    ensures
        r@ == be_min(srp_x(salt@, identity@, password@)),
{
    let mut inner: Vec<u8> = Vec::new();
    put_all(&mut inner, identity);
    inner.push(0x3A);
    put_all(&mut inner, password);
    assert(inner@ =~= identity@ + seq![0x3Au8] + password@);
    let inner_hash = sha512(inner.as_slice());
    let mut outer: Vec<u8> = Vec::new();
    put_all(&mut outer, salt);
    put_all(&mut outer, &inner_hash);
    let h = sha512(outer.as_slice());
    big_norm(&h)
}

/// `k` in shortest form.
fn compute_k() -> (r: Vec<u8>)
    ensures
        r@ == be_min(srp_k()),
{
    let n_min = big_norm(&RFC5054_N_3072);
    let g: Vec<u8> = vec![5u8];
    assert(from_be(g@) == 5) by {
        assert(g@ =~= seq![5u8]);
        lemma_from_be_single(5);
    }
    let g_min = big_norm(g.as_slice());
    let mut d: Vec<u8> = pad_to_n(n_min.as_slice());
    put_all(&mut d, pad_to_n(g_min.as_slice()).as_slice());
    let h = sha512(d.as_slice());
    big_norm(&h)
}

/// The premaster secret in shortest form.
fn compute_s(a: &[u8], b: &[u8], x: &[u8], u: &[u8]) -> (r: Vec<u8>)
    ensures
        r@ == be_min(srp_s(from_be(a@), from_be(b@), from_be(x@), from_be(u@))),
{
    proof {
        lemma_n_large();
    }
    let n: &[u8] = &RFC5054_N_3072;
    let g: Vec<u8> = vec![5u8];
    assert(from_be(g@) == 5) by {
        assert(g@ =~= seq![5u8]);
        lemma_from_be_single(5);
    }
    let k = compute_k();
    let g_x = big_modpow(g.as_slice(), x, n);
    let k_gx_wide = big_mul(k.as_slice(), g_x.as_slice());
    proof {
        lemma_be_min(srp_k());
        lemma_be_min((pow(5, from_be(x@)) % (n_val() as int)) as nat);
        lemma_be_min(srp_k() * ((pow(5, from_be(x@)) % (n_val() as int)) as nat));
    }
    let k_gx = big_rem(k_gx_wide.as_slice(), n);
    let ghost kgx = (srp_k() * ((pow(5, from_be(x@)) % (n_val() as int)) as nat)) % n_val();
    proof {
        lemma_be_min(kgx);
    }
    let base = if !big_lt(b, k_gx.as_slice()) {
        let d = big_sub(b, k_gx.as_slice());
        proof {
            lemma_be_min((from_be(b@) - kgx) as nat);
        }
        big_rem(d.as_slice(), n)
    } else {
        let bn = big_add(b, n);
        proof {
            lemma_be_min(from_be(b@) + n_val());
        }
        let d = big_sub(bn.as_slice(), k_gx.as_slice());
        proof {
            lemma_be_min((from_be(b@) + n_val() - kgx) as nat);
        }
        big_rem(d.as_slice(), n)
    };
    let one: Vec<u8> = vec![1u8];
    assert(from_be(one@) == 1) by {
        assert(one@ =~= seq![1u8]);
        lemma_from_be_single(1);
    }
    let n1 = big_sub(n, one.as_slice());
    let ux = big_mul(u, x);
    proof {
        lemma_be_min((n_val() - 1) as nat);
        lemma_be_min(from_be(u@) * from_be(x@));
    }
    let sum = big_add(a, ux.as_slice());
    proof {
        lemma_be_min(from_be(a@) + from_be(u@) * from_be(x@));
    }
    let e = big_rem(sum.as_slice(), n1.as_slice());
    proof {
        lemma_be_min((from_be(a@) + from_be(u@) * from_be(x@)) % ((n_val() - 1) as nat));
        let bb = from_be(b@);
        let bv = if bb >= kgx {
            ((bb - kgx) as nat) % n_val()
        } else {
            ((bb + n_val() - kgx) as nat) % n_val()
        };
        lemma_be_min(bv);
    }
    big_modpow(base.as_slice(), e.as_slice(), n)
}

/// The client proof `M1`.
fn compute_m1(identity: &[u8], salt: &[u8], a_min: &[u8], b_min: &[u8], key: &[u8]) -> (r: Vec<u8>)
    requires
        a_min@ == be_min(from_be(a_min@)),
        b_min@ == be_min(from_be(b_min@)),
    ensures
        r@ == srp_m1(identity@, salt@, from_be(a_min@), from_be(b_min@), key@),
        r@.len() == 64,
{
    let n_min = big_norm(&RFC5054_N_3072);
    let h_n = sha512(pad_to_n(n_min.as_slice()).as_slice());
    let g: Vec<u8> = vec![5u8];
    assert(from_be(g@) == 5) by {
        assert(g@ =~= seq![5u8]);
        lemma_from_be_single(5);
    }
    let g_min = big_norm(g.as_slice());
    let h_g = sha512(g_min.as_slice());
    let mut xor_result: Vec<u8> = Vec::new();
    let mut i: usize = 0;
    while i < 64
        invariant
            i <= 64,
            xor_result@ == Seq::new(i as nat, |j: int| h_n@[j] ^ h_g@[j]),
        decreases 64 - i,
    {
        xor_result.push(h_n[i] ^ h_g[i]);
        i += 1;
        assert(xor_result@ =~= Seq::new(i as nat, |j: int| h_n@[j] ^ h_g@[j]));
    }
    assert(xor_result@ =~= xor_bytes(h_n@, h_g@));
    let h_i = sha512(identity);
    let mut d: Vec<u8> = Vec::new();
    put_all(&mut d, xor_result.as_slice());
    put_all(&mut d, &h_i);
    put_all(&mut d, salt);
    put_all(&mut d, pad_to_n(a_min).as_slice());
    put_all(&mut d, pad_to_n(b_min).as_slice());
    put_all(&mut d, key);
    let h = sha512(d.as_slice());
    let mut out: Vec<u8> = Vec::new();
    put_all(&mut out, &h);
    out
}

} // verus!
