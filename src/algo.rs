use crate::config::HashAlgorithm;
use sha2::Digest;
use vstd::prelude::*;

verus! {

/// The SHA-256 digest of a byte sequence.
pub uninterp spec fn sha256_of(data: Seq<u8>) -> Seq<u8>;

/// The BLAKE3 digest (32 bytes) of a byte sequence.
pub uninterp spec fn blake3_of(data: Seq<u8>) -> Seq<u8>;

/// The bytes a SHA-256 state has absorbed since it was created.
pub uninterp spec fn sha256_input(h: Sha256Hasher) -> Seq<u8>;

/// The bytes a BLAKE3 state has absorbed since it was created.
pub uninterp spec fn blake3_input(h: Blake3Wrapper) -> Seq<u8>;

/// The digest that `alg` computes over `data`.
pub open spec fn digest(alg: HashAlgorithm, data: Seq<u8>) -> Seq<u8> {
    match alg {
        HashAlgorithm::Sha256 => sha256_of(data),
        HashAlgorithm::Blake3 => blake3_of(data),
    }
}

/// Incremental digest computation: absorb bytes, then finalize to 32 bytes.
pub trait Hasher: Sized {
    /// The bytes absorbed so far.
    spec fn input(&self) -> Seq<u8>;

    /// The algorithm this state computes.
    spec fn algorithm(&self) -> HashAlgorithm;

    fn update(&mut self, data: &[u8])
        ensures
            final(self).input() == old(self).input() + data@,
            final(self).algorithm() == old(self).algorithm(),
    ;

    fn finalize(self) -> (r: [u8; 32])
        ensures
            r@ == digest(self.algorithm(), self.input()),
    ;
}

/// A SHA-256 state. Its type in the sha2 crate is an alias over generic
/// wrappers whose parameters Verus cannot declare, so it is held opaquely.
#[verifier::external_body]
pub struct Sha256Hasher {
    inner: sha2::Sha256,
}

/// Relies on sha2's `Digest::new`: a fresh state has absorbed nothing.
#[verifier::external_body]
fn sha256_new() -> (r: Sha256Hasher)
    ensures
        sha256_input(r) == Seq::<u8>::empty(),
{
    Sha256Hasher { inner: sha2::Sha256::new() }
}

/// Relies on sha2's `Digest::update`: the state absorbs `data` after what it held.
#[verifier::external_body]
fn sha256_update(h: &mut Sha256Hasher, data: &[u8])
    ensures
        sha256_input(*final(h)) == sha256_input(*old(h)) + data@,
{
    Digest::update(&mut h.inner, data);
}

/// Relies on sha2's `Digest::finalize`: the SHA-256 digest of all absorbed bytes.
#[verifier::external_body]
fn sha256_finalize(h: Sha256Hasher) -> (r: [u8; 32])
    ensures
        r@ == sha256_of(sha256_input(h)),
{
    let d = Digest::finalize(h.inner);
    let mut out = [0u8; 32];
    out.copy_from_slice(&d);
    out
}

impl Sha256Hasher {
    pub fn new() -> (r: Self)
        ensures
            r.input() == Seq::<u8>::empty(),
    {
        sha256_new()
    }
}

impl Hasher for Sha256Hasher {
    open spec fn input(&self) -> Seq<u8> {
        sha256_input(*self)
    }

    open spec fn algorithm(&self) -> HashAlgorithm {
        HashAlgorithm::Sha256
    }

    fn update(&mut self, data: &[u8]) {
        sha256_update(self, data);
    }

    fn finalize(self) -> (r: [u8; 32]) {
        sha256_finalize(self)
    }
}

/// An unkeyed BLAKE3 state. It is held opaquely in a private field, so that
/// every value is one that `blake3::Hasher::new` made and only `update`
/// changed: no keyed, key-derivation or offset state ever reaches it.
#[verifier::external_body]
pub struct Blake3Wrapper {
    inner: blake3::Hasher,
}

/// Relies on `blake3::Hasher::new`: a fresh unkeyed state has absorbed nothing.
#[verifier::external_body]
fn blake3_new() -> (r: Blake3Wrapper)
    ensures
        blake3_input(r) == Seq::<u8>::empty(),
{
    Blake3Wrapper { inner: blake3::Hasher::new() }
}

/// Relies on `blake3::Hasher::update`: the state absorbs `data` after what it held.
#[verifier::external_body]
fn blake3_update(h: &mut Blake3Wrapper, data: &[u8])
    ensures
        blake3_input(*final(h)) == blake3_input(*old(h)) + data@,
{
    h.inner.update(data);
}

/// Relies on `blake3::Hasher::finalize`: for an unkeyed state, the 32-byte
/// BLAKE3 digest of all absorbed bytes.
#[verifier::external_body]
fn blake3_finalize(h: &Blake3Wrapper) -> (r: [u8; 32])
    ensures
        r@ == blake3_of(blake3_input(*h)),
{
    *h.inner.finalize().as_bytes()
}

impl Blake3Wrapper {
    pub fn new() -> (r: Self)
        ensures
            r.input() == Seq::<u8>::empty(),
    {
        blake3_new()
    }
}

impl Hasher for Blake3Wrapper {
    open spec fn input(&self) -> Seq<u8> {
        blake3_input(*self)
    }

    open spec fn algorithm(&self) -> HashAlgorithm {
        HashAlgorithm::Blake3
    }

    fn update(&mut self, data: &[u8]) {
        blake3_update(self, data);
    }

    fn finalize(self) -> (r: [u8; 32]) {
        blake3_finalize(&self)
    }
}

/// A digest state of the algorithm a policy selects.
pub enum Digester {
    Sha256(Sha256Hasher),
    Blake3(Blake3Wrapper),
}

impl Digester {
    pub fn new(alg: HashAlgorithm) -> (r: Self)
        ensures
            r.input() == Seq::<u8>::empty(),
            r.algorithm() == alg,
    {
        match alg {
            HashAlgorithm::Sha256 => Digester::Sha256(Sha256Hasher::new()),
            HashAlgorithm::Blake3 => Digester::Blake3(Blake3Wrapper::new()),
        }
    }
}

impl Hasher for Digester {
    open spec fn input(&self) -> Seq<u8> {
        match self {
            Digester::Sha256(h) => h.input(),
            Digester::Blake3(h) => h.input(),
        }
    }

    open spec fn algorithm(&self) -> HashAlgorithm {
        match self {
            Digester::Sha256(h) => h.algorithm(),
            Digester::Blake3(h) => h.algorithm(),
        }
    }

    fn update(&mut self, data: &[u8]) {
        match self {
            Digester::Sha256(h) => h.update(data),
            Digester::Blake3(h) => h.update(data),
        }
    }

    fn finalize(self) -> (r: [u8; 32]) {
        match self {
            Digester::Sha256(h) => h.finalize(),
            Digester::Blake3(h) => h.finalize(),
        }
    }
}

/// The digest of `data` in one step: a fresh state, one update, finalize.
pub fn digest_bytes(alg: HashAlgorithm, data: &[u8]) -> (r: [u8; 32])
    ensures
        r@ == digest(alg, data@),
{
    let mut h = Digester::new(alg);
    h.update(data);
    proof {
        assert(Seq::<u8>::empty() + data@ =~= data@);
    }
    h.finalize()
}

} // verus!
