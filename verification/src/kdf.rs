//! Turning a password and a salt into a symmetric key.
//!
//! The derivation is scrypt, a deliberately slow and memory-hard function, as
//! the `scrypt` crate computes it. Its output is named here, not defined: what
//! this module proves is when a key is produced and that it is that output.

use crate::error::Error;
use vstd::arithmetic::power2::{lemma_pow2_strictly_increases, lemma_pow2_unfold, pow2};
use vstd::prelude::*;

verus! {

/// Length in bytes of every derived key.
pub const KEY_LEN: usize = 32;

/// Length in bytes of the salt that goes into a freshly made container.
pub const SALT_LEN: usize = 32;

/// Base-two logarithm of the cost `N` that the vault format is fixed to.
pub const SCRYPT_LOG_N: u8 = 20;

/// Block size `r` that the vault format is fixed to.
pub const SCRYPT_R: u32 = 8;

/// Parallelism `p` that the vault format is fixed to.
pub const SCRYPT_P: u32 = 1;

/// The first `len` bytes that `scrypt::scrypt` writes for this password and
/// salt under the work factor `(log_n, r, p)`.
pub uninterp spec fn scrypt_output(
    password: Seq<u8>,
    salt: Seq<u8>,
    log_n: u8,
    r: u32,
    p: u32,
    len: nat,
) -> Seq<u8>;

/// A work factor for the key derivation: cost `2^log_n`, block size `r`,
/// parallelism `p`.
#[derive(Debug, Clone, Copy, PartialEq, Eq, Structural)]
pub struct KdfParams {
    pub log_n: u8,
    pub r: u32,
    pub p: u32,
}

impl KdfParams {
    /// The working memory that the derivation asks for can be addressed on
    /// this machine.
    pub open spec fn fits_memory(&self) -> bool {
        &&& 128 * self.r * pow2(self.log_n as nat) <= isize::MAX
        &&& 128 * self.r * self.p <= isize::MAX
    }

    /// The work factor is one that scrypt is defined for and that this machine
    /// can hold.
    pub open spec fn valid(&self) -> bool {
        &&& self.r > 0
        &&& self.p > 0
        &&& self.log_n < 16 * self.r
        &&& self.r * self.p < 0x4000_0000
        &&& self.fits_memory()
    }

    /// The work factor of the vault format.
    pub open spec fn standard_spec() -> KdfParams {
        KdfParams { log_n: SCRYPT_LOG_N, r: SCRYPT_R, p: SCRYPT_P }
    }

    /// The work factor of the vault format. It is the same for every vault,
    /// so it is not stored in the container. Every machine can hold it.
    #[verifier::when_used_as_spec(standard_spec)]
    pub fn standard() -> (params: KdfParams)
        ensures
            params == KdfParams::standard_spec(),
            params.valid(),
    {
        proof {
            lemma_pow2_values();
            assert(isize::MAX >= 0x7fff_ffff);
        }
        KdfParams { log_n: SCRYPT_LOG_N, r: SCRYPT_R, p: SCRYPT_P }
    }

    /// Tests [`KdfParams::fits_memory`].
    pub fn check_fits_memory(&self) -> (fits: bool)
        ensures
            fits == self.fits_memory(),
    {
        let limit: u128 = isize::MAX as u128;
        let block: u128 = 128 * (self.r as u128);
        assert(block * self.p <= 128 * 0x1_0000_0000 * 0x1_0000_0000) by (nonlinear_arith)
            requires
                block <= 128 * 0x1_0000_0000,
                self.p <= 0x1_0000_0000,
        ;
        if block * (self.p as u128) > limit {
            return false;
        }
        // 2^56 blocks of even one byte are beyond any address space.
        if self.log_n >= 56 {
            proof {
                lemma_pow2_values();
                if self.log_n > 56 {
                    lemma_pow2_strictly_increases(56, self.log_n as nat);
                }
                let n = pow2(self.log_n as nat);
                assert(isize::MAX <= 0x7fff_ffff_ffff_ffff);
                if self.r > 0 {
                    assert(128 * self.r * n >= 128 * n) by (nonlinear_arith)
                        requires
                            self.r >= 1,
                            n >= 0,
                    ;
                } else {
                    assert(128 * self.r * n == 0) by (nonlinear_arith)
                        requires
                            self.r == 0,
                    ;
                }
            }
            return self.r == 0;
        }
        proof {
            lemma_pow2_values();
        }
        let mut n: u128 = 1;
        let mut i: u8 = 0;
        while i < self.log_n
            invariant
                i <= self.log_n < 56,
                n == pow2(i as nat),
                n <= pow2(56),
                pow2(56) == 0x100_0000_0000_0000,
            decreases self.log_n - i,
        {
            proof {
                lemma_pow2_unfold((i + 1) as nat);
                if i + 1 < 56 {
                    lemma_pow2_strictly_increases((i + 1) as nat, 56);
                }
            }
            n = n * 2;
            i = i + 1;
        }
        assert(block * n <= 128 * 0x1_0000_0000 * 0x100_0000_0000_0000) by (nonlinear_arith)
            requires
                block <= 128 * 0x1_0000_0000,
                n <= 0x100_0000_0000_0000,
        ;
        block * n <= limit
    }

    /// Tests [`KdfParams::valid`].
    pub fn is_valid(&self) -> (valid: bool)
        ensures
            valid == self.valid(),
    {
        assert(self.r * self.p <= 0x1_0000_0000 * 0x1_0000_0000) by (nonlinear_arith)
            requires
                self.r <= 0x1_0000_0000,
                self.p <= 0x1_0000_0000,
        ;
        self.r > 0 && self.p > 0 && (self.log_n as u64) < 16 * (self.r as u64) && (self.r as u128)
            * (self.p as u128) < 0x4000_0000 && self.check_fits_memory()
    }
}

/// The key that belongs to a password and a salt under a work factor.
pub open spec fn derived_key(password: Seq<u8>, salt: Seq<u8>, params: KdfParams) -> Seq<u8> {
    scrypt_output(password, salt, params.log_n, params.r, params.p, KEY_LEN as nat)
}

/// The powers of two that the limits are stated with.
proof fn lemma_pow2_values()
    ensures
        pow2(0) == 1,
        pow2(20) == 0x10_0000,
        pow2(56) == 0x100_0000_0000_0000,
{
    vstd::arithmetic::power2::lemma2_to64();
    vstd::arithmetic::power2::lemma2_to64_rest();
}

/// Calls `scrypt::ScryptParams::new` and, where that accepts the work factor,
/// `scrypt::scrypt` on a zeroed buffer of `len` bytes.
///
/// Believed of them, from their source: with buffers that this machine can
/// address (the `requires`), the first rejects exactly a zero `r` or `p`, a
/// `log_n` of `16 * r` or more, and an `r * p` of `2^30` or more; the second
/// rejects exactly an empty output and one longer than `(2^32 - 1) * 32`
/// bytes; and what is written is a function of password, salt, work factor
/// and length alone.
#[verifier::external_body]
fn scrypt_raw(password: &[u8], salt: &[u8], log_n: u8, r: u32, p: u32, len: usize) -> (key: Option<
    Vec<u8>,
>)
    requires
        128 * r * pow2(log_n as nat) <= isize::MAX,
        128 * r * p <= isize::MAX,
        len <= isize::MAX,
    ensures
        key is Some <==> (r > 0 && p > 0 && log_n < 16 * r && r * p < 0x4000_0000 && 0 < len && len
            / 32 <= 0xffff_ffff),
        key matches Some(bytes) ==> bytes@.len() == len && bytes@ == scrypt_output(
            password@,
            salt@,
            log_n,
            r,
            p,
            len as nat,
        ),
{
    let params = ::scrypt::ScryptParams::new(log_n, r, p).ok()?;
    let mut key = vec![0u8; len];
    ::scrypt::scrypt(password, salt, &params, &mut key).ok()?;
    Some(key)
}

/// Derives the 32-byte key for `password` and `salt` under `params`.
///
/// Any password and any salt are accepted, the empty ones too. The only
/// failure is a work factor that is not [`KdfParams::valid`].
pub fn derive_key(password: &[u8], salt: &[u8], params: &KdfParams) -> (key: Result<Vec<u8>, Error>)
    ensures
        key is Ok <==> params.valid(),
        key matches Ok(bytes) ==> bytes@.len() == KEY_LEN && bytes@ == derived_key(
            password@,
            salt@,
            *params,
        ),
        key matches Err(e) ==> e == Error::KeyDerivation,
{
    if !params.check_fits_memory() {
        return Err(Error::KeyDerivation);
    }
    match scrypt_raw(password, salt, params.log_n, params.r, params.p, KEY_LEN) {
        Some(bytes) => Ok(bytes),
        None => Err(Error::KeyDerivation),
    }
}

/// Overwrites a key with zeros once it has served.
///
/// What is proved is what the buffer holds afterwards. That the writes reach
/// memory before the buffer is freed is up to the compiler.
pub fn scrub(key: &mut Vec<u8>)
    ensures
        final(key)@.len() == old(key)@.len(),
        forall|i: int| 0 <= i < final(key)@.len() ==> final(key)@[i] == 0,
{
    let mut i: usize = 0;
    while i < key.len()
        invariant
            i <= key@.len(),
            key@.len() == old(key)@.len(),
            forall|j: int| 0 <= j < i ==> key@[j] == 0,
        decreases key@.len() - i,
    {
        key.set(i, 0);
        i = i + 1;
    }
}

} // verus!
