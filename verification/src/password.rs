//! Password hashing.
//!
//! A password is stored as the bcrypt digest of its bytes under a salt of
//! sixteen random bytes. A password is verified by hashing the attempt under
//! the stored salt and comparing the two digests in constant time.

use crate::models::User;
use vstd::prelude::*;

verus! {

/// The number of bytes of a salt.
pub const SALT_LEN: usize = 16;

/// The longest password, in bytes, that bcrypt takes.
pub const MAX_PASSWORD_LEN: usize = 72;

/// The largest work factor that bcrypt takes.
pub const MAX_COST: u32 = 31;

/// The work factor under which the service hashes passwords.
pub const SERVICE_COST: u32 = 16;

/// The digest that `bcrypt::bcrypt` computes for a cost, a salt and the
/// bytes of a password.
pub uninterp spec fn bcrypt_digest(cost: u32, salt: Seq<u8>, password: Seq<u8>) -> Seq<u8>;

/// Calls `bcrypt::bcrypt`. Trusted: the digest depends on the cost, the salt
/// and the password alone. bcrypt refuses a cost over 31, an empty password
/// and one of more than 72 bytes.
#[verifier::external_body]
fn bcrypt_raw(cost: u32, salt: &[u8; 16], password: &[u8]) -> (digest: [u8; 24])
    requires
        cost <= MAX_COST,
        1 <= password@.len() <= MAX_PASSWORD_LEN,
    ensures
        digest@ == bcrypt_digest(cost, salt@, password@),
{
    bcrypt::bcrypt(cost, *salt, password)
}

/// The bytes of a password: its UTF-8 encoding.
pub open spec fn password_bytes(password: Seq<char>) -> Seq<u8> {
    vstd::utf8::encode_utf8(password)
}

/// Whether bcrypt takes the password: it is not empty and has at most 72
/// bytes.
pub open spec fn is_hashable(password: Seq<char>) -> bool {
    1 <= password_bytes(password).len() <= MAX_PASSWORD_LEN
}

/// The digest stored for a password under a salt.
pub open spec fn password_digest(cost: u32, salt: Seq<u8>, password: Seq<char>) -> Seq<u8> {
    bcrypt_digest(cost, salt, password_bytes(password))
}

/// Whether `password` is the password behind the stored salt and hash. A
/// salt that is not sixteen bytes long matches no password.
pub open spec fn password_matches(
    cost: u32,
    salt: Seq<u8>,
    pw_hash: Seq<u8>,
    password: Seq<char>,
) -> bool {
    &&& salt.len() == SALT_LEN
    &&& is_hashable(password)
    &&& password_digest(cost, salt, password) == pw_hash
}

/// A work factor that bcrypt takes: at most 31.
#[derive(Debug, Clone, Copy, PartialEq, Eq)]
pub struct WorkFactor {
    cost: u32,
}

impl View for WorkFactor {
    type V = u32;

    closed spec fn view(&self) -> u32 {
        self.cost
    }
}

impl WorkFactor {
    #[verifier::type_invariant]
    spec fn in_range(self) -> bool {
        self.cost <= MAX_COST
    }

    /// The work factor `cost`, or `None` where bcrypt does not take it.
    pub fn new(cost: u32) -> (factor: Option<WorkFactor>)
        ensures
            factor is Some <==> cost <= MAX_COST,
            factor matches Some(f) ==> f@ == cost,
    {
        if cost <= MAX_COST {
            Some(WorkFactor { cost })
        } else {
            None
        }
    }

    /// The work factor of the service.
    pub fn service() -> (factor: WorkFactor)
        ensures
            factor@ == SERVICE_COST,
    {
        WorkFactor { cost: SERVICE_COST }
    }

    pub fn cost(&self) -> (cost: u32)
        ensures
            cost == self@,
            cost <= MAX_COST,
    {
        proof {
            use_type_invariant(self);
        }
        self.cost
    }
}

/// Whether two byte strings are equal. The time taken depends on the
/// lengths alone: every byte is looked at, whatever the earlier ones held.
pub fn constant_time_eq(left: &[u8], right: &[u8]) -> (equal: bool)
    ensures
        equal == (left@ == right@),
{
    if left.len() != right.len() {
        return false;
    }
    let mut difference: u8 = 0;
    let mut i: usize = 0;
    assert(left@.take(0) =~= right@.take(0));
    while i < left.len()
        invariant
            i <= left@.len(),
            left@.len() == right@.len(),
            difference == 0 <==> left@.take(i as int) == right@.take(i as int),
        decreases left@.len() - i,
    {
        let l: u8 = left[i];
        let r: u8 = right[i];
        let before: u8 = difference;
        difference = difference | (l ^ r);
        proof {
            assert(((before | (l ^ r)) == 0) <==> (before == 0 && l == r)) by (bit_vector);
            let next = i + 1;
            assert(left@.take(next) == left@.take(i as int).push(l));
            assert(right@.take(next) == right@.take(i as int).push(r));
            if left@.take(next) == right@.take(next) {
                assert(left@.take(next)[i as int] == right@.take(next)[i as int]);
                assert(left@.take(i as int) =~= left@.take(next).take(i as int));
                assert(right@.take(i as int) =~= right@.take(next).take(i as int));
            }
        }
        i += 1;
    }
    proof {
        assert(left@.take(left@.len() as int) == left@);
        assert(right@.take(right@.len() as int) == right@);
    }
    difference == 0
}

/// The sixteen bytes of a stored salt, or `None` where the stored salt has
/// another length.
pub fn salt_block(salt: &Vec<u8>) -> (block: Option<[u8; 16]>)
    ensures
        block is Some <==> salt@.len() == SALT_LEN,
        block matches Some(b) ==> b@ == salt@,
{
    if salt.len() != SALT_LEN {
        return None;
    }
    let mut block: [u8; 16] = [0u8; 16];
    let mut i: usize = 0;
    while i < 16
        invariant
            i <= 16,
            salt@.len() == 16,
            forall|k: int| 0 <= k < i ==> block@[k] == salt@[k],
        decreases 16 - i,
    {
        block[i] = salt[i];
        i += 1;
    }
    assert(block@ =~= salt@);
    Some(block)
}

/// The digest of `password` under `salt`, or `None` where bcrypt does not
/// take the password.
pub fn hash_password(factor: WorkFactor, salt: &[u8; 16], password: &String) -> (digest: Option<
    Vec<u8>,
>)
    ensures
        digest is Some <==> is_hashable(password@),
        digest matches Some(d) ==> d@ == password_digest(factor@, salt@, password@),
{
    let bytes = password.as_str().as_bytes();
    if bytes.len() == 0 || bytes.len() > MAX_PASSWORD_LEN {
        return None;
    }
    let digest = bcrypt_raw(factor.cost(), salt, bytes);
    Some(vstd::slice::slice_to_vec(digest.as_slice()))
}

/// Whether `password` is the password of `user`: the user's salt has
/// sixteen bytes, bcrypt takes the password, and its digest under that salt
/// is the stored hash.
pub fn verify_password(factor: WorkFactor, user: &User, password: &String) -> (matches: bool)
    ensures
        matches == password_matches(factor@, user@.salt, user@.pw_hash, password@),
{
    match salt_block(&user.salt) {
        None => false,
        Some(block) => {
            match hash_password(factor, &block, password) {
                None => false,
                Some(digest) => constant_time_eq(digest.as_slice(), user.pw_hash.as_slice()),
            }
        },
    }
}

} // verus!
