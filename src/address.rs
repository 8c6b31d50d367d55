//! Derivation of a record's address from a namespace tag and an owner.
use vstd::prelude::*;
use crate::identity::Identity;
use anchor_lang::prelude::Pubkey;

verus! {

/// The program address found for the seeds `[tag, owner]` under `program`,
/// or `None` when no bump seed yields an address off the curve.
pub uninterp spec fn program_address(tag: Seq<u8>, owner: Seq<u8>, program: Seq<u8>) -> Option<
    Seq<u8>,
>;

/// The bytes of an optional identity.
pub open spec fn opt_view(r: Option<Identity>) -> Option<Seq<u8>> {
    match r {
        Some(a) => Some(a@),
        None => None,
    }
}

/// The namespace tag under which counters are kept: the bytes of "counter".
pub open spec fn counter_tag() -> Seq<u8> {
    seq![99u8, 111u8, 117u8, 110u8, 116u8, 101u8, 114u8]
}

/// The address of the counter that `owner` holds under `program`.
pub open spec fn counter_address_of(owner: Seq<u8>, program: Seq<u8>) -> Option<Seq<u8>> {
    program_address(counter_tag(), owner, program)
}

/// Relies on `Pubkey::try_find_program_address` with the seeds `[tag, owner]`:
/// its address depends on the tag, the owner and the program alone (a SHA-256
/// digest, searched over bump seeds); the bump seed is dropped.
#[verifier::external_body]
fn find_program_address(tag: &[u8], owner: &[u8; 32], program: &[u8; 32]) -> (r: Option<
    [u8; 32],
>)
    ensures
        match r {
            Some(a) => program_address(tag@, owner@, program@) == Some(a@),
            None => program_address(tag@, owner@, program@) == None::<Seq<u8>>,
        },
{
    let seeds: [&[u8]; 2] = [tag, owner];
    Pubkey::try_find_program_address(&seeds, &Pubkey::new_from_array(*program)).map(
        |(a, _bump)| a.to_bytes(),
    )
}

/// Derives the address for the seeds `[tag, owner]` under `program`.
pub fn derive_address(tag: &[u8], owner: &Identity, program: &Identity) -> (r: Option<Identity>)
    ensures
        opt_view(r) == program_address(tag@, owner@, program@),
{
    match find_program_address(tag, &owner.bytes, &program.bytes) {
        Some(a) => Some(Identity { bytes: a }),
        None => None,
    }
}

/// Recomputes the derivation and tells whether it gives `address`.
pub fn verify(address: &Identity, tag: &[u8], owner: &Identity, program: &Identity) -> (r: bool)
    ensures
        r == (program_address(tag@, owner@, program@) == Some(address@)),
{
    match derive_address(tag, owner, program) {
        Some(a) => a == *address,
        None => false,
    }
}

/// The bytes of the counter tag.
pub fn counter_tag_bytes() -> (r: [u8; 7])
    ensures
        r@ == counter_tag(),
{
    let r: [u8; 7] = [99u8, 111u8, 117u8, 110u8, 116u8, 101u8, 114u8];
    assert(r@ =~= counter_tag());
    r
}

/// The address of the counter that `owner` holds under `program`.
pub fn counter_address(owner: &Identity, program: &Identity) -> (r: Option<Identity>)
    ensures
        opt_view(r) == counter_address_of(owner@, program@),
{
    let tag = counter_tag_bytes();
    derive_address(tag.as_slice(), owner, program)
}

/// Two derivations with the same inputs give the same address.
pub proof fn derive_is_stable(
    owner: Seq<u8>,
    program: Seq<u8>,
    r1: Option<Identity>,
    r2: Option<Identity>,
)
    requires
        opt_view(r1) == counter_address_of(owner, program),
        opt_view(r2) == counter_address_of(owner, program),
    ensures
        r1 == r2,
{
    if r1 is Some {
        crate::identity::identity_view_injective(r1.unwrap(), r2.unwrap());
    }
}

} // verus!
