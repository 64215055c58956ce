//! Deterministic address derivation.
//!
//! The factory turns (namespace tag, party A, party B, salt) into a storage
//! address plus a disambiguation nonce. Candidate nonces are tried from the
//! highest representable value downward; the first one whose hash the host's
//! validity predicate rejects as an externally-ownable key wins. That search
//! order is part of the protocol: it is what makes the result reproducible by
//! independent implementations.

use vstd::prelude::*;

use crate::errors::EscrowError;
use crate::ids::{Address, PartyId, ID_LEN};
use vstd::bytes::{spec_u64_to_le_bytes, u64_to_le_bytes};

verus! {

/// The namespace tag included in every derivation: the bytes of the protocol
/// version string. Changing it changes every derived address.
pub open spec fn spec_escrow_tag() -> Seq<u8> {
    seq![118u8, 49u8, 46u8, 48u8, 46u8, 49u8]
}

/// The namespace tag as a byte vector (the ASCII bytes of the protocol
/// version string).
pub fn escrow_tag() -> (r: Vec<u8>)
    ensures
        r@ == spec_escrow_tag(),
        r@.len() == 6,
{
    let r: Vec<u8> = vec![118u8, 49u8, 46u8, 48u8, 46u8, 49u8];
    assert(r@ =~= spec_escrow_tag());
    r
}

/// The factory's fixed program identifier, under which every escrow address
/// is derived.
pub open spec fn spec_factory_program_id() -> Seq<u8> {
    seq![
        112u8, 20u8, 178u8, 15u8, 196u8, 132u8, 212u8, 240u8,
        96u8, 239u8, 63u8, 55u8, 127u8, 168u8, 28u8, 219u8,
        75u8, 60u8, 103u8, 73u8, 109u8, 138u8, 39u8, 135u8,
        203u8, 222u8, 72u8, 19u8, 27u8, 231u8, 184u8, 15u8,
    ]
}

/// The factory's fixed program identifier as an [`Address`].
pub fn factory_program_id() -> (r: Address)
    ensures
        r.wf(),
        r@ == spec_factory_program_id(),
{
    let bytes: Vec<u8> = vec![
        112u8, 20u8, 178u8, 15u8, 196u8, 132u8, 212u8, 240u8,
        96u8, 239u8, 63u8, 55u8, 127u8, 168u8, 28u8, 219u8,
        75u8, 60u8, 103u8, 73u8, 109u8, 138u8, 39u8, 135u8,
        203u8, 222u8, 72u8, 19u8, 27u8, 231u8, 184u8, 15u8,
    ];
    assert(bytes@ =~= spec_factory_program_id());
    Address::from_exact(bytes)
}

/// What the host's program-derived-address computation returns for one
/// candidate nonce: `Some(address)` when the hash of
/// `tag || party_a || party_b || salt_le || [bump]` under `program_id` is not
/// an externally-ownable key, `None` when the candidate is rejected. The
/// result depends on the arguments alone.
pub uninterp spec fn escrow_pda(
    tag: Seq<u8>,
    party_a: Seq<u8>,
    party_b: Seq<u8>,
    salt_le: Seq<u8>,
    bump: u8,
    program_id: Seq<u8>,
) -> Option<Seq<u8>>;

/// Relies on `Pubkey::create_program_address` (anchor_lang's re-export of the
/// Solana address type): it returns the sha256 of the seed slices, the program
/// id and a fixed domain marker — 32 bytes — exactly when that hash is not an
/// ed25519 curve point, and `Err(InvalidSeeds)` when it is; with every seed at
/// most 32 bytes and far fewer than the maximum seed count, no other error can
/// come back. The result depends on the arguments alone.
#[verifier::external_body]
fn create_pda(
    tag: &[u8],
    party_a: &[u8],
    party_b: &[u8],
    salt_le: &[u8],
    bump: u8,
    program_id: &[u8],
) -> (r: Option<Address>)
    requires
        tag@.len() <= 32,
        party_a@.len() == ID_LEN,
        party_b@.len() == ID_LEN,
        salt_le@.len() == 8,
        program_id@.len() == ID_LEN,
    ensures
        match r {
            Some(addr) => addr@.len() == ID_LEN && escrow_pda(
                tag@,
                party_a@,
                party_b@,
                salt_le@,
                bump,
                program_id@,
            ) == Some(addr@),
            None => escrow_pda(tag@, party_a@, party_b@, salt_le@, bump, program_id@) is None,
        },
{
    let pid = anchor_lang::prelude::Pubkey::try_from(program_id).unwrap();
    let bump_seed: [u8; 1] = [bump];
    let seeds: [&[u8]; 5] = [tag, party_a, party_b, salt_le, &bump_seed];
    match anchor_lang::prelude::Pubkey::create_program_address(&seeds, &pid) {
        Ok(key) => Address::from_bytes(key.to_bytes().to_vec()),
        Err(_) => None,
    }
}

/// The result of trying candidate nonces from `top` downward: the first
/// candidate the validity predicate accepts, with its address, or `None` when
/// every candidate from `top` down to zero is rejected.
pub open spec fn spec_search_bump(
    party_a: Seq<u8>,
    party_b: Seq<u8>,
    salt: u64,
    program_id: Seq<u8>,
    top: int,
) -> Option<(Seq<u8>, u8)>
    decreases top + 1,
{
    if top < 0 {
        None
    } else {
        match escrow_pda(
            spec_escrow_tag(),
            party_a,
            party_b,
            spec_u64_to_le_bytes(salt),
            top as u8,
            program_id,
        ) {
            Some(addr) => Some((addr, top as u8)),
            None => spec_search_bump(party_a, party_b, salt, program_id, top - 1),
        }
    }
}

/// The derived (address, nonce) pair for a triple, searching nonces from the
/// highest representable value downward; `None` when the search space is
/// exhausted.
pub open spec fn spec_derive(
    party_a: Seq<u8>,
    party_b: Seq<u8>,
    salt: u64,
    program_id: Seq<u8>,
) -> Option<(Seq<u8>, u8)> {
    spec_search_bump(party_a, party_b, salt, program_id, 255)
}

/// Derives the storage address and nonce for (party A, party B, salt) under
/// `program_id`.
///
/// The result is a function of the inputs alone, so repeated calls return the
/// identical pair. Fails only with [`EscrowError::DerivationExhausted`], when
/// no candidate nonce yields a valid address.
pub fn derive_escrow_address(
    party_a: &PartyId,
    party_b: &PartyId,
    salt: u64,
    program_id: &Address,
) -> (r: Result<(Address, u8), EscrowError>)
    requires
        party_a.wf(),
        party_b.wf(),
        program_id.wf(),
    ensures
        match r {
            Ok(pair) => pair.0.wf() && spec_derive(party_a@, party_b@, salt, program_id@)
                == Some((pair.0@, pair.1)),
            Err(e) => e == EscrowError::DerivationExhausted && spec_derive(
                party_a@,
                party_b@,
                salt,
                program_id@,
            ) is None,
        },
{
    let tag = escrow_tag();
    let salt_le = u64_to_le_bytes(salt);
    let mut i: u16 = 256;
    while i > 0
        invariant
            i <= 256,
            party_a.wf(),
            party_b.wf(),
            program_id.wf(),
            tag@ == spec_escrow_tag(),
            salt_le@ == spec_u64_to_le_bytes(salt),
            salt_le@.len() == 8,
            spec_derive(party_a@, party_b@, salt, program_id@) == spec_search_bump(
                party_a@,
                party_b@,
                salt,
                program_id@,
                i - 1,
            ),
        decreases i,
    {
        let bump: u8 = (i - 1) as u8;
        let attempt = create_pda(
            tag.as_slice(),
            party_a.as_slice(),
            party_b.as_slice(),
            salt_le.as_slice(),
            bump,
            program_id.as_slice(),
        );
        match attempt {
            Some(addr) => {
                return Ok((addr, bump));
            },
            None => {},
        }
        i = i - 1;
    }
    Err(EscrowError::DerivationExhausted)
}

/// Law: the search order is part of the contract. Whatever the derivation
/// returns, it is the candidate with the *highest* nonce that the validity
/// predicate accepts: every higher nonce is rejected, and when the derivation
/// is exhausted, every nonce in the search space is rejected.
pub proof fn lemma_derivation_picks_highest_nonce(
    party_a: Seq<u8>,
    party_b: Seq<u8>,
    salt: u64,
    program_id: Seq<u8>,
)
    ensures
        match spec_derive(party_a, party_b, salt, program_id) {
            Some(pair) => escrow_pda(
                spec_escrow_tag(),
                party_a,
                party_b,
                spec_u64_to_le_bytes(salt),
                pair.1,
                program_id,
            ) == Some(pair.0) && forall|c: u8|
                c > pair.1 ==> escrow_pda(
                    spec_escrow_tag(),
                    party_a,
                    party_b,
                    spec_u64_to_le_bytes(salt),
                    c,
                    program_id,
                ) is None,
            None => forall|c: u8|
                escrow_pda(
                    spec_escrow_tag(),
                    party_a,
                    party_b,
                    spec_u64_to_le_bytes(salt),
                    c,
                    program_id,
                ) is None,
        },
{
    lemma_search_characterization(party_a, party_b, salt, program_id, 255);
}

proof fn lemma_search_characterization(
    party_a: Seq<u8>,
    party_b: Seq<u8>,
    salt: u64,
    program_id: Seq<u8>,
    top: int,
)
    requires
        -1 <= top <= 255,
    ensures
        match spec_search_bump(party_a, party_b, salt, program_id, top) {
            Some(pair) => 0 <= pair.1 <= top && escrow_pda(
                spec_escrow_tag(),
                party_a,
                party_b,
                spec_u64_to_le_bytes(salt),
                pair.1,
                program_id,
            ) == Some(pair.0) && forall|c: u8|
                pair.1 < c <= top ==> escrow_pda(
                    spec_escrow_tag(),
                    party_a,
                    party_b,
                    spec_u64_to_le_bytes(salt),
                    c,
                    program_id,
                ) is None,
            None => forall|c: u8|
                c <= top ==> escrow_pda(
                    spec_escrow_tag(),
                    party_a,
                    party_b,
                    spec_u64_to_le_bytes(salt),
                    c,
                    program_id,
                ) is None,
        },
    decreases top + 1,
{
    if top >= 0 {
        lemma_search_characterization(party_a, party_b, salt, program_id, top - 1);
    }
}

} // verus!
