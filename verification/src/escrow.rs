//! One-shot creation of escrow records.
//!
//! The store models the slice of the host runtime's storage that this factory
//! owns: a map from derived addresses to escrow records, together with the
//! immutable configuration fixed at startup (the program identifier every
//! address is derived under, and the minimum balance the runtime charges for
//! one allocation). Creation is the only transition: a record, once written,
//! is never mutated and never freed.

use vstd::prelude::*;

use crate::derivation::{derive_escrow_address, spec_derive};
use crate::errors::EscrowError;
use crate::ids::{Address, PartyId};

verus! {

/// The mathematical content of a persisted escrow record.
pub ghost struct RecordModel {
    /// Party A's identifier, exactly as supplied at creation.
    pub from: Seq<u8>,
    /// Party B's identifier, exactly as supplied at creation.
    pub to: Seq<u8>,
    /// The caller-chosen disambiguation value.
    pub salt: u64,
}

/// A persisted escrow record: the two parties and the salt, written exactly
/// as supplied at creation — no normalization, no defaulting.
pub struct EscrowAccount {
    /// Party A: the initiating party, who authorized the creation.
    pub from: PartyId,
    /// Party B: the counterparty; its authorization was never required.
    pub to: PartyId,
    /// The caller-chosen disambiguation value.
    pub salt: u64,
}

impl View for EscrowAccount {
    type V = RecordModel;

    open spec fn view(&self) -> RecordModel {
        RecordModel { from: self.from@, to: self.to@, salt: self.salt }
    }
}

impl EscrowAccount {
    /// Both identifiers are full-width.
    pub open spec fn wf(&self) -> bool {
        self.from.wf() && self.to.wf()
    }
}

/// The mathematical content of a creation request.
pub ghost struct CreateEscrowModel {
    /// Party A's identifier.
    pub from: Seq<u8>,
    /// Party B's identifier.
    pub to: Seq<u8>,
    /// The payer's identifier.
    pub paymaster: Seq<u8>,
    /// Whether party A presented a valid authorization proof.
    pub from_signed: bool,
    /// Whether the payer presented a valid authorization proof.
    pub paymaster_signed: bool,
    /// The balance the payer holds to fund the allocation.
    pub paymaster_balance: u64,
}

/// A creation request: the accounts consumed by one `create_escrow` call,
/// with the authorization facts the host runtime established about them.
pub struct CreateEscrow {
    /// Party A: must authorize.
    pub from: PartyId,
    /// Party B: referenced, need not authorize.
    pub to: PartyId,
    /// The payer funding the allocation: must authorize.
    pub paymaster: PartyId,
    /// Whether party A presented a valid authorization proof.
    pub from_signed: bool,
    /// Whether the payer presented a valid authorization proof.
    pub paymaster_signed: bool,
    /// The balance the payer holds.
    pub paymaster_balance: u64,
}

impl View for CreateEscrow {
    type V = CreateEscrowModel;

    open spec fn view(&self) -> CreateEscrowModel {
        CreateEscrowModel {
            from: self.from@,
            to: self.to@,
            paymaster: self.paymaster@,
            from_signed: self.from_signed,
            paymaster_signed: self.paymaster_signed,
            paymaster_balance: self.paymaster_balance,
        }
    }
}

impl CreateEscrow {
    /// Every identifier in the request is full-width.
    pub open spec fn wf(&self) -> bool {
        self.from.wf() && self.to.wf() && self.paymaster.wf()
    }
}

/// What one creation attempt returns, given the factory's configuration, the
/// records already allocated, and the request: the checks run in a fixed
/// order — authorization, derivation, collision, funding — and the record, on
/// success, holds the request's fields exactly.
pub open spec fn create_outcome(
    program_id: Seq<u8>,
    min_balance: u64,
    records: Map<Seq<u8>, RecordModel>,
    ctx: CreateEscrowModel,
    salt: u64,
) -> Result<RecordModel, EscrowError> {
    if !ctx.from_signed || !ctx.paymaster_signed {
        Err(EscrowError::Unauthorized)
    } else {
        match spec_derive(ctx.from, ctx.to, salt, program_id) {
            None => Err(EscrowError::DerivationExhausted),
            Some(pair) => if records.contains_key(pair.0) {
                Err(EscrowError::AlreadyExists)
            } else if ctx.paymaster_balance < min_balance {
                Err(EscrowError::InsufficientFunds)
            } else {
                Ok(RecordModel { from: ctx.from, to: ctx.to, salt })
            },
        }
    }
}

/// The records after one creation attempt: on success, exactly one new record
/// at the derived address; on any failure, the records unchanged — no partial
/// write.
pub open spec fn create_post(
    program_id: Seq<u8>,
    min_balance: u64,
    records: Map<Seq<u8>, RecordModel>,
    ctx: CreateEscrowModel,
    salt: u64,
) -> Map<Seq<u8>, RecordModel> {
    match create_outcome(program_id, min_balance, records, ctx, salt) {
        Ok(rec) => records.insert(spec_derive(ctx.from, ctx.to, salt, program_id).unwrap().0, rec),
        Err(_) => records,
    }
}

/// One allocated storage segment: the derived address and the record at it.
struct Entry {
    address: Address,
    record: EscrowAccount,
}

/// The mathematical content of one allocated segment.
ghost struct EntryModel {
    addr: Seq<u8>,
    rec: RecordModel,
}

impl View for Entry {
    type V = EntryModel;

    closed spec fn view(&self) -> EntryModel {
        EntryModel { addr: self.address@, rec: self.record@ }
    }
}

/// The map held by a sequence of allocated segments, later allocations taking
/// precedence (the store's invariant keeps addresses distinct, so none does).
spec fn map_of(entries: Seq<EntryModel>) -> Map<Seq<u8>, RecordModel>
    decreases entries.len(),
{
    if entries.len() == 0 {
        Map::empty()
    } else {
        map_of(entries.drop_last()).insert(entries.last().addr, entries.last().rec)
    }
}

/// Every segment is full-width and no two segments share an address.
spec fn wf_models(models: Seq<EntryModel>) -> bool {
    &&& forall|i: int|
        0 <= i < models.len() ==> (#[trigger] models[i]).addr.len() == 32
            && models[i].rec.from.len() == 32 && models[i].rec.to.len() == 32
    &&& forall|i: int, j: int| 0 <= i < j < models.len() ==> models[i].addr != models[j].addr
}

proof fn lemma_wf_models_push(models: Seq<EntryModel>, m: EntryModel)
    requires
        wf_models(models),
        forall|i: int| 0 <= i < models.len() ==> (#[trigger] models[i]).addr != m.addr,
        m.addr.len() == 32,
        m.rec.from.len() == 32,
        m.rec.to.len() == 32,
    ensures
        wf_models(models.push(m)),
{
    let p = models.push(m);
    assert forall|i: int|
        0 <= i < p.len() implies (#[trigger] p[i]).addr.len() == 32 && p[i].rec.from.len() == 32
        && p[i].rec.to.len() == 32 by {
        if i < models.len() {
            assert(p[i] == models[i]);
        } else {
            assert(p[i] == m);
        }
    }
    assert forall|i: int, j: int| 0 <= i < j < p.len() implies p[i].addr != p[j].addr by {
        if j < models.len() {
            assert(p[i] == models[i] && p[j] == models[j]);
        } else {
            assert(p[i] == models[i] && p[j] == m);
        }
    }
}

proof fn lemma_map_of_contains(entries: Seq<EntryModel>, k: Seq<u8>)
    ensures
        map_of(entries).contains_key(k) <==> exists|i: int|
            0 <= i < entries.len() && entries[i].addr == k,
    decreases entries.len(),
{
    if entries.len() > 0 {
        let prefix = entries.drop_last();
        lemma_map_of_contains(prefix, k);
        let last = entries.len() - 1;
        if entries[last].addr == k {
            assert(entries[last].addr == k);
        } else {
            if exists|i: int| 0 <= i < entries.len() && entries[i].addr == k {
                let i = choose|i: int| 0 <= i < entries.len() && entries[i].addr == k;
                assert(0 <= i < prefix.len() && prefix[i].addr == k);
            }
        }
    }
}

proof fn lemma_map_of_get(entries: Seq<EntryModel>, i: int)
    requires
        0 <= i < entries.len(),
        forall|p: int, q: int|
            0 <= p < q < entries.len() ==> entries[p].addr != entries[q].addr,
    ensures
        map_of(entries).contains_key(entries[i].addr),
        map_of(entries)[entries[i].addr] == entries[i].rec,
    decreases entries.len(),
{
    let last = entries.len() - 1;
    if i < last {
        lemma_map_of_get(entries.drop_last(), i);
        assert(entries[last].addr != entries[i].addr);
    }
}

/// The factory's storage: every escrow record allocated so far, keyed by its
/// derived address, plus the immutable configuration set at startup.
pub struct EscrowStore {
    program_id: Address,
    min_balance: u64,
    entries: Vec<Entry>,
}

impl View for EscrowStore {
    type V = Map<Seq<u8>, RecordModel>;

    closed spec fn view(&self) -> Map<Seq<u8>, RecordModel> {
        map_of(self.entries@.map_values(|e: Entry| e@))
    }
}

impl EscrowStore {
    /// The program identifier every address in this store is derived under.
    pub closed spec fn spec_program_id(&self) -> Seq<u8> {
        self.program_id@
    }

    /// The minimum balance the runtime charges a payer for one allocation.
    pub closed spec fn spec_min_balance(&self) -> u64 {
        self.min_balance
    }

    /// Configuration and segments are well formed, and no two segments share
    /// an address.
    pub closed spec fn wf(&self) -> bool {
        &&& self.program_id.wf()
        &&& wf_models(self.entries@.map_values(|e: Entry| e@))
    }

    /// An empty store under the given program identifier and allocation
    /// price. This is the factory's startup configuration: both values are
    /// immutable afterwards.
    pub fn new(program_id: Address, min_balance: u64) -> (r: EscrowStore)
        requires
            program_id.wf(),
        ensures
            r.wf(),
            r@ == Map::<Seq<u8>, RecordModel>::empty(),
            r.spec_program_id() == program_id@,
            r.spec_min_balance() == min_balance,
    {
        EscrowStore { program_id, min_balance, entries: Vec::new() }
    }

    /// The program identifier this store derives addresses under.
    pub fn program_id(&self) -> (r: &Address)
        ensures
            r@ == self.spec_program_id(),
    {
        &self.program_id
    }

    /// The minimum balance a payer must hold to fund one allocation.
    pub fn min_balance(&self) -> (r: u64)
        ensures
            r == self.spec_min_balance(),
    {
        self.min_balance
    }

    /// Whether a record is already allocated at `address`.
    pub fn contains_address(&self, address: &Address) -> (r: bool)
        requires
            self.wf(),
        ensures
            r == self@.contains_key(address@),
    {
        let ghost models = self.entries@.map_values(|e: Entry| e@);
        let mut i: usize = 0;
        while i < self.entries.len()
            invariant
                i <= self.entries@.len(),
                models == self.entries@.map_values(|e: Entry| e@),
                forall|j: int| 0 <= j < i ==> models[j].addr != address@,
            decreases self.entries@.len() - i,
        {
            if self.entries[i].address.same_as(address) {
                proof {
                    lemma_map_of_contains(models, address@);
                    assert(models[i as int].addr == address@);
                }
                return true;
            }
            i = i + 1;
        }
        proof {
            lemma_map_of_contains(models, address@);
        }
        false
    }

    /// The record at `address`, if one was ever created there.
    pub fn get_record(&self, address: &Address) -> (r: Option<&EscrowAccount>)
        requires
            self.wf(),
        ensures
            match r {
                Some(rec) => self@.contains_key(address@) && rec@ == self@[address@]
                    && rec.wf(),
                None => !self@.contains_key(address@),
            },
    {
        let ghost models = self.entries@.map_values(|e: Entry| e@);
        let mut i: usize = 0;
        while i < self.entries.len()
            invariant
                i <= self.entries@.len(),
                self.wf(),
                models == self.entries@.map_values(|e: Entry| e@),
                forall|j: int| 0 <= j < i ==> models[j].addr != address@,
            decreases self.entries@.len() - i,
        {
            if self.entries[i].address.same_as(address) {
                proof {
                    lemma_map_of_get(models, i as int);
                }
                return Some(&self.entries[i].record);
            }
            i = i + 1;
        }
        proof {
            lemma_map_of_contains(models, address@);
        }
        None
    }

    /// Creates the escrow record for (party A, party B, salt), exactly once.
    ///
    /// The address is derived deterministically from the request; creation
    /// fails — atomically, leaving the store unchanged — when a required
    /// authorization proof is missing, when a record already sits at the
    /// derived address, when the payer cannot cover the allocation, or when
    /// derivation is exhausted. On success the new record holds `ctx.from`,
    /// `ctx.to` and `salt` exactly as supplied.
    pub fn create_escrow(&mut self, ctx: &CreateEscrow, salt: u64) -> (r: Result<
        EscrowAccount,
        EscrowError,
    >)
        requires
            old(self).wf(),
            ctx.wf(),
        ensures
            final(self).wf(),
            final(self).spec_program_id() == old(self).spec_program_id(),
            final(self).spec_min_balance() == old(self).spec_min_balance(),
            match (r, create_outcome(
                old(self).spec_program_id(),
                old(self).spec_min_balance(),
                old(self)@,
                ctx@,
                salt,
            )) {
                (Ok(rec), Ok(model)) => rec@ == model && rec.wf(),
                (Err(e), Err(model_e)) => e == model_e,
                _ => false,
            },
            final(self)@ == create_post(
                old(self).spec_program_id(),
                old(self).spec_min_balance(),
                old(self)@,
                ctx@,
                salt,
            ),
            r matches Ok(rec) ==> rec@.from == ctx@.from && rec@.to == ctx@.to && rec@.salt
                == salt && final(self)@.contains_key(
                spec_derive(ctx@.from, ctx@.to, salt, old(self).spec_program_id()).unwrap().0,
            ),
    {
        if !ctx.from_signed || !ctx.paymaster_signed {
            return Err(EscrowError::Unauthorized);
        }
        let derived = derive_escrow_address(&ctx.from, &ctx.to, salt, &self.program_id);
        let (address, _bump) = match derived {
            Ok(pair) => pair,
            Err(e) => {
                return Err(e);
            },
        };
        if self.contains_address(&address) {
            return Err(EscrowError::AlreadyExists);
        }
        if ctx.paymaster_balance < self.min_balance {
            return Err(EscrowError::InsufficientFunds);
        }
        let record = EscrowAccount { from: ctx.from.duplicate(), to: ctx.to.duplicate(), salt };
        let ghost old_models = self.entries@.map_values(|e: Entry| e@);
        proof {
            lemma_map_of_contains(old_models, address@);
        }
        let entry = Entry {
            address,
            record: EscrowAccount { from: ctx.from.duplicate(), to: ctx.to.duplicate(), salt },
        };
        let ghost entry_model = entry@;
        self.entries.push(entry);
        proof {
            let models = self.entries@.map_values(|e: Entry| e@);
            assert(models =~= old_models.push(entry_model));
            assert forall|i: int|
                0 <= i < old_models.len() implies (#[trigger] old_models[i]).addr
                != entry_model.addr by {
                lemma_map_of_contains(old_models, entry_model.addr);
            }
            lemma_wf_models_push(old_models, entry_model);
            assert(models.drop_last() =~= old_models);
        }
        Ok(record)
    }
}

/// Law: single creation. When a creation attempt succeeds, an identical
/// attempt against the resulting store — same parties, same salt — fails with
/// `AlreadyExists`: the record at the derived address is never overwritten.
pub proof fn lemma_single_creation(
    program_id: Seq<u8>,
    min_balance: u64,
    records: Map<Seq<u8>, RecordModel>,
    ctx: CreateEscrowModel,
    salt: u64,
)
    requires
        create_outcome(program_id, min_balance, records, ctx, salt) is Ok,
    ensures
        create_outcome(
            program_id,
            min_balance,
            create_post(program_id, min_balance, records, ctx, salt),
            ctx,
            salt,
        ) == Err::<RecordModel, EscrowError>(EscrowError::AlreadyExists),
{
}

/// Law: authorization enforcement. Without a valid proof for party A and for
/// the payer, creation fails with `Unauthorized` — whatever the other inputs
/// — and the store is untouched.
pub proof fn lemma_authorization_enforcement(
    program_id: Seq<u8>,
    min_balance: u64,
    records: Map<Seq<u8>, RecordModel>,
    ctx: CreateEscrowModel,
    salt: u64,
)
    requires
        !ctx.from_signed || !ctx.paymaster_signed,
    ensures
        create_outcome(program_id, min_balance, records, ctx, salt) == Err::<
            RecordModel,
            EscrowError,
        >(EscrowError::Unauthorized),
        create_post(program_id, min_balance, records, ctx, salt) == records,
{
}

/// Law: field fidelity. A successful creation writes exactly one record, at
/// the derived address, holding party A, party B and the salt exactly as the
/// request supplied them; every other address is untouched.
pub proof fn lemma_field_fidelity(
    program_id: Seq<u8>,
    min_balance: u64,
    records: Map<Seq<u8>, RecordModel>,
    ctx: CreateEscrowModel,
    salt: u64,
)
    requires
        create_outcome(program_id, min_balance, records, ctx, salt) is Ok,
    ensures
        ({
            let rec = create_outcome(program_id, min_balance, records, ctx, salt).unwrap();
            let addr = spec_derive(ctx.from, ctx.to, salt, program_id).unwrap().0;
            let post = create_post(program_id, min_balance, records, ctx, salt);
            &&& rec.from == ctx.from
            &&& rec.to == ctx.to
            &&& rec.salt == salt
            &&& !records.contains_key(addr)
            &&& post.contains_key(addr)
            &&& post[addr] == rec
            &&& forall|k: Seq<u8>| k != addr ==> post.contains_key(k) == records.contains_key(k)
            &&& forall|k: Seq<u8>|
                k != addr && records.contains_key(k) ==> post[k] == records[k]
        }),
{
}

} // verus!

