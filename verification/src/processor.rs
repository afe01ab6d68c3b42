//! The instruction processor: decodes the request, requires the caller's
//! signature, derives the record's storage address, and — once the host has
//! allocated the slot — validates the account list and funding and writes
//! the record exactly once.
//!
//! The host runtime is an external collaborator. It hands the processor the
//! account keys, the signer flag, the slot's balance and bytes, and the
//! minimum balance its fee rules require; it performs the one allocation
//! between [`Processor::prepare_initialization`], which decides whether and
//! what to allocate, and [`Processor::complete_initialization`], which
//! checks every invariant of the allocated slot and populates it.
use vstd::prelude::*;

use crate::error::IntroError;
use crate::instruction::{spec_decode, IntroInstruction, IntroInstructionV};
use crate::state::{spec_decode_record, spec_encode_record, MovieInfo, MovieInfoV};

verus! {

/// A 32-byte account or program identity, held as plain bytes.
#[derive(Debug, Clone, PartialEq, Eq)]
pub struct Address {
    pub bytes: Vec<u8>,
}

impl View for Address {
    type V = Seq<u8>;

    open spec fn view(&self) -> Seq<u8> {
        self.bytes@
    }
}

impl Address {
    /// An identity is exactly 32 bytes.
    pub open spec fn wf(&self) -> bool {
        self.bytes@.len() == 32
    }
}

/// The identity of the system allocator: the all-zero key.
pub open spec fn system_allocator_id() -> Seq<u8> {
    Seq::new(32, |i: int| 0u8)
}

/// What address derivation returns for a caller key, title bytes and
/// program identity. The search is deterministic, so the outcome is a
/// function of those three values alone; `None` is the outcome when no
/// viable bump exists or a seed is over the seed-length limit.
pub uninterp spec fn derive_pda(caller: Seq<u8>, title: Seq<u8>, program: Seq<u8>) -> Option<
    (Seq<u8>, u8),
>;

/// Relies on `solana_program::pubkey::Pubkey::try_find_program_address`,
/// seeded with the caller key and the title bytes: the bump search walks
/// 255 down to 1 and returns the first off-curve derived address, a
/// deterministic computation from the seeds and the program identity
/// alone, and returns `None` when no bump works or a seed is too long.
#[verifier::external_body]
fn find_derived_address(caller: &Address, title: &Vec<u8>, program: &Address) -> (r: Option<
    (Address, u8),
>)
    requires
        caller.wf(),
        program.wf(),
    ensures
        (match r {
            Some(ab) => ab.0.wf() && derive_pda(caller@, title@, program@) == Some((ab.0@, ab.1)),
            None => derive_pda(caller@, title@, program@) is None,
        }),
{
    let program_key = match solana_program::pubkey::Pubkey::try_from(program.bytes.as_slice()) {
        Ok(k) => k,
        Err(_) => return None,
    };
    let seeds: &[&[u8]] = &[caller.bytes.as_slice(), title.as_slice()];
    match solana_program::pubkey::Pubkey::try_find_program_address(seeds, &program_key) {
        Some((addr, bump)) => Some((Address { bytes: addr.to_bytes().to_vec() }, bump)),
        None => None,
    }
}

/// Relies on `solana_program::system_program::ID` being the all-zero key
/// (base58 `11111111111111111111111111111111`): equality against it is
/// equality of the 32 key bytes with zero.
#[verifier::external_body]
fn is_system_allocator_key(key: &Address) -> (r: bool)
    ensures
        r == (key@ == system_allocator_id()),
{
    match solana_program::pubkey::Pubkey::try_from(key.bytes.as_slice()) {
        Ok(k) => k == solana_program::system_program::ID,
        Err(_) => false,
    }
}

/// Byte-for-byte equality of two byte vectors.
fn bytes_eq(a: &Vec<u8>, b: &Vec<u8>) -> (r: bool)
    ensures
        r == (a@ == b@),
{
    if a.len() != b.len() {
        return false;
    }
    let mut i: usize = 0;
    while i < a.len()
        invariant
            i <= a@.len(),
            a@.len() == b@.len(),
            forall|j: int| 0 <= j < i ==> a@[j] == b@[j],
        decreases a@.len() - i,
    {
        if a[i] != b[i] {
            return false;
        }
        i += 1;
    }
    proof {
        assert(a@ =~= b@);
    }
    true
}

/// Everything decided before the host allocates the slot: the decoded
/// request, the derived address and bump that authorize the allocation,
/// and the slot size to request.
#[derive(Debug, Clone, PartialEq, Eq)]
pub struct InitPlan {
    /// The derived address the slot must be allocated at.
    pub pda: Address,
    /// The bump that, appended to the seeds, reproduces `pda`.
    pub bump: u8,
    /// The slot size to request: a fixed two-byte overhead plus the
    /// length-prefixed `title` and `description`. The sizing rule budgets
    /// nothing for the variable-width `recipient` or the fixed-width
    /// `funding` and `entry` — a deliberate asymmetry of the sizing rule,
    /// not of the record layout, so a slot of this size is smaller than the
    /// record written into it.
    pub account_len: usize,
    /// The decoded request whose fields the record will carry.
    pub request: IntroInstruction,
}

/// The mathematical value of an [`InitPlan`].
pub ghost struct PlanV {
    pub pda: Seq<u8>,
    pub bump: u8,
    pub account_len: int,
    pub request: IntroInstructionV,
}

impl View for InitPlan {
    type V = PlanV;

    open spec fn view(&self) -> PlanV {
        PlanV {
            pda: self.pda@,
            bump: self.bump,
            account_len: self.account_len as int,
            request: self.request@,
        }
    }
}

impl InitPlan {
    /// A plan fit to execute: a 32-byte derived address and a valid request.
    pub open spec fn wf(&self) -> bool {
        &&& self.pda.wf()
        &&& self.request@.wf()
    }
}

/// The record populated from a decoded request, with the guard raised.
pub open spec fn populated_record(req: IntroInstructionV) -> MovieInfoV {
    match req {
        IntroInstructionV::InitMovieRating {
            title,
            rating,
            description,
            funding,
            recipient,
            entry,
        } => MovieInfoV { is_initialized: true, rating, title, description, funding, recipient, entry },
    }
}

/// What the pre-allocation phase decides, in order: a decode failure is
/// surfaced as is; an unsigned call is `Unauthorized`; a failed address
/// derivation is `InvalidArgument`; otherwise the plan, whose slot size is
/// the two guard bytes plus the length-prefixed title and description.
pub open spec fn spec_prepare(
    program: Seq<u8>,
    caller: Seq<u8>,
    caller_signed: bool,
    data: Seq<u8>,
) -> Result<PlanV, IntroError> {
    match spec_decode(data) {
        Err(e) => Err(e),
        Ok(req) => {
            if !caller_signed {
                Err(IntroError::Unauthorized)
            } else {
                match req {
                    IntroInstructionV::InitMovieRating { title, description, .. } => {
                        match derive_pda(caller, title, program) {
                            None => Err(IntroError::InvalidArgument),
                            Some(ab) => Ok(
                                PlanV {
                                    pda: ab.0,
                                    bump: ab.1,
                                    account_len: 1 + 1 + (4 + title.len() as int) + (4
                                        + description.len() as int),
                                    request: req,
                                },
                            ),
                        }
                    },
                }
            }
        },
    }
}

/// What the post-allocation phase does, in order: the declared allocator
/// must be the system allocator and the allocated account must sit at the
/// derived address (`InvalidArgument`); the slot's balance must reach the
/// host's fee-exemption threshold (`NotRentExempt`); the slot's bytes must
/// read back as a record (`Malformed`) whose guard is still down
/// (`AlreadyInitialized`); then, and only then, the slot's bytes become the
/// encoded populated record. On every failure the slot is unchanged.
pub open spec fn spec_complete(
    plan: PlanV,
    user_key: Seq<u8>,
    user_lamports: u64,
    data: Seq<u8>,
    sys_key: Seq<u8>,
    required_balance: u64,
) -> (Result<(), IntroError>, Seq<u8>) {
    if sys_key != system_allocator_id() {
        (Err(IntroError::InvalidArgument), data)
    } else if user_key != plan.pda {
        (Err(IntroError::InvalidArgument), data)
    } else if user_lamports < required_balance {
        (Err(IntroError::NotRentExempt), data)
    } else {
        match spec_decode_record(data) {
            None => (Err(IntroError::Malformed), data),
            Some(rec) => {
                if rec.is_initialized {
                    (Err(IntroError::AlreadyInitialized), data)
                } else {
                    (Ok(()), spec_encode_record(populated_record(plan.request)))
                }
            },
        }
    }
}

/// The record-creation processor.
pub struct Processor;

impl Processor {
    /// Derives the record's storage address and bump for a caller and a
    /// title under this program. Reproducible: the result is a function of
    /// the three identities alone, so any client can compute it off-line.
    pub fn derive_record_address(caller: &Address, title: &Vec<u8>, program_id: &Address) -> (r:
        Option<(Address, u8)>)
        requires
            caller.wf(),
            program_id.wf(),
        ensures
            (match r {
                Some(ab) => ab.0.wf() && derive_pda(caller@, title@, program_id@) == Some(
                    (ab.0@, ab.1),
                ),
                None => derive_pda(caller@, title@, program_id@) is None,
            }),
    {
        find_derived_address(caller, title, program_id)
    }

    /// Everything before the slot exists: decode the request, require the
    /// caller's signature — before any account is touched — and derive the
    /// address, bump and size of the slot the host is to allocate.
    pub fn prepare_initialization(
        program_id: &Address,
        initializer_key: &Address,
        initializer_is_signer: bool,
        instruction_data: &[u8],
    ) -> (r: Result<InitPlan, IntroError>)
        requires
            program_id.wf(),
            initializer_key.wf(),
        ensures
            (match r {
                Ok(plan) => spec_prepare(
                    program_id@,
                    initializer_key@,
                    initializer_is_signer,
                    instruction_data@,
                ) == Ok::<PlanV, IntroError>(plan@) && plan.wf(),
                Err(e) => spec_prepare(
                    program_id@,
                    initializer_key@,
                    initializer_is_signer,
                    instruction_data@,
                ) == Err::<PlanV, IntroError>(e),
            }),
    {
        let request = match IntroInstruction::unpack(instruction_data) {
            Ok(v) => v,
            Err(e) => return Err(e),
        };
        if !initializer_is_signer {
            return Err(IntroError::Unauthorized);
        }
        let n: usize = instruction_data.len();
        match &request {
            IntroInstruction::InitMovieRating { title, description, .. } => {
                let (pda, bump) = match Processor::derive_record_address(
                    initializer_key,
                    title,
                    program_id,
                ) {
                    Some(ab) => ab,
                    None => return Err(IntroError::InvalidArgument),
                };
                assert(title@.len() + description@.len() + 22 <= n);
                let account_len: usize = 1 + 1 + (4 + title.len()) + (4 + description.len());
                Ok(InitPlan { pda, bump, account_len, request })
            },
        }
    }

    /// Everything after the host has allocated the slot: validate the
    /// allocator identity, the allocated address and the slot's funding,
    /// require the slot's guard to be down, and write the populated record
    /// into the slot in one piece. `required_balance` is the minimum
    /// balance the host's fee rules demand of this slot.
    pub fn complete_initialization(
        plan: &InitPlan,
        user_key: &Address,
        user_lamports: u64,
        user_data: &mut Vec<u8>,
        system_program_key: &Address,
        required_balance: u64,
    ) -> (r: Result<(), IntroError>)
        requires
            plan.wf(),
        ensures
            ({
                let outcome = spec_complete(
                    plan@,
                    user_key@,
                    user_lamports,
                    old(user_data)@,
                    system_program_key@,
                    required_balance,
                );
                r == outcome.0 && final(user_data)@ == outcome.1
            }),
    {
        if !is_system_allocator_key(system_program_key) {
            return Err(IntroError::InvalidArgument);
        }
        if !bytes_eq(&user_key.bytes, &plan.pda.bytes) {
            return Err(IntroError::InvalidArgument);
        }
        if user_lamports < required_balance {
            return Err(IntroError::NotRentExempt);
        }
        let current = match MovieInfo::deserialize(user_data.as_slice()) {
            Some(m) => m,
            None => return Err(IntroError::Malformed),
        };
        if current.is_initialized() {
            return Err(IntroError::AlreadyInitialized);
        }
        match &plan.request {
            IntroInstruction::InitMovieRating {
                title,
                rating,
                description,
                funding,
                recipient,
                entry,
            } => {
                let record = MovieInfo {
                    is_initialized: true,
                    rating: *rating,
                    title: clone_bytes(title),
                    description: clone_bytes(description),
                    funding: *funding,
                    recipient: clone_bytes(recipient),
                    entry: *entry,
                };
                assert(record@ == populated_record(plan@.request));
                let bytes = record.serialize();
                *user_data = bytes;
                Ok(())
            },
        }
    }
}

/// An owned copy of a byte vector.
fn clone_bytes(v: &Vec<u8>) -> (r: Vec<u8>)
    ensures
        r@ == v@,
{
    let c = v.clone();
    proof {
        assert forall|i: int| 0 <= i < c@.len() implies c@[i] == v@[i] by {
            assert(cloned::<u8>(v@[i], c@[i]));
        }
        assert(c@ =~= v@);
    }
    c
}

/// Address derivation is reproducible: two derivations from the same
/// caller, title and program identity agree, address and bump both.
pub proof fn lemma_derivation_deterministic(
    caller: Seq<u8>,
    title: Seq<u8>,
    program: Seq<u8>,
    r1: Option<(Seq<u8>, u8)>,
    r2: Option<(Seq<u8>, u8)>,
)
    requires
        r1 == derive_pda(caller, title, program),
        r2 == derive_pda(caller, title, program),
    ensures
        r1 == r2,
{
}

/// An unsigned call is rejected with `Unauthorized` before any account
/// work: whatever else the request says, no plan — and so no allocation —
/// comes out of it.
pub proof fn lemma_unsigned_call_rejected(program: Seq<u8>, caller: Seq<u8>, data: Seq<u8>)
    requires
        spec_decode(data) is Ok,
    ensures
        spec_prepare(program, caller, false, data) == Err::<PlanV, IntroError>(
            IntroError::Unauthorized,
        ),
{
}

/// A call whose declared allocator is not the genuine system allocator
/// fails with `InvalidArgument`, and the slot's bytes are untouched.
pub proof fn lemma_wrong_allocator_rejected(
    plan: PlanV,
    user_key: Seq<u8>,
    user_lamports: u64,
    data: Seq<u8>,
    sys_key: Seq<u8>,
    required_balance: u64,
)
    requires
        sys_key != system_allocator_id(),
    ensures
        spec_complete(plan, user_key, user_lamports, data, sys_key, required_balance) == (Err::<
            (),
            IntroError,
        >(IntroError::InvalidArgument), data),
{
}

/// Success is owed on a fresh slot: against an all-zero slot large enough
/// for the record's fixed fields, with the genuine allocator, the account
/// at the derived address and a balance that meets the threshold,
/// completion succeeds and the slot becomes exactly the encoded populated
/// record.
pub proof fn lemma_fresh_slot_initializes(
    plan: PlanV,
    user_key: Seq<u8>,
    user_lamports: u64,
    data: Seq<u8>,
    sys_key: Seq<u8>,
    required_balance: u64,
)
    requires
        plan.request.wf(),
        sys_key == system_allocator_id(),
        user_key == plan.pda,
        user_lamports >= required_balance,
        data.len() >= 22,
        forall|i: int| 0 <= i < data.len() ==> data[i] == 0u8,
    ensures
        spec_complete(plan, user_key, user_lamports, data, sys_key, required_balance) == (Ok::<
            (),
            IntroError,
        >(()), spec_encode_record(populated_record(plan.request))),
{
    crate::state::lemma_zeroed_slot_uninitialized(data);
}

/// Writing a record is exactly-once: a first completion that succeeds
/// leaves the slot holding the populated record, guard raised and every
/// field taken from the request; a second completion against that slot,
/// with the same accounts and threshold, fails with `AlreadyInitialized`
/// and leaves the slot exactly as the first call left it.
pub proof fn lemma_second_initialization_rejected(
    plan: PlanV,
    user_key: Seq<u8>,
    user_lamports: u64,
    data: Seq<u8>,
    sys_key: Seq<u8>,
    required_balance: u64,
)
    requires
        plan.request.wf(),
        spec_complete(plan, user_key, user_lamports, data, sys_key, required_balance).0 == Ok::<
            (),
            IntroError,
        >(()),
    ensures
        ({
            let written = spec_complete(
                plan,
                user_key,
                user_lamports,
                data,
                sys_key,
                required_balance,
            ).1;
            &&& spec_decode_record(written) == Some(populated_record(plan.request))
            &&& populated_record(plan.request).is_initialized
            &&& spec_complete(plan, user_key, user_lamports, written, sys_key, required_balance)
                == (Err::<(), IntroError>(IntroError::AlreadyInitialized), written)
        }),
{
    let populated = populated_record(plan.request);
    crate::state::lemma_record_round_trip(populated);
}

} // verus!
