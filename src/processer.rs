//! Decisions of the four vesting operations. Each handler checks what the
//! accounts it is shown hold, updates the vesting account's buffer, and says
//! which transfer the caller must make; on any failure the buffer is left as
//! it was.
use vstd::prelude::*;

use crate::address::{
    same_key, token_amount, token_error, token_owner, token_program_id, token_program_key,
    unpack_token_account, DerivedAuthority,
};
use crate::error::VestingError;
use crate::instruction::{stored, Schedule};
use crate::state::{
    decode_schedules, lemma_decode_truncates, header_bytes, lemma_schedules_bytes, lemma_schedules_round_trip,
    pack_schedules_at, schedules_bytes, unpack_schedules, VestingSchedule, VestingScheduleInfo,
    HEADER_LEN, SCHEDULE_LEN,
};

verus! {

/// Handlers of the vesting operations.
pub struct Processer {}

/// What ChangeDestination reads of the accounts it is given.
#[derive(Clone, Debug)]
pub struct ChangeAccounts {
    /// Address of the vesting account.
    pub vesting_account_key: [u8; 32],
    /// Address of the current destination token account.
    pub destination_token_account_key: [u8; 32],
    /// Data of the current destination token account.
    pub destination_token_account_data: Vec<u8>,
    /// Address of the owner of the current destination token account.
    pub destination_owner_key: [u8; 32],
    /// Whether that owner signed the transaction.
    pub destination_owner_is_signer: bool,
    /// Address of the new destination token account.
    pub new_destination_token_account_key: [u8; 32],
}

/// The result of ChangeDestination on a vesting buffer `data`.
pub open spec fn change_destination_outcome(
    authority: DerivedAuthority,
    accounts: ChangeAccounts,
    data: Seq<u8>,
) -> Result<(), VestingError> {
    let t = accounts.destination_token_account_data@;
    if data.len() < 65 {
        Err(VestingError::InvalidAccountData)
    } else if data[64] != 1 {
        Err(VestingError::UninitializedAccount)
    } else if authority.address@ != accounts.vesting_account_key@ {
        Err(VestingError::InvalidArgument)
    } else if data.subrange(0, 32) != accounts.destination_token_account_key@ {
        Err(VestingError::InvalidArgument)
    } else if !accounts.destination_owner_is_signer {
        Err(VestingError::InvalidArgument)
    } else if token_error(t) is Some {
        Err(token_error(t).unwrap())
    } else if token_owner(t) != accounts.destination_owner_key@ {
        Err(VestingError::InvalidArgument)
    } else {
        Ok(())
    }
}

/// The vesting buffer `data` with its destination replaced by `destination`.
pub open spec fn with_destination(data: Seq<u8>, destination: Seq<u8>) -> Seq<u8> {
    destination + data.subrange(32, data.len() as int)
}

/// Sum of a sequence of amounts, in unbounded integers.
pub open spec fn sum_of(s: Seq<u64>) -> int
    decreases s.len(),
{
    if s.len() == 0 {
        0
    } else {
        sum_of(s.drop_last()) + s.last()
    }
}

/// The amounts of a list of release events.
pub open spec fn amounts(s: Seq<VestingSchedule>) -> Seq<u64> {
    s.map_values(|e: VestingSchedule| e.amount)
}

/// A prefix of a sequence of amounts never sums to more than the whole.
pub proof fn lemma_sum_prefix(s: Seq<u64>, k: int)
    requires
        0 <= k <= s.len(),
    ensures
        sum_of(s.take(k)) <= sum_of(s),
    decreases s.len(),
{
    if k < s.len() {
        lemma_sum_prefix(s.drop_last(), k);
        assert(s.drop_last().take(k) =~= s.take(k));
    } else {
        assert(s.take(k) =~= s);
    }
}

/// One more element of a prefix adds that element to its sum.
pub proof fn lemma_sum_step(s: Seq<u64>, k: int)
    requires
        0 <= k < s.len(),
    ensures
        sum_of(s.take(k + 1)) == sum_of(s.take(k)) + s[k],
{
    assert(s.take(k + 1).drop_last() =~= s.take(k));
}

/// What Create reads of the accounts it is given.
#[derive(Clone, Debug)]
pub struct CreateAccounts {
    /// Address of the vesting account.
    pub vesting_account_key: [u8; 32],
    /// Program that owns the vesting account.
    pub vesting_account_owner: [u8; 32],
    /// Data of the token account that will hold the escrowed tokens.
    pub vesting_token_account_data: Vec<u8>,
    /// Whether the owner of the source token account signed the transaction.
    pub source_owner_is_signer: bool,
    /// Data of the token account the tokens come from.
    pub source_token_account_data: Vec<u8>,
}

/// The result of Create on a vesting buffer `data` with release events
/// `events`: the amount to move into escrow, or the first check that fails.
pub open spec fn create_outcome(
    authority: DerivedAuthority,
    accounts: CreateAccounts,
    data: Seq<u8>,
    events: Seq<VestingSchedule>,
) -> Result<u64, VestingError> {
    let v = accounts.vesting_token_account_data@;
    let src = accounts.source_token_account_data@;
    let total = sum_of(amounts(events));
    if authority.address@ != accounts.vesting_account_key@ {
        Err(VestingError::InvalidArgument)
    } else if accounts.vesting_account_owner@ != authority.program_id@ {
        Err(VestingError::InvalidArgument)
    } else if !accounts.source_owner_is_signer {
        Err(VestingError::InvalidArgument)
    } else if data.len() < 65 {
        Err(VestingError::InvalidAccountData)
    } else if data[64] != 0 {
        Err(VestingError::InvalidArgument)
    } else if token_error(v) is Some {
        Err(token_error(v).unwrap())
    } else if token_owner(v) != authority.address@ {
        Err(VestingError::InvalidArgument)
    } else if v[72] == 1 {
        Err(VestingError::InvalidAccountData)
    } else if v[129] == 1 {
        Err(VestingError::InvalidAccountData)
    } else if data.len() != 65 + 16 * events.len() {
        Err(VestingError::InvalidAccountData)
    } else if total > u64::MAX {
        Err(VestingError::InvalidInstructionData)
    } else if token_error(src) is Some {
        Err(token_error(src).unwrap())
    } else if token_amount(src) < total {
        Err(VestingError::InsufficientFunds)
    } else {
        Ok(total as u64)
    }
}

/// The buffer that a successful Create leaves: the initialized header, then
/// the release events.
pub open spec fn created_bytes(
    destination: Seq<u8>,
    mint: Seq<u8>,
    events: Seq<VestingSchedule>,
) -> Seq<u8> {
    destination + mint + seq![1u8] + schedules_bytes(events)
}

/// What Unlock reads of the accounts it is given.
#[derive(Clone, Debug)]
pub struct UnlockAccounts {
    /// Address given as the token program.
    pub token_program_key: [u8; 32],
    /// Address of the vesting account.
    pub vesting_account_key: [u8; 32],
    /// Data of the token account that holds the escrowed tokens.
    pub vesting_token_account_data: Vec<u8>,
    /// Address of the token account that receives the released tokens.
    pub destination_token_account_key: [u8; 32],
}

/// The release events stored in a vesting buffer after its header.
pub open spec fn stored_events(data: Seq<u8>) -> Seq<VestingSchedule> {
    decode_schedules(data.subrange(65, data.len() as int))
}

/// Whether an event's time has come at `now`.
pub open spec fn matured(e: VestingSchedule, now: u64) -> bool {
    e.release_time <= now
}

/// For each event, the amount it releases at `now`: all of it once matured,
/// nothing before.
pub open spec fn matured_amounts(s: Seq<VestingSchedule>, now: u64) -> Seq<u64> {
    s.map_values(|e: VestingSchedule| if matured(e, now) { e.amount } else { 0 })
}

/// The events after a release at `now`: every matured event's amount is 0,
/// the others are untouched.
pub open spec fn release(s: Seq<VestingSchedule>, now: u64) -> Seq<VestingSchedule> {
    s.map_values(
        |e: VestingSchedule|
            if matured(e, now) {
                VestingSchedule { release_time: e.release_time, amount: 0 }
            } else {
                e
            },
    )
}

/// The result of Unlock at time `now` on a vesting buffer `data`: the
/// amount to release, or the first check that fails.
pub open spec fn unlock_outcome(
    authority: DerivedAuthority,
    accounts: UnlockAccounts,
    data: Seq<u8>,
    now: u64,
) -> Result<u64, VestingError> {
    let v = accounts.vesting_token_account_data@;
    let total = sum_of(matured_amounts(stored_events(data), now));
    if authority.address@ != accounts.vesting_account_key@ {
        Err(VestingError::InvalidArgument)
    } else if accounts.token_program_key@ != token_program_key() {
        Err(VestingError::InvalidArgument)
    } else if data.len() < 65 {
        Err(VestingError::InvalidAccountData)
    } else if data[64] != 1 {
        Err(VestingError::UninitializedAccount)
    } else if data.subrange(0, 32) != accounts.destination_token_account_key@ {
        Err(VestingError::InvalidArgument)
    } else if token_error(v) is Some {
        Err(token_error(v).unwrap())
    } else if token_owner(v) != authority.address@ {
        Err(VestingError::InvalidArgument)
    } else if total > u64::MAX {
        Err(VestingError::InvalidInstructionData)
    } else if total == 0 {
        Err(VestingError::InvalidArgument)
    } else {
        Ok(total as u64)
    }
}

/// The buffer that a successful Unlock at `now` leaves: header and trailing
/// bytes as they were, every matured event's amount set to 0.
pub open spec fn unlocked_bytes(data: Seq<u8>, now: u64) -> Seq<u8> {
    let events = stored_events(data);
    data.subrange(0, 65) + schedules_bytes(release(events, now)) + data.subrange(
        65 + 16 * events.len() as int,
        data.len() as int,
    )
}

/// Create fails, and so leaves the vesting buffer byte for byte as it was,
/// wherever any single one of its preconditions fails: the derived address
/// is not the vesting account, the program does not own it, the source
/// owner did not sign, the plan is already initialized, the escrow token
/// account is owned by another address, has a delegate or a close
/// authority, or the buffer's size does not fit the events.
pub proof fn lemma_create_preconditions(
    authority: DerivedAuthority,
    accounts: CreateAccounts,
    data: Seq<u8>,
    events: Seq<VestingSchedule>,
)
    requires
        ({
            let v = accounts.vesting_token_account_data@;
            ||| authority.address@ != accounts.vesting_account_key@
            ||| accounts.vesting_account_owner@ != authority.program_id@
            ||| !accounts.source_owner_is_signer
            ||| data.len() >= 65 && data[64] != 0
            ||| token_error(v) is None && token_owner(v) != authority.address@
            ||| token_error(v) is None && v[72] == 1
            ||| token_error(v) is None && v[129] == 1
            ||| data.len() != 65 + 16 * events.len()
        }),
    ensures
        create_outcome(authority, accounts, data, events) is Err,
{
}

/// Create with events whose amounts sum beyond the range of `u64` fails,
/// and so moves no tokens; once the account checks pass, it fails with
/// `InvalidInstructionData`.
pub proof fn lemma_create_overflow(
    authority: DerivedAuthority,
    accounts: CreateAccounts,
    data: Seq<u8>,
    events: Seq<VestingSchedule>,
)
    requires
        sum_of(amounts(events)) > u64::MAX,
    ensures
        create_outcome(authority, accounts, data, events) is Err,
        ({
            let v = accounts.vesting_token_account_data@;
            &&& authority.address@ == accounts.vesting_account_key@
            &&& accounts.vesting_account_owner@ == authority.program_id@
            &&& accounts.source_owner_is_signer
            &&& data.len() == 65 + 16 * events.len()
            &&& data[64] == 0
            &&& token_error(v) is None
            &&& token_owner(v) == authority.address@
            &&& v[72] != 1
            &&& v[129] != 1
        }) ==> create_outcome(authority, accounts, data, events) == Err::<u64, VestingError>(
            VestingError::InvalidInstructionData,
        ),
{
}

/// A sequence of zero amounts sums to zero.
pub proof fn lemma_sum_zero(s: Seq<u64>)
    requires
        forall|i: int| 0 <= i < s.len() ==> s[i] == 0,
    ensures
        sum_of(s) == 0,
    decreases s.len(),
{
    if s.len() > 0 {
        lemma_sum_zero(s.drop_last());
    }
}

/// After a release at `now`, nothing is left to release at `now`.
pub proof fn lemma_release_drains(s: Seq<VestingSchedule>, now: u64)
    ensures
        sum_of(matured_amounts(release(s, now), now)) == 0,
{
    lemma_sum_zero(matured_amounts(release(s, now), now));
}

/// The events read back from a buffer after an Unlock at `now` are the
/// released events, and the header is kept.
pub proof fn lemma_unlocked_events(data: Seq<u8>, now: u64)
    requires
        data.len() >= 65,
    ensures
        unlocked_bytes(data, now).len() == data.len(),
        unlocked_bytes(data, now).subrange(0, 65) == data.subrange(0, 65),
        stored_events(unlocked_bytes(data, now)) == release(stored_events(data), now),
{
    let events = stored_events(data);
    let rel = release(events, now);
    let tail = data.subrange(65, data.len() as int);
    let m = events.len();
    assert(m == tail.len() / 16);
    assert(16 * m <= tail.len() < 16 * m + 16) by (nonlinear_arith)
        requires m == tail.len() / 16;
    lemma_schedules_bytes(rel);
    let u = unlocked_bytes(data, now);
    assert(u.subrange(0, 65) =~= data.subrange(0, 65));
    let ut = u.subrange(65, u.len() as int);
    let r = (tail.len() - 16 * m) as nat;
    lemma_decode_truncates(ut, m, r);
    assert(ut.subrange(0, 16 * m as int) =~= schedules_bytes(rel));
    lemma_schedules_round_trip(rel);
}

/// A second Unlock at the same time, on the buffer that a successful Unlock
/// left, fails with `InvalidArgument`: nothing has newly matured.
pub proof fn lemma_unlock_twice(
    authority: DerivedAuthority,
    accounts: UnlockAccounts,
    data: Seq<u8>,
    now: u64,
)
    requires
        unlock_outcome(authority, accounts, data, now) is Ok,
    ensures
        unlock_outcome(authority, accounts, unlocked_bytes(data, now), now)
            == Err::<u64, VestingError>(VestingError::InvalidArgument),
{
    lemma_unlocked_events(data, now);
    let u = unlocked_bytes(data, now);
    assert(u.subrange(0, 32) =~= data.subrange(0, 65).subrange(0, 32));
    assert(data.subrange(0, 32) =~= data.subrange(0, 65).subrange(0, 32));
    assert(u[64] == data.subrange(0, 65)[64]);
    lemma_release_drains(stored_events(data), now);
}

/// Two amounts sum to their sum.
proof fn lemma_sum_two(s: Seq<u64>)
    requires
        s.len() == 2,
    ensures
        sum_of(s) == s[0] + s[1],
{
    let p = s.drop_last();
    assert(p.drop_last() =~= Seq::<u64>::empty());
    assert(sum_of(p.drop_last()) == 0);
    assert(sum_of(p) == s[0]);
}

/// The two-event schedule `[(t1, a1), (t2, a2)]`.
pub open spec fn two_events(t1: u64, a1: u64, t2: u64, a2: u64) -> Seq<VestingSchedule> {
    seq![
        VestingSchedule { release_time: t1, amount: a1 },
        VestingSchedule { release_time: t2, amount: a2 },
    ]
}

/// With events `[(t1, a1), (t2, a2)]` and `t1 <= now < t2`, an Unlock at
/// `now` releases exactly `a1`, sets the first amount to 0, leaves the second
/// event untouched, and leaves nothing more to release at `now`.
pub proof fn lemma_unlock_scan(t1: u64, a1: u64, t2: u64, a2: u64, now: u64)
    requires
        t1 <= now < t2,
    ensures
        sum_of(matured_amounts(two_events(t1, a1, t2, a2), now)) == a1,
        release(two_events(t1, a1, t2, a2), now) == two_events(t1, 0, t2, a2),
        sum_of(matured_amounts(release(two_events(t1, a1, t2, a2), now), now)) == 0,
{
    let e = two_events(t1, a1, t2, a2);
    lemma_sum_two(matured_amounts(e, now));
    assert(release(e, now) =~= two_events(t1, 0, t2, a2));
    lemma_release_drains(e, now);
}

/// With events `[(t1, a1), (t2, a2)]` and `t1 < t2`, an Unlock at `t1`
/// releases `a1` and a later one at `t2` releases `a2`: `a1 + a2` in all,
/// and both amounts end at 0.
pub proof fn lemma_unlock_advancing(t1: u64, a1: u64, t2: u64, a2: u64)
    requires
        t1 < t2,
    ensures
        sum_of(matured_amounts(two_events(t1, a1, t2, a2), t1)) == a1,
        release(two_events(t1, a1, t2, a2), t1) == two_events(t1, 0, t2, a2),
        sum_of(matured_amounts(two_events(t1, 0, t2, a2), t2)) == a2,
        release(two_events(t1, 0, t2, a2), t2) == two_events(t1, 0, t2, 0),
        sum_of(matured_amounts(two_events(t1, a1, t2, a2), t1)) + sum_of(
            matured_amounts(two_events(t1, 0, t2, a2), t2),
        ) == a1 + a2,
{
    lemma_unlock_scan(t1, a1, t2, a2, t1);
    let e1 = two_events(t1, 0, t2, a2);
    lemma_sum_two(matured_amounts(e1, t2));
    assert(release(e1, t2) =~= two_events(t1, 0, t2, 0));
}

/// A change of destination changes only the destination: the mint, the
/// initialized flag and every release event stay byte for byte as they were.
pub proof fn lemma_change_destination_isolation(data: Seq<u8>, destination: Seq<u8>)
    requires
        data.len() >= 65,
        destination.len() == 32,
    ensures
        with_destination(data, destination).len() == data.len(),
        with_destination(data, destination).subrange(0, 32) == destination,
        with_destination(data, destination).subrange(32, data.len() as int) == data.subrange(
            32,
            data.len() as int,
        ),
        with_destination(data, destination).subrange(32, 64) == data.subrange(32, 64),
        with_destination(data, destination)[64] == data[64],
        stored_events(with_destination(data, destination)) == stored_events(data),
{
    let d = with_destination(data, destination);
    assert(d.subrange(0, 32) =~= destination);
    assert(d.subrange(32, data.len() as int) =~= data.subrange(32, data.len() as int));
    assert(d.subrange(32, 64) =~= data.subrange(32, 64));
    assert(d.subrange(65, d.len() as int) =~= data.subrange(65, data.len() as int));
}

/// Reads the header of a vesting buffer, which must be initialized.
fn read_header(data: &[u8]) -> (r: Result<VestingScheduleInfo, VestingError>)
    requires
        data@.len() >= 65,
    ensures
        data@[64] != 1 ==> r == Err::<VestingScheduleInfo, VestingError>(
            VestingError::UninitializedAccount,
        ),
        data@[64] == 1 ==> (r matches Ok(h) && h.destination_address@ == data@.subrange(0, 32)
            && h.mint_address@ == data@.subrange(32, 64) && h.is_initialized),
{
    let _n = data.len();
    VestingScheduleInfo::unpack(vstd::slice::slice_subrange(data, 0, HEADER_LEN))
}

impl Processer {
    /// Initialize: checks that the vesting account is the one the seed
    /// derives, and gives the size of the buffer to allocate for
    /// `number_of_schedules` release events.
    pub fn process_init(
        authority: &DerivedAuthority,
        vesting_account_key: &[u8; 32],
        number_of_schedules: u32,
    ) -> (r: Result<u64, VestingError>)
        ensures
            authority.address@ != vesting_account_key@ ==> r == Err::<u64, VestingError>(
                VestingError::InvalidArgument,
            ),
            authority.address@ == vesting_account_key@ ==> r == Ok::<u64, VestingError>(
                (65 + 16 * number_of_schedules) as u64,
            ),
    {
        if !same_key(&authority.address, vesting_account_key) {
            return Err(VestingError::InvalidArgument);
        }
        Ok(HEADER_LEN as u64 + (number_of_schedules as u64) * (SCHEDULE_LEN as u64))
    }

    /// ChangeDestination: once the current destination's owner has signed,
    /// points the vesting account at a new destination token account. Only
    /// the destination field of the buffer changes.
    pub fn process_change_destination(
        authority: &DerivedAuthority,
        accounts: &ChangeAccounts,
        data: &mut [u8],
    ) -> (r: Result<(), VestingError>)
        ensures
            r == change_destination_outcome(*authority, *accounts, old(data)@),
            r is Ok ==> final(data)@ == with_destination(
                old(data)@,
                accounts.new_destination_token_account_key@,
            ),
            r is Err ==> final(data)@ == old(data)@,
    {
        if data.len() < HEADER_LEN {
            return Err(VestingError::InvalidAccountData);
        }
        let header = read_header(data)?;
        if !same_key(&authority.address, &accounts.vesting_account_key) {
            return Err(VestingError::InvalidArgument);
        }
        if !same_key(&header.destination_address, &accounts.destination_token_account_key) {
            return Err(VestingError::InvalidArgument);
        }
        if !accounts.destination_owner_is_signer {
            return Err(VestingError::InvalidArgument);
        }
        let token = unpack_token_account(accounts.destination_token_account_data.as_slice())?;
        if !same_key(&token.owner, &accounts.destination_owner_key) {
            return Err(VestingError::InvalidArgument);
        }
        let new_header = VestingScheduleInfo {
            destination_address: accounts.new_destination_token_account_key,
            mint_address: header.mint_address,
            is_initialized: header.is_initialized,
        };
        let ghost d0 = data@;
        new_header.pack_into_slice(data);
        assert(data@ =~= with_destination(d0, accounts.new_destination_token_account_key@));
        Ok(())
    }

    /// Create: checks the vesting account, the signer and the escrow token
    /// account, writes the header and the release events into the empty
    /// buffer, and gives the total of the events, which the caller moves
    /// from the source token account into escrow.
    pub fn process_create(
        authority: &DerivedAuthority,
        accounts: &CreateAccounts,
        mint_address: &[u8; 32],
        destination_token_address: &[u8; 32],
        schedules: &Vec<Schedule>,
        data: &mut [u8],
    ) -> (r: Result<u64, VestingError>)
        ensures
            r == create_outcome(
                *authority,
                *accounts,
                old(data)@,
                schedules@.map_values(|s: Schedule| stored(s)),
            ),
            r is Ok ==> final(data)@ == created_bytes(
                destination_token_address@,
                mint_address@,
                schedules@.map_values(|s: Schedule| stored(s)),
            ),
            r is Err ==> final(data)@ == old(data)@,
    {
        let ghost events = schedules@.map_values(|s: Schedule| stored(s));
        if !same_key(&authority.address, &accounts.vesting_account_key) {
            return Err(VestingError::InvalidArgument);
        }
        if !same_key(&accounts.vesting_account_owner, &authority.program_id) {
            return Err(VestingError::InvalidArgument);
        }
        if !accounts.source_owner_is_signer {
            return Err(VestingError::InvalidArgument);
        }
        let len = data.len();
        if len < HEADER_LEN {
            return Err(VestingError::InvalidAccountData);
        }
        if data[HEADER_LEN - 1] != 0 {
            return Err(VestingError::InvalidArgument);
        }
        let escrow = unpack_token_account(accounts.vesting_token_account_data.as_slice())?;
        if !same_key(&escrow.owner, &authority.address) {
            return Err(VestingError::InvalidArgument);
        }
        if escrow.has_delegate {
            return Err(VestingError::InvalidAccountData);
        }
        if escrow.has_close_authority {
            return Err(VestingError::InvalidAccountData);
        }
        let n = schedules.len();
        if n > (len - HEADER_LEN) / SCHEDULE_LEN || len - HEADER_LEN != n * SCHEDULE_LEN {
            return Err(VestingError::InvalidAccountData);
        }
        let mut state_schedules: Vec<VestingSchedule> = Vec::with_capacity(n);
        let mut total: u64 = 0;
        let mut k: usize = 0;
        #[verifier::loop_isolation(false)]
        while k < n
            invariant
                n == schedules@.len(),
                events == schedules@.map_values(|s: Schedule| stored(s)),
                k <= n,
                state_schedules@ =~= events.take(k as int),
                total == sum_of(amounts(events).take(k as int)),
            decreases n - k,
        {
            let s = schedules[k];
            proof {
                lemma_sum_step(amounts(events), k as int);
                assert(amounts(events)[k as int] == s.amount);
            }
            match total.checked_add(s.amount) {
                Some(t) => total = t,
                None => {
                    proof {
                        lemma_sum_prefix(amounts(events), k + 1);
                    }
                    return Err(VestingError::InvalidInstructionData);
                },
            }
            state_schedules.push(VestingSchedule { release_time: s.release_time, amount: s.amount });
            k = k + 1;
        }
        proof {
            assert(amounts(events).take(n as int) =~= amounts(events));
            assert(state_schedules@ =~= events);
        }
        let source = unpack_token_account(accounts.source_token_account_data.as_slice())?;
        if source.amount < total {
            return Err(VestingError::InsufficientFunds);
        }
        let header = VestingScheduleInfo {
            destination_address: *destination_token_address,
            mint_address: *mint_address,
            is_initialized: true,
        };
        let ghost d0 = data@;
        header.pack_into_slice(data);
        let ghost d1 = data@;
        pack_schedules_at(&state_schedules, data, HEADER_LEN);
        proof {
            assert(d1.subrange(0, 65) =~= header_bytes(header));
            assert(d1.subrange(65 + 16 * n, d1.len() as int) =~= seq![]);
            assert(data@ =~= created_bytes(destination_token_address@, mint_address@, events));
        }
        Ok(total)
    }

    /// Unlock: checks the vesting account, the token program and the
    /// destination, then releases every event whose time has come at
    /// `current_time`: it sets their amounts to 0 and gives their total,
    /// which the caller moves from escrow to the destination. Fails with
    /// `InvalidArgument` where nothing is left to release.
    pub fn process_unlock(
        authority: &DerivedAuthority,
        accounts: &UnlockAccounts,
        current_time: i64,
        data: &mut [u8],
    ) -> (r: Result<u64, VestingError>)
        ensures
            r == unlock_outcome(*authority, *accounts, old(data)@, current_time as u64),
            r is Ok ==> final(data)@ == unlocked_bytes(old(data)@, current_time as u64),
            r is Err ==> final(data)@ == old(data)@,
    {
        if !same_key(&authority.address, &accounts.vesting_account_key) {
            return Err(VestingError::InvalidArgument);
        }
        let token_program = token_program_id();
        if !same_key(&accounts.token_program_key, &token_program) {
            return Err(VestingError::InvalidArgument);
        }
        let len = data.len();
        if len < HEADER_LEN {
            return Err(VestingError::InvalidAccountData);
        }
        let header = read_header(data)?;
        if !same_key(&header.destination_address, &accounts.destination_token_account_key) {
            return Err(VestingError::InvalidArgument);
        }
        let escrow = unpack_token_account(accounts.vesting_token_account_data.as_slice())?;
        if !same_key(&escrow.owner, &authority.address) {
            return Err(VestingError::InvalidArgument);
        }
        let now = current_time as u64;
        let events = unpack_schedules(vstd::slice::slice_subrange(data, HEADER_LEN, len))?;
        let ghost es = events@;
        let n = events.len();
        let mut released: Vec<VestingSchedule> = Vec::with_capacity(n);
        let mut total: u64 = 0;
        let mut k: usize = 0;
        #[verifier::loop_isolation(false)]
        while k < n
            invariant
                n == es.len(),
                es == stored_events(old(data)@),
                k <= n,
                released@ =~= release(es, now).take(k as int),
                total == sum_of(matured_amounts(es, now).take(k as int)),
            decreases n - k,
        {
            let e = events[k];
            proof {
                lemma_sum_step(matured_amounts(es, now), k as int);
            }
            if e.release_time <= now {
                match total.checked_add(e.amount) {
                    Some(t) => total = t,
                    None => {
                        proof {
                            lemma_sum_prefix(matured_amounts(es, now), k + 1);
                        }
                        return Err(VestingError::InvalidInstructionData);
                    },
                }
                released.push(VestingSchedule { release_time: e.release_time, amount: 0 });
            } else {
                released.push(e);
            }
            k = k + 1;
        }
        proof {
            assert(matured_amounts(es, now).take(n as int) =~= matured_amounts(es, now));
            assert(released@ =~= release(es, now));
        }
        if total == 0 {
            return Err(VestingError::InvalidArgument);
        }
        proof {
            lemma_schedules_bytes(release(es, now));
            assert(16 * n <= len - 65) by (nonlinear_arith)
                requires n == (len - 65) / 16, len >= 65;
        }
        pack_schedules_at(&released, data, HEADER_LEN);
        Ok(total)
    }
}

} // verus!
