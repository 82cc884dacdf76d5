//! Persisted layout of a vesting account: a 65-byte header followed by
//! 16-byte release events.
use vstd::bytes::*;
use vstd::prelude::*;

use crate::address::read_key;
use crate::error::VestingError;

verus! {

/// Size of one packed release event.
pub const SCHEDULE_LEN: usize = 16;

/// One release event as it is stored in the vesting account.
#[derive(Clone, Copy, Debug, PartialEq, Eq, Structural)]
pub struct VestingSchedule {
    /// Unix time from which the amount may be released.
    pub release_time: u64,
    /// Amount still to be released at that time.
    pub amount: u64,
}

/// The 16 bytes of one event: release time then amount, little-endian.
pub open spec fn schedule_bytes(s: VestingSchedule) -> Seq<u8> {
    spec_u64_to_le_bytes(s.release_time) + spec_u64_to_le_bytes(s.amount)
}

/// The event whose 16 bytes start at byte `16 * i` of `b`.
pub open spec fn schedule_at(b: Seq<u8>, i: int) -> VestingSchedule {
    VestingSchedule {
        release_time: spec_u64_from_le_bytes(b.subrange(16 * i, 16 * i + 8)),
        amount: spec_u64_from_le_bytes(b.subrange(16 * i + 8, 16 * i + 16)),
    }
}

/// The events packed back to back, in order.
pub open spec fn schedules_bytes(s: Seq<VestingSchedule>) -> Seq<u8>
    decreases s.len(),
{
    if s.len() == 0 {
        seq![]
    } else {
        schedules_bytes(s.drop_last()) + schedule_bytes(s.last())
    }
}

/// The events read from `b`: one per whole 16-byte chunk, trailing bytes dropped.
pub open spec fn decode_schedules(b: Seq<u8>) -> Seq<VestingSchedule> {
    Seq::new(b.len() / 16, |i: int| schedule_at(b, i))
}

/// The packed form of a list of events has 16 bytes per event, and event `i`
/// occupies bytes `16 * i .. 16 * i + 16`.
pub proof fn lemma_schedules_bytes(s: Seq<VestingSchedule>)
    ensures
        schedules_bytes(s).len() == 16 * s.len(),
        forall|i: int|
            0 <= i < s.len() ==> #[trigger] schedules_bytes(s).subrange(16 * i, 16 * i + 16)
                == schedule_bytes(s[i]),
    decreases s.len(),
{
    lemma_auto_spec_u64_to_from_le_bytes();
    if s.len() > 0 {
        let p = s.drop_last();
        lemma_schedules_bytes(p);
        let b = schedules_bytes(s);
        assert(b == schedules_bytes(p) + schedule_bytes(s.last()));
        assert forall|i: int| 0 <= i < s.len() implies #[trigger] b.subrange(16 * i, 16 * i + 16)
            == schedule_bytes(s[i]) by {
            if i < s.len() - 1 {
                assert(b.subrange(16 * i, 16 * i + 16) =~= schedules_bytes(p).subrange(
                    16 * i,
                    16 * i + 16,
                ));
                assert(p[i] == s[i]);
            } else {
                assert(b.subrange(16 * i, 16 * i + 16) =~= schedule_bytes(s.last()));
            }
        }
    }
}

/// Decoding the packed form of any list of events gives that list back.
pub proof fn lemma_schedules_round_trip(s: Seq<VestingSchedule>)
    ensures
        decode_schedules(schedules_bytes(s)) == s,
{
    lemma_schedules_bytes(s);
    lemma_auto_spec_u64_to_from_le_bytes();
    let b = schedules_bytes(s);
    assert forall|i: int| 0 <= i < s.len() implies #[trigger] schedule_at(b, i) == s[i] by {
        let c = b.subrange(16 * i, 16 * i + 16);
        assert(c == schedule_bytes(s[i]));
        assert(b.subrange(16 * i, 16 * i + 8) =~= c.subrange(0, 8));
        assert(b.subrange(16 * i + 8, 16 * i + 16) =~= c.subrange(8, 16));
        assert(c.subrange(0, 8) =~= spec_u64_to_le_bytes(s[i].release_time));
        assert(c.subrange(8, 16) =~= spec_u64_to_le_bytes(s[i].amount));
    }
    assert(decode_schedules(b) =~= s);
}

/// Decoding a buffer of `16 * k + r` bytes, with `r < 16`, yields exactly `k`
/// events: the trailing `r` bytes are dropped.
pub proof fn lemma_decode_truncates(b: Seq<u8>, k: nat, r: nat)
    requires
        b.len() == 16 * k + r,
        r < 16,
    ensures
        decode_schedules(b).len() == k,
        decode_schedules(b) == decode_schedules(b.subrange(0, 16 * k as int)),
{
    assert(b.len() / 16 == k) by (nonlinear_arith)
        requires b.len() == 16 * k + r, r < 16;
    let c = b.subrange(0, 16 * k as int);
    assert(c.len() / 16 == k) by (nonlinear_arith)
        requires c.len() == 16 * k;
    assert forall|i: int| 0 <= i < k implies #[trigger] schedule_at(b, i) == schedule_at(c, i) by {
        assert(b.subrange(16 * i, 16 * i + 8) =~= c.subrange(16 * i, 16 * i + 8));
        assert(b.subrange(16 * i + 8, 16 * i + 16) =~= c.subrange(16 * i + 8, 16 * i + 16));
    }
    assert(decode_schedules(b) =~= decode_schedules(c));
}

/// Writes `bytes` into `dst` from `offset` on, leaving every other byte as it was.
fn write_bytes(dst: &mut [u8], offset: usize, bytes: &Vec<u8>)
    requires
        offset + bytes@.len() <= old(dst)@.len(),
    ensures
        final(dst)@ == old(dst)@.subrange(0, offset as int) + bytes@ + old(dst)@.subrange(
            offset + bytes@.len(),
            old(dst)@.len() as int,
        ),
{
    let ghost d0 = dst@;
    let _n = dst.len();
    let mut i: usize = 0;
    while i < bytes.len()
        invariant
            i <= bytes@.len(),
            offset + bytes@.len() <= d0.len(),
            d0.len() == _n,
            dst@.len() == d0.len(),
            forall|j: int| 0 <= j < offset ==> dst@[j] == d0[j],
            forall|j: int| 0 <= j < i ==> dst@[offset + j] == bytes@[j],
            forall|j: int| offset + i <= j < d0.len() ==> dst@[j] == d0[j],
        decreases bytes@.len() - i,
    {
        dst[offset + i] = bytes[i];
        i = i + 1;
    }
    assert(dst@ =~= d0.subrange(0, offset as int) + bytes@ + d0.subrange(
        offset + bytes@.len(),
        d0.len() as int,
    ));
}

/// Reads the little-endian `u64` at bytes `offset .. offset + 8` of `src`.
pub(crate) fn read_u64_at(src: &[u8], offset: usize) -> (r: u64)
    requires
        offset + 8 <= src@.len(),
    ensures
        r == spec_u64_from_le_bytes(src@.subrange(offset as int, offset + 8)),
{
    let _n = src.len();
    let part = vstd::slice::slice_subrange(src, offset, offset + 8);
    u64_from_le_bytes(part)
}

impl VestingSchedule {
    /// Writes this event's 16 bytes at `offset`, leaving every other byte as it was.
    pub fn pack_at(&self, dst: &mut [u8], offset: usize)
        requires
            offset + 16 <= old(dst)@.len(),
        ensures
            final(dst)@ == old(dst)@.subrange(0, offset as int) + schedule_bytes(*self) + old(
                dst,
            )@.subrange(offset + 16, old(dst)@.len() as int),
    {
        proof {
            lemma_auto_spec_u64_to_from_le_bytes();
        }
        let ghost d0 = dst@;
        let _n = dst.len();
        let t = u64_to_le_bytes(self.release_time);
        write_bytes(dst, offset, &t);
        let a = u64_to_le_bytes(self.amount);
        write_bytes(dst, offset + 8, &a);
        assert(dst@ =~= d0.subrange(0, offset as int) + schedule_bytes(*self) + d0.subrange(
            offset + 16,
            d0.len() as int,
        ));
    }

    /// Writes this event into the first 16 bytes of `dst`.
    pub fn pack_into_slice(&self, dst: &mut [u8])
        requires
            old(dst)@.len() >= 16,
        ensures
            final(dst)@ == schedule_bytes(*self) + old(dst)@.subrange(16, old(dst)@.len() as int),
    {
        self.pack_at(dst, 0);
        assert(old(dst)@.subrange(0, 0) + schedule_bytes(*self) =~= schedule_bytes(*self));
    }

    /// Reads one event from the first 16 bytes of `src`; fails on a shorter buffer.
    pub fn unpack_from_slice(src: &[u8]) -> (r: Result<VestingSchedule, VestingError>)
        ensures
            src@.len() < 16 ==> r == Err::<VestingSchedule, VestingError>(
                VestingError::InvalidAccountData,
            ),
            src@.len() >= 16 ==> r == Ok::<VestingSchedule, VestingError>(schedule_at(src@, 0)),
    {
        if src.len() < SCHEDULE_LEN {
            return Err(VestingError::InvalidAccountData);
        }
        let release_time = read_u64_at(src, 0);
        let amount = read_u64_at(src, 8);
        Ok(VestingSchedule { release_time, amount })
    }
}

/// Reads every whole 16-byte event of `input`, in order; trailing bytes that
/// do not fill an event are dropped.
pub fn unpack_schedules(input: &[u8]) -> (r: Result<Vec<VestingSchedule>, VestingError>)
    ensures
        r matches Ok(v) && v@ == decode_schedules(input@),
{
    let len: usize = input.len();
    let n: usize = len / SCHEDULE_LEN;
    let mut output: Vec<VestingSchedule> = Vec::with_capacity(n);
    let mut offset: usize = 0;
    let mut k: usize = 0;
    while k < n
        invariant
            n == input@.len() / 16,
            input@.len() <= usize::MAX,
            k <= n,
            offset == 16 * k,
            output@ =~= decode_schedules(input@).take(k as int),
        decreases n - k,
    {
        assert(16 * k + 16 <= input@.len()) by (nonlinear_arith)
            requires k < n, n == input@.len() / 16, ;
        let release_time = read_u64_at(input, offset);
        let amount = read_u64_at(input, offset + 8);
        output.push(VestingSchedule { release_time, amount });
        offset = offset + SCHEDULE_LEN;
        k = k + 1;
    }
    Ok(output)
}

/// Packs `schedules` back to back into `target` from `offset` on; every
/// other byte stays as it was.
pub fn pack_schedules_at(schedules: &Vec<VestingSchedule>, target: &mut [u8], offset: usize)
    requires
        offset + 16 * schedules@.len() <= old(target)@.len(),
    ensures
        final(target)@ == old(target)@.subrange(0, offset as int) + schedules_bytes(schedules@)
            + old(target)@.subrange(offset + 16 * schedules@.len(), old(target)@.len() as int),
{
    let ghost t0 = target@;
    let _n = target.len();
    let mut at: usize = offset;
    let mut k: usize = 0;
    while k < schedules.len()
        invariant
            k <= schedules@.len(),
            at == offset + 16 * k,
            offset + 16 * schedules@.len() <= t0.len(),
            t0.len() == _n,
            target@ == t0.subrange(0, offset as int) + schedules_bytes(schedules@.take(k as int))
                + t0.subrange(offset + 16 * k, t0.len() as int),
        decreases schedules@.len() - k,
    {
        proof {
            lemma_schedules_bytes(schedules@.take(k as int));
        }
        schedules[k].pack_at(target, at);
        proof {
            let s1 = schedules@.take(k + 1);
            assert(s1.drop_last() =~= schedules@.take(k as int));
            assert(s1.last() == schedules@[k as int]);
            assert(target@ =~= t0.subrange(0, offset as int) + schedules_bytes(s1) + t0.subrange(
                offset + 16 * (k + 1),
                t0.len() as int,
            ));
        }
        at = at + SCHEDULE_LEN;
        k = k + 1;
    }
    assert(schedules@.take(k as int) =~= schedules@);
}

/// Packs `schedules` back to back from the start of `target`; the bytes past
/// them stay as they were.
pub fn pack_schedules_into_slice(schedules: Vec<VestingSchedule>, target: &mut [u8])
    requires
        16 * schedules@.len() <= old(target)@.len(),
    ensures
        final(target)@ == schedules_bytes(schedules@) + old(target)@.subrange(
            16 * schedules@.len() as int,
            old(target)@.len() as int,
        ),
{
    pack_schedules_at(&schedules, target, 0);
    assert(old(target)@.subrange(0, 0) + schedules_bytes(schedules@) =~= schedules_bytes(
        schedules@,
    ));
}

/// Size of the packed header of a vesting account.
pub const HEADER_LEN: usize = 65;

/// Header of a vesting account: who receives the tokens, which mint they
/// are of, and whether the plan has been funded.
#[derive(Clone, Copy, Debug, PartialEq, Eq)]
pub struct VestingScheduleInfo {
    /// Token account that receives released amounts.
    pub destination_address: [u8; 32],
    /// Mint of the vested tokens.
    pub mint_address: [u8; 32],
    /// Set once the plan has been created and funded.
    pub is_initialized: bool,
}

/// The 65 header bytes: destination, mint, then 1 or 0 for the flag.
pub open spec fn header_bytes(h: VestingScheduleInfo) -> Seq<u8> {
    h.destination_address@ + h.mint_address@ + seq![if h.is_initialized { 1u8 } else { 0u8 }]
}

/// Whether `h` is the header held in the first 65 bytes of `b`; the flag
/// is set exactly when byte 64 is 1.
pub open spec fn header_in(b: Seq<u8>, h: VestingScheduleInfo) -> bool {
    &&& h.destination_address@ == b.subrange(0, 32)
    &&& h.mint_address@ == b.subrange(32, 64)
    &&& h.is_initialized == (b[64] == 1)
}

impl VestingScheduleInfo {
    /// Whether the plan has been created.
    pub fn is_initialized(&self) -> (r: bool)
        ensures
            r == self.is_initialized,
    {
        self.is_initialized
    }

    /// Writes the header into the first 65 bytes of `target`.
    pub fn pack_into_slice(&self, target: &mut [u8])
        requires
            old(target)@.len() >= 65,
        ensures
            final(target)@ == header_bytes(*self) + old(target)@.subrange(
                65,
                old(target)@.len() as int,
            ),
    {
        let ghost t0 = target@;
        let _n = target.len();
        let mut i: usize = 0;
        while i < 32
            invariant
                i <= 32,
                target@.len() == t0.len(),
                t0.len() >= 65,
                self.destination_address@.len() == 32,
                forall|j: int| 0 <= j < i ==> target@[j] == self.destination_address@[j],
                forall|j: int| i <= j < t0.len() ==> target@[j] == t0[j],
            decreases 32 - i,
        {
            target[i] = self.destination_address[i];
            i = i + 1;
        }
        while i < 64
            invariant
                32 <= i <= 64,
                target@.len() == t0.len(),
                t0.len() >= 65,
                self.destination_address@.len() == 32,
                self.mint_address@.len() == 32,
                forall|j: int| 0 <= j < 32 ==> target@[j] == self.destination_address@[j],
                forall|j: int| 32 <= j < i ==> target@[j] == self.mint_address@[j - 32],
                forall|j: int| i <= j < t0.len() ==> target@[j] == t0[j],
            decreases 64 - i,
        {
            target[i] = self.mint_address[i - 32];
            i = i + 1;
        }
        target[64] = if self.is_initialized { 1u8 } else { 0u8 };
        assert(target@ =~= header_bytes(*self) + t0.subrange(65, t0.len() as int));
    }

    /// Reads the header from the first 65 bytes of `src`; fails on a shorter buffer.
    pub fn unpack_from_slice(src: &[u8]) -> (r: Result<VestingScheduleInfo, VestingError>)
        ensures
            src@.len() < 65 ==> r == Err::<VestingScheduleInfo, VestingError>(
                VestingError::InvalidAccountData,
            ),
            src@.len() >= 65 ==> (r matches Ok(h) && header_in(src@, h)),
    {
        if src.len() < HEADER_LEN {
            return Err(VestingError::InvalidAccountData);
        }
        let destination_address = read_key(src, 0);
        let mint_address = read_key(src, 32);
        let is_initialized = src[64] == 1;
        Ok(VestingScheduleInfo { destination_address, mint_address, is_initialized })
    }

    /// Reads a header from a buffer of exactly 65 bytes and requires the plan
    /// to be initialized.
    pub fn unpack(src: &[u8]) -> (r: Result<VestingScheduleInfo, VestingError>)
        ensures
            src@.len() != 65 ==> r == Err::<VestingScheduleInfo, VestingError>(
                VestingError::InvalidAccountData,
            ),
            src@.len() == 65 && src@[64] != 1 ==> r == Err::<VestingScheduleInfo, VestingError>(
                VestingError::UninitializedAccount,
            ),
            src@.len() == 65 && src@[64] == 1 ==> (r matches Ok(h) && header_in(src@, h)),
    {
        if src.len() != HEADER_LEN {
            return Err(VestingError::InvalidAccountData);
        }
        let h = VestingScheduleInfo::unpack_from_slice(src)?;
        if !h.is_initialized() {
            return Err(VestingError::UninitializedAccount);
        }
        Ok(h)
    }
}

} // verus!
