//! Wire format of the four vesting instructions.
use vstd::bytes::*;
use vstd::prelude::*;

use crate::address::read_key;
use crate::error::VestingError;
use crate::state::{
    decode_schedules, lemma_schedules_bytes, lemma_schedules_round_trip, read_u64_at,
    schedule_at, schedules_bytes, VestingSchedule,
};

verus! {

/// One release event as an instruction carries it.
#[derive(Clone, Copy, Debug, PartialEq, Eq, Structural)]
pub struct Schedule {
    /// Unix time from which the amount may be released.
    pub release_time: u64,
    /// Amount released at that time.
    pub amount: u64,
}

/// Fixed length of one release event in instruction data.
pub const SCHEDULE_LENGTH: usize = 16;

/// The stored form of an instruction's release event.
pub open spec fn stored(s: Schedule) -> VestingSchedule {
    VestingSchedule { release_time: s.release_time, amount: s.amount }
}

/// The instruction form of a stored release event.
pub open spec fn carried(v: VestingSchedule) -> Schedule {
    Schedule { release_time: v.release_time, amount: v.amount }
}

/// An operation on a vesting account, with the seed of its derived address.
#[derive(Clone, Debug, PartialEq, Eq)]
pub enum VestingInstruction {
    /// Allocate a vesting account for a given number of release events.
    Initialize {
        /// Seed of the vesting account's derived address.
        derived_vesting_address: [u8; 32],
        /// Number of release events the account will hold.
        number_of_schedules: u32,
    },
    /// Fund the plan and record its header and release events.
    Create {
        /// Seed of the vesting account's derived address.
        derived_vesting_address: [u8; 32],
        /// Mint of the vested tokens.
        mint_address: [u8; 32],
        /// Token account that receives released amounts.
        destination_token_address: [u8; 32],
        /// Release events of the plan.
        schedules: Vec<Schedule>,
    },
    /// Release every amount whose time has come.
    Unlock {
        /// Seed of the vesting account's derived address.
        derived_vesting_address: [u8; 32],
    },
    /// Redirect future releases to a new destination.
    ChangeDestination {
        /// Seed of the vesting account's derived address.
        derived_vesting_address: [u8; 32],
    },
}

/// Whether `b` is long enough, for its tag, to be decoded; an unknown tag never is.
pub open spec fn instruction_ok(b: Seq<u8>) -> bool {
    &&& b.len() >= 1
    &&& {
        ||| b[0] == 0 && b.len() >= 37
        ||| b[0] == 1 && b.len() >= 97
        ||| (b[0] == 2 || b[0] == 3) && b.len() >= 33
    }
}

/// Whether `ix` is what the bytes `b` (with a known tag and long enough) decode to.
pub open spec fn instruction_in(b: Seq<u8>, ix: VestingInstruction) -> bool {
    match ix {
        VestingInstruction::Initialize { derived_vesting_address, number_of_schedules } => {
            &&& b[0] == 0
            &&& derived_vesting_address@ == b.subrange(1, 33)
            &&& number_of_schedules == spec_u32_from_le_bytes(b.subrange(33, 37))
        },
        VestingInstruction::Create {
            derived_vesting_address,
            mint_address,
            destination_token_address,
            schedules,
        } => {
            &&& b[0] == 1
            &&& derived_vesting_address@ == b.subrange(1, 33)
            &&& mint_address@ == b.subrange(33, 65)
            &&& destination_token_address@ == b.subrange(65, 97)
            &&& schedules@ == decode_schedules(b.subrange(97, b.len() as int)).map_values(
                |v: VestingSchedule| carried(v),
            )
        },
        VestingInstruction::Unlock { derived_vesting_address } => {
            &&& b[0] == 2
            &&& derived_vesting_address@ == b.subrange(1, 33)
        },
        VestingInstruction::ChangeDestination { derived_vesting_address } => {
            &&& b[0] == 3
            &&& derived_vesting_address@ == b.subrange(1, 33)
        },
    }
}

/// The bytes of an instruction: its tag, then its fields in order.
pub open spec fn instruction_bytes(ix: VestingInstruction) -> Seq<u8> {
    match ix {
        VestingInstruction::Initialize { derived_vesting_address, number_of_schedules } => seq![
            0u8,
        ] + derived_vesting_address@ + spec_u32_to_le_bytes(number_of_schedules),
        VestingInstruction::Create {
            derived_vesting_address,
            mint_address,
            destination_token_address,
            schedules,
        } => seq![1u8] + derived_vesting_address@ + mint_address@ + destination_token_address@
            + schedules_bytes(schedules@.map_values(|s: Schedule| stored(s))),
        VestingInstruction::Unlock { derived_vesting_address } => seq![2u8]
            + derived_vesting_address@,
        VestingInstruction::ChangeDestination { derived_vesting_address } => seq![3u8]
            + derived_vesting_address@,
    }
}

/// Whether two instructions are the same operation with the same fields.
pub open spec fn same_instruction(a: VestingInstruction, b: VestingInstruction) -> bool {
    match (a, b) {
        (
            VestingInstruction::Initialize { derived_vesting_address: d1, number_of_schedules: n1 },
            VestingInstruction::Initialize { derived_vesting_address: d2, number_of_schedules: n2 },
        ) => d1@ == d2@ && n1 == n2,
        (
            VestingInstruction::Create {
                derived_vesting_address: d1,
                mint_address: m1,
                destination_token_address: t1,
                schedules: s1,
            },
            VestingInstruction::Create {
                derived_vesting_address: d2,
                mint_address: m2,
                destination_token_address: t2,
                schedules: s2,
            },
        ) => d1@ == d2@ && m1@ == m2@ && t1@ == t2@ && s1@ == s2@,
        (
            VestingInstruction::Unlock { derived_vesting_address: d1 },
            VestingInstruction::Unlock { derived_vesting_address: d2 },
        ) => d1@ == d2@,
        (
            VestingInstruction::ChangeDestination { derived_vesting_address: d1 },
            VestingInstruction::ChangeDestination { derived_vesting_address: d2 },
        ) => d1@ == d2@,
        _ => false,
    }
}

/// Decoding the bytes of any instruction gives that instruction back: the
/// bytes decode, and what they decode to is the same operation with the same
/// fields.
pub proof fn lemma_instruction_round_trip(ix: VestingInstruction, decoded: VestingInstruction)
    requires
        instruction_in(instruction_bytes(ix), decoded),
    ensures
        instruction_ok(instruction_bytes(ix)),
        same_instruction(decoded, ix),
{
    lemma_auto_spec_u32_to_from_le_bytes();
    let b = instruction_bytes(ix);
    match ix {
        VestingInstruction::Initialize { derived_vesting_address, number_of_schedules } => {
            assert(b.subrange(1, 33) =~= derived_vesting_address@);
            assert(b.subrange(33, 37) =~= spec_u32_to_le_bytes(number_of_schedules));
        },
        VestingInstruction::Create {
            derived_vesting_address,
            mint_address,
            destination_token_address,
            schedules,
        } => {
            let st = schedules@.map_values(|s: Schedule| stored(s));
            lemma_schedules_bytes(st);
            lemma_schedules_round_trip(st);
            assert(b.subrange(1, 33) =~= derived_vesting_address@);
            assert(b.subrange(33, 65) =~= mint_address@);
            assert(b.subrange(65, 97) =~= destination_token_address@);
            assert(b.subrange(97, b.len() as int) =~= schedules_bytes(st));
            assert(st.map_values(|v: VestingSchedule| carried(v)) =~= schedules@);
            match decoded {
                VestingInstruction::Create { schedules: s2, .. } => {
                    assert(s2@ =~= schedules@);
                },
                _ => {},
            }
        },
        VestingInstruction::Unlock { derived_vesting_address } => {
            assert(b.subrange(1, 33) =~= derived_vesting_address@);
        },
        VestingInstruction::ChangeDestination { derived_vesting_address } => {
            assert(b.subrange(1, 33) =~= derived_vesting_address@);
        },
    }
}

/// Appends every byte of `bytes` to `buf`.
fn append(buf: &mut Vec<u8>, bytes: &[u8])
    ensures
        final(buf)@ == old(buf)@ + bytes@,
{
    let ghost b0 = buf@;
    let mut i: usize = 0;
    while i < bytes.len()
        invariant
            i <= bytes@.len(),
            buf@ == b0 + bytes@.subrange(0, i as int),
        decreases bytes@.len() - i,
    {
        buf.push(bytes[i]);
        i = i + 1;
        assert(buf@ =~= b0 + bytes@.subrange(0, i as int));
    }
    assert(bytes@.subrange(0, i as int) =~= bytes@);
}

impl VestingInstruction {
    /// Decodes an instruction from its bytes: a tag byte, then the fields of
    /// that operation. An unknown tag, or bytes too short for the tag's
    /// fixed fields, fail with `BadInstruction`. A Create carries one release
    /// event per whole 16 bytes after its fixed fields; bytes after an
    /// Initialize's count are ignored.
    pub fn unpack(input: &[u8]) -> (r: Result<VestingInstruction, VestingError>)
        ensures
            instruction_ok(input@) ==> (r matches Ok(ix) && instruction_in(input@, ix)),
            !instruction_ok(input@) ==> r == Err::<VestingInstruction, VestingError>(
                VestingError::BadInstruction,
            ),
    {
        let len = input.len();
        if len < 1 {
            return Err(VestingError::BadInstruction);
        }
        let tag = input[0];
        if tag == 0 {
            if len < 37 {
                return Err(VestingError::BadInstruction);
            }
            let derived_vesting_address = read_key(input, 1);
            let number_of_schedules = u32_from_le_bytes(
                vstd::slice::slice_subrange(input, 33, 37),
            );
            Ok(VestingInstruction::Initialize { derived_vesting_address, number_of_schedules })
        } else if tag == 1 {
            if len < 97 {
                return Err(VestingError::BadInstruction);
            }
            let derived_vesting_address = read_key(input, 1);
            let mint_address = read_key(input, 33);
            let destination_token_address = read_key(input, 65);
            let ghost tail = input@.subrange(97, len as int);
            let n: usize = (len - 97) / SCHEDULE_LENGTH;
            let mut schedules: Vec<Schedule> = Vec::with_capacity(n);
            let mut offset: usize = 97;
            let mut k: usize = 0;
            while k < n
                invariant
                    len == input@.len(),
                    len >= 97,
                    tail == input@.subrange(97, len as int),
                    n == tail.len() / 16,
                    k <= n,
                    offset == 97 + 16 * k,
                    schedules@ =~= decode_schedules(tail).take(k as int).map_values(
                        |v: VestingSchedule| carried(v),
                    ),
                decreases n - k,
            {
                assert(16 * k + 16 <= tail.len()) by (nonlinear_arith)
                    requires k < n, n == tail.len() / 16, ;
                let release_time = read_u64_at(input, offset);
                let amount = read_u64_at(input, offset + 8);
                proof {
                    assert(input@.subrange(offset as int, offset + 8) =~= tail.subrange(
                        16 * k,
                        16 * k + 8,
                    ));
                    assert(input@.subrange(offset + 8, offset + 16) =~= tail.subrange(
                        16 * k + 8,
                        16 * k + 16,
                    ));
                    assert(carried(schedule_at(tail, k as int)) == Schedule {
                        release_time,
                        amount,
                    });
                }
                schedules.push(Schedule { release_time, amount });
                offset = offset + SCHEDULE_LENGTH;
                k = k + 1;
            }
            assert(decode_schedules(tail).take(k as int) =~= decode_schedules(tail));
            Ok(
                VestingInstruction::Create {
                    derived_vesting_address,
                    mint_address,
                    destination_token_address,
                    schedules,
                },
            )
        } else if tag == 2 || tag == 3 {
            if len < 33 {
                return Err(VestingError::BadInstruction);
            }
            let derived_vesting_address = read_key(input, 1);
            if tag == 2 {
                Ok(VestingInstruction::Unlock { derived_vesting_address })
            } else {
                Ok(VestingInstruction::ChangeDestination { derived_vesting_address })
            }
        } else {
            Err(VestingError::BadInstruction)
        }
    }

    /// Encodes the instruction: its tag, then its fields in order.
    pub fn pack(&self) -> (r: Vec<u8>)
        ensures
            r@ == instruction_bytes(*self),
    {
        let mut buf: Vec<u8> = Vec::new();
        match self {
            VestingInstruction::Initialize { derived_vesting_address, number_of_schedules } => {
                buf.push(0u8);
                append(&mut buf, derived_vesting_address.as_slice());
                let count = u32_to_le_bytes(*number_of_schedules);
                append(&mut buf, count.as_slice());
                assert(buf@ =~= instruction_bytes(*self));
            },
            VestingInstruction::Create {
                derived_vesting_address,
                mint_address,
                destination_token_address,
                schedules,
            } => {
                buf.push(1u8);
                append(&mut buf, derived_vesting_address.as_slice());
                append(&mut buf, mint_address.as_slice());
                append(&mut buf, destination_token_address.as_slice());
                let ghost head = buf@;
                let ghost st = schedules@.map_values(|s: Schedule| stored(s));
                let mut k: usize = 0;
                while k < schedules.len()
                    invariant
                        k <= schedules@.len(),
                        st == schedules@.map_values(|s: Schedule| stored(s)),
                        buf@ == head + schedules_bytes(st.take(k as int)),
                    decreases schedules@.len() - k,
                {
                    let s = schedules[k];
                    let t = u64_to_le_bytes(s.release_time);
                    append(&mut buf, t.as_slice());
                    let a = u64_to_le_bytes(s.amount);
                    append(&mut buf, a.as_slice());
                    proof {
                        let s1 = st.take(k + 1);
                        assert(s1.drop_last() =~= st.take(k as int));
                        assert(s1.last() == stored(s));
                    }
                    k = k + 1;
                    assert(buf@ =~= head + schedules_bytes(st.take(k as int)));
                }
                assert(st.take(k as int) =~= st);
                assert(buf@ =~= instruction_bytes(*self));
            },
            VestingInstruction::Unlock { derived_vesting_address } => {
                buf.push(2u8);
                append(&mut buf, derived_vesting_address.as_slice());
                assert(buf@ =~= instruction_bytes(*self));
            },
            VestingInstruction::ChangeDestination { derived_vesting_address } => {
                buf.push(3u8);
                append(&mut buf, derived_vesting_address.as_slice());
                assert(buf@ =~= instruction_bytes(*self));
            },
        }
        buf
    }
}

} // verus!
