//! Lookup of a base-58 address recorded as `name<value>|` in free text.
use vstd::prelude::*;
use vstd::string::StringSliceAdditionalSpecFns;

verus! {

/// Helpers on free-text records.
pub struct Utils {}

/// Why a recorded address could not be read.
#[derive(Clone, Copy, Debug, PartialEq, Eq, Structural)]
pub enum RecordError {
    /// The name does not occur, or no `|` follows it.
    Missing,
    /// The `|` that follows the name falls inside the name itself.
    Malformed,
    /// The value is not valid base 58.
    InvalidBase58,
    /// The value does not decode to 32 bytes.
    WrongLength,
}

/// The bytes that base 58 (Bitcoin alphabet) decodes `s` to, if it is valid.
pub uninterp spec fn base58_decoded(s: Seq<u8>) -> Option<Seq<u8>>;

/// Relies on `bs58::decode(..).into_vec()` with the default alphabet: the
/// result depends on the input bytes alone.
#[verifier::external_body]
fn decode_base58(s: &[u8]) -> (r: Option<Vec<u8>>)
    ensures
        r is None <==> base58_decoded(s@) is None,
        r matches Some(v) ==> base58_decoded(s@) == Some(v@),
{
    bs58::decode(s).into_vec().ok()
}

/// Whether `n` occurs in `h` at byte `i`.
pub open spec fn occurs_at(h: Seq<u8>, n: Seq<u8>, i: int) -> bool {
    0 <= i && i + n.len() <= h.len() && h.subrange(i, i + n.len()) == n
}

/// Whether byte `i` is the first place where `n` occurs in `h`.
pub open spec fn first_occurrence(h: Seq<u8>, n: Seq<u8>, i: int) -> bool {
    occurs_at(h, n, i) && forall|j: int| 0 <= j < i ==> !occurs_at(h, n, j)
}

/// The separator byte `|`.
pub open spec fn bar() -> u8 {
    124u8
}

/// Whether byte `k` is the first `|` of `h` after byte `i`.
pub open spec fn first_bar_after(h: Seq<u8>, i: int, k: int) -> bool {
    i < k < h.len() && h[k] == bar() && forall|j: int| i < j < k ==> h[j] != bar()
}

/// The result of looking `n` up in `h`: the value runs from the end of the
/// first occurrence of `n` to the first `|` after its start.
pub open spec fn lookup_outcome(h: Seq<u8>, n: Seq<u8>, r: Result<[u8; 32], RecordError>) -> bool {
    &&& (forall|i: int| !occurs_at(h, n, i)) ==> r == Err::<[u8; 32], RecordError>(
        RecordError::Missing,
    )
    &&& forall|i: int|
        first_occurrence(h, n, i) && (forall|j: int| i < j < h.len() ==> h[j] != bar())
            ==> r == Err::<[u8; 32], RecordError>(RecordError::Missing)
    &&& forall|i: int, k: int|
        first_occurrence(h, n, i) && first_bar_after(h, i, k) ==> {
            if k < i + n.len() {
                r == Err::<[u8; 32], RecordError>(RecordError::Malformed)
            } else {
                match base58_decoded(h.subrange(i + n.len(), k)) {
                    None => r == Err::<[u8; 32], RecordError>(RecordError::InvalidBase58),
                    Some(v) => if v.len() == 32 {
                        r matches Ok(a) && a@ == v
                    } else {
                        r == Err::<[u8; 32], RecordError>(RecordError::WrongLength)
                    },
                }
            }
        }
}

/// Whether `n` occurs in `h` at byte `i`, computed.
fn occurs(h: &[u8], n: &[u8], i: usize) -> (r: bool)
    requires
        i + n@.len() <= h@.len(),
    ensures
        r == occurs_at(h@, n@, i as int),
{
    let _l = h.len();
    let mut j: usize = 0;
    while j < n.len()
        invariant
            h@.len() == _l,
            j <= n@.len(),
            i + n@.len() <= h@.len(),
            forall|t: int| 0 <= t < j ==> h@[i + t] == n@[t],
        decreases n@.len() - j,
    {
        if h[i + j] != n[j] {
            assert(h@.subrange(i as int, i + n@.len())[j as int] != n@[j as int]);
            return false;
        }
        j = j + 1;
    }
    assert(h@.subrange(i as int, i + n@.len()) =~= n@);
    true
}

impl Utils {
    /// Reads the 32-byte address recorded in `data` under `name`: the
    /// base-58 text from just after the first occurrence of `name` up to the
    /// first `|` after it.
    pub fn get_data(data: &str, name: &str) -> (r: Result<[u8; 32], RecordError>)
        ensures
            lookup_outcome(data.spec_bytes(), name.spec_bytes(), r),
    {
        let h = data.as_bytes();
        let n = name.as_bytes();
        let hl = h.len();
        let nl = n.len();
        if nl > hl {
            return Err(RecordError::Missing);
        }
        let last = hl - nl;
        let mut i: usize = 0;
        let mut found = false;
        while !found && i < last
            invariant
                nl <= hl,
                hl == h@.len(),
                nl == n@.len(),
                last == hl - nl,
                i <= last,
                found ==> occurs_at(h@, n@, i as int),
                forall|j: int| 0 <= j < i ==> !occurs_at(h@, n@, j),
            decreases last - i + (if found { 0int } else { 1int }),
        {
            if occurs(h, n, i) {
                found = true;
            } else {
                i = i + 1;
            }
        }
        if !found {
            found = occurs(h, n, i);
        }
        if !found {
            assert forall|j: int| !occurs_at(h@, n@, j) by {
                if j > i {
                    assert(j + nl > hl);
                }
            }
            return Err(RecordError::Missing);
        }
        assert(first_occurrence(h@, n@, i as int));
        if i >= hl {
            return Err(RecordError::Missing);
        }
        let mut k: usize = i + 1;
        while k < hl && h[k] != 124u8
            invariant
                i < k <= hl,
                hl == h@.len(),
                forall|j: int| i < j < k ==> h@[j] != bar(),
            decreases hl - k,
        {
            k = k + 1;
        }
        if k >= hl {
            return Err(RecordError::Missing);
        }
        assert(first_bar_after(h@, i as int, k as int));
        assert forall|a: int, b: int|
            first_occurrence(h@, n@, a) && first_bar_after(h@, a, b) implies a == i && b
            == k by {
            if a < i {
            } else if a > i {
                assert(!occurs_at(h@, n@, i as int));
            }
            if b < k {
                assert(h@[b] != bar());
            } else if b > k {
                assert(h@[k as int] != bar());
            }
        }
        if k < i + nl {
            return Err(RecordError::Malformed);
        }
        let key = vstd::slice::slice_subrange(h, i + nl, k);
        match decode_base58(key) {
            None => Err(RecordError::InvalidBase58),
            Some(v) => {
                if v.len() != 32 {
                    return Err(RecordError::WrongLength);
                }
                let mut a: [u8; 32] = [0u8; 32];
                let mut t: usize = 0;
                while t < 32
                    invariant
                        t <= 32,
                        v@.len() == 32,
                        a@.len() == 32,
                        forall|j: int| 0 <= j < t ==> a@[j] == v@[j],
                    decreases 32 - t,
                {
                    a[t] = v[t];
                    t = t + 1;
                }
                assert(a@ =~= v@);
                Ok(a)
            },
        }
    }
}

} // verus!
