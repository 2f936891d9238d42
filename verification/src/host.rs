//! Sandbox-host accounting: the per-instance memory meter that backs the
//! resource limiter, and the classification of a failed strategy call as
//! either an absorbed memory breach or a genuine fault.

use vstd::prelude::*;

verus! {

use crate::strategy::StrategyFault;
use vstd::string::StringSliceAdditionalSpecFns;
use vstd::utf8::encode_utf8;

/// The accounting record kept alongside each sandboxed strategy instance.
/// Every memory-grow request of the instance passes through
/// [`MemoryAccounting::memory_growing`], which meters the request and
/// decides whether to allow it.
#[derive(Clone, Copy, PartialEq, Eq, Structural, Debug)]
pub struct MemoryAccounting {
    /// Bytes most recently requested by the instance.
    pub current_memory_bytes: u64,
    /// Largest request seen over the instance's lifetime.
    pub peak_memory_bytes: u64,
    /// Per-instance ceiling; a request above it is denied and latched.
    pub memory_limit: Option<u64>,
    /// One-way latch: set once a request exceeded `memory_limit`.
    pub memory_limit_hit: bool,
}

/// Whether `desired` bytes exceed an optional ceiling.
pub open spec fn exceeds(limit: Option<u64>, desired: u64) -> bool {
    match limit {
        Some(l) => desired > l,
        None => false,
    }
}

/// The accounting record after metering a grow request of `desired` bytes
/// against the instance limit and an engine-provided `maximum`.
pub open spec fn grown(acct: MemoryAccounting, desired: u64) -> MemoryAccounting {
    MemoryAccounting {
        current_memory_bytes: desired,
        peak_memory_bytes: if desired > acct.peak_memory_bytes {
            desired
        } else {
            acct.peak_memory_bytes
        },
        memory_limit: acct.memory_limit,
        memory_limit_hit: acct.memory_limit_hit || exceeds(acct.memory_limit, desired),
    }
}

/// Whether a grow request of `desired` bytes is allowed: it must stay within
/// both the instance limit and the engine maximum.
pub open spec fn grow_allowed(acct: MemoryAccounting, desired: u64, maximum: Option<u64>) -> bool {
    !exceeds(acct.memory_limit, desired) && !exceeds(maximum, desired)
}

impl MemoryAccounting {
    /// A fresh meter with nothing allocated and the given ceiling.
    pub fn new(memory_limit: Option<u64>) -> (acct: MemoryAccounting)
        ensures
            acct == (MemoryAccounting {
                current_memory_bytes: 0u64,
                peak_memory_bytes: 0u64,
                memory_limit,
                memory_limit_hit: false,
            }),
    {
        MemoryAccounting {
            current_memory_bytes: 0,
            peak_memory_bytes: 0,
            memory_limit,
            memory_limit_hit: false,
        }
    }

    /// Replace the per-instance ceiling.
    pub fn set_memory_limit(&mut self, limit_bytes: u64)
        ensures
            *final(self) == (MemoryAccounting { memory_limit: Some(limit_bytes), ..*old(self) }),
    {
        self.memory_limit = Some(limit_bytes);
    }

    /// Meter one memory-grow request: record the requested size, raise the
    /// peak if exceeded, deny anything above the instance limit (latching
    /// `memory_limit_hit`) or above the engine maximum.
    pub fn memory_growing(&mut self, desired: u64, maximum: Option<u64>) -> (allow: bool)
        ensures
            *final(self) == grown(*old(self), desired),
            allow == grow_allowed(*old(self), desired, maximum),
            final(self).peak_memory_bytes >= old(self).peak_memory_bytes,
    {
        self.current_memory_bytes = desired;
        if desired > self.peak_memory_bytes {
            self.peak_memory_bytes = desired;
        }
        let mut allow = true;
        match self.memory_limit {
            Some(limit) => {
                if desired > limit {
                    self.memory_limit_hit = true;
                    allow = false;
                }
            },
            None => {},
        }
        match maximum {
            Some(max) => {
                if desired > max {
                    allow = false;
                }
            },
            None => {},
        }
        allow
    }

    /// Table growth is unrestricted and leaves the meter untouched.
    pub fn table_growing(&self, _desired: u64, _maximum: Option<u64>) -> (allow: bool)
        ensures
            allow,
    {
        true
    }

    /// The host's decision before re-entering the sandbox: a latched breach
    /// forces a hold without making the call; otherwise the call goes ahead.
    pub fn pre_call_hold(&self) -> (r: Option<bool>)
        ensures
            r == if self.memory_limit_hit {
                Some(false)
            } else {
                None::<bool>
            },
    {
        if self.memory_limit_hit {
            Some(false)
        } else {
            None
        }
    }
}

/// The meter after a sequence of grow requests, applied in order.
pub open spec fn grown_all(acct: MemoryAccounting, requests: Seq<u64>) -> MemoryAccounting
    decreases requests.len(),
{
    if requests.len() == 0 {
        acct
    } else {
        grown(grown_all(acct, requests.drop_last()), requests.last())
    }
}

/// The peak reading never decreases over the lifetime of an instance,
/// whatever grow requests the instance makes.
pub proof fn lemma_peak_memory_monotonic(acct: MemoryAccounting, requests: Seq<u64>)
    ensures
        grown_all(acct, requests).peak_memory_bytes >= acct.peak_memory_bytes,
    decreases requests.len(),
{
    if requests.len() > 0 {
        lemma_peak_memory_monotonic(acct, requests.drop_last());
    }
}

/// `b` with an ASCII upper-case letter folded to lower case.
pub open spec fn lower_ascii(b: u8) -> u8 {
    if 65 <= b <= 90 {
        (b + 32) as u8
    } else {
        b
    }
}

/// The lower-cased needle occurs in `text` starting at `i`, comparing
/// case-insensitively on the `text` side.
pub open spec fn matches_at(text: Seq<u8>, needle: Seq<u8>, i: int) -> bool {
    &&& 0 <= i
    &&& i + needle.len() <= text.len()
    &&& forall|k: int| 0 <= k < needle.len() ==> lower_ascii(text[i + k]) == needle[k]
}

/// The lower-cased needle occurs somewhere in `text`.
pub open spec fn contains_needle(text: Seq<u8>, needle: Seq<u8>) -> bool {
    exists|i: int| matches_at(text, needle, i)
}

/// The byte pattern `memory`.
pub open spec fn memory_needle() -> Seq<u8> {
    seq![109u8, 101u8, 109u8, 111u8, 114u8, 121u8]
}

/// The byte pattern `resource`.
pub open spec fn resource_needle() -> Seq<u8> {
    seq![114u8, 101u8, 115u8, 111u8, 117u8, 114u8, 99u8, 101u8]
}

/// The byte pattern `out of`.
pub open spec fn out_of_needle() -> Seq<u8> {
    seq![111u8, 117u8, 116u8, 32u8, 111u8, 102u8]
}

/// The byte pattern `limit`.
pub open spec fn limit_needle() -> Seq<u8> {
    seq![108u8, 105u8, 109u8, 105u8, 116u8]
}

/// A fault message that reads as resource exhaustion: it contains one of
/// `memory`, `resource`, `out of` or `limit`, case-insensitively.
pub open spec fn resource_error_bytes(text: Seq<u8>) -> bool {
    ||| contains_needle(text, memory_needle())
    ||| contains_needle(text, resource_needle())
    ||| contains_needle(text, out_of_needle())
    ||| contains_needle(text, limit_needle())
}

/// [`resource_error_bytes`] over a message given as characters.
pub open spec fn resource_error_message(message: Seq<char>) -> bool {
    resource_error_bytes(encode_utf8(message))
}

/// `b` with an ASCII upper-case letter folded to lower case.
fn lower_ascii_exec(b: u8) -> (r: u8)
    ensures
        r == lower_ascii(b),
{
    if 65 <= b && b <= 90 {
        b + 32
    } else {
        b
    }
}

/// Case-insensitive comparison of the needle against `text` at offset `i`.
fn match_at_exec(text: &[u8], needle: &Vec<u8>, i: usize) -> (r: bool)
    requires
        i + needle@.len() <= text@.len(),
    ensures
        r == matches_at(text@, needle@, i as int),
{
    let text_len: usize = text.len();
    let mut k: usize = 0;
    while k < needle.len()
        invariant
            i + needle@.len() <= text@.len(),
            text_len == text@.len(),
            0 <= k <= needle@.len(),
            forall|t: int| 0 <= t < k ==> lower_ascii(text@[i + t]) == needle@[t],
        decreases needle@.len() - k,
    {
        if lower_ascii_exec(text[i + k]) != needle[k] {
            assert(lower_ascii(text@[i + k]) != needle@[k as int]);
            assert(!matches_at(text@, needle@, i as int));
            return false;
        }
        k = k + 1;
    }
    assert(matches_at(text@, needle@, i as int));
    true
}

/// Case-insensitive search for a lower-case needle in `text`.
fn contains_needle_exec(text: &[u8], needle: &Vec<u8>) -> (r: bool)
    ensures
        r == contains_needle(text@, needle@),
{
    if needle.len() > text.len() {
        assert(forall|i: int| !matches_at(text@, needle@, i));
        return false;
    }
    if needle.len() == 0 {
        assert(matches_at(text@, needle@, 0));
        return true;
    }
    let end: usize = text.len() - needle.len();
    let mut i: usize = 0;
    while i <= end
        invariant
            needle@.len() <= text@.len(),
            end == text@.len() - needle@.len(),
            end < usize::MAX,
            0 <= i <= end + 1,
            forall|j: int| 0 <= j < i ==> !matches_at(text@, needle@, j),
        decreases end + 1 - i,
    {
        if match_at_exec(text, needle, i) {
            return true;
        }
        i = i + 1;
    }
    assert(forall|j: int| !matches_at(text@, needle@, j));
    false
}

/// Whether an error message from a strategy call reads as resource
/// exhaustion, per [`resource_error_message`]. Case folding is ASCII-only:
/// the four patterns are plain ASCII, so only an exotic upper-case letter
/// in the message could fold differently under full Unicode lowering.
pub fn is_resource_error(message: &str) -> (r: bool)
    ensures
        r == resource_error_message(message@),
{
    let bytes: &[u8] = message.as_bytes();
    let mut memory_pat: Vec<u8> = Vec::new();
    memory_pat.push(109u8);
    memory_pat.push(101u8);
    memory_pat.push(109u8);
    memory_pat.push(111u8);
    memory_pat.push(114u8);
    memory_pat.push(121u8);
    assert(memory_pat@ =~= memory_needle());
    let mut resource_pat: Vec<u8> = Vec::new();
    resource_pat.push(114u8);
    resource_pat.push(101u8);
    resource_pat.push(115u8);
    resource_pat.push(111u8);
    resource_pat.push(117u8);
    resource_pat.push(114u8);
    resource_pat.push(99u8);
    resource_pat.push(101u8);
    assert(resource_pat@ =~= resource_needle());
    let mut out_of_pat: Vec<u8> = Vec::new();
    out_of_pat.push(111u8);
    out_of_pat.push(117u8);
    out_of_pat.push(116u8);
    out_of_pat.push(32u8);
    out_of_pat.push(111u8);
    out_of_pat.push(102u8);
    assert(out_of_pat@ =~= out_of_needle());
    let mut limit_pat: Vec<u8> = Vec::new();
    limit_pat.push(108u8);
    limit_pat.push(105u8);
    limit_pat.push(109u8);
    limit_pat.push(105u8);
    limit_pat.push(116u8);
    assert(limit_pat@ =~= limit_needle());
    contains_needle_exec(bytes, &memory_pat) || contains_needle_exec(bytes, &resource_pat)
        || contains_needle_exec(bytes, &out_of_pat) || contains_needle_exec(bytes, &limit_pat)
}

/// What the host hands back for a strategy call, after absorption.
pub type ResolvedCall = Result<bool, StrategyFault>;

/// Classify the raw outcome of a sandboxed `should_roll` call.
///
/// A clean decision passes through. A failure is absorbed into a forced
/// `Hold` (`Ok(false)`) when the meter already latched a breach, or when the
/// message reads as resource exhaustion — in which case the breach is
/// latched now. Any other failure is a genuine fault and propagates.
pub fn resolve_strategy_call(acct: &mut MemoryAccounting, outcome: Result<bool, String>) -> (r:
    ResolvedCall)
    ensures
        match outcome {
            Ok(decision) => {
                &&& *final(acct) == *old(acct)
                &&& r == Ok::<bool, StrategyFault>(decision)
            },
            Err(message) => {
                if old(acct).memory_limit_hit {
                    &&& *final(acct) == *old(acct)
                    &&& r == Ok::<bool, StrategyFault>(false)
                } else if resource_error_message(message@) {
                    &&& *final(acct) == (MemoryAccounting {
                        memory_limit_hit: true,
                        ..*old(acct)
                    })
                    &&& r == Ok::<bool, StrategyFault>(false)
                } else {
                    &&& *final(acct) == *old(acct)
                    &&& (r matches Err(f) && f.message@ == message@)
                }
            },
        },
        final(acct).peak_memory_bytes == old(acct).peak_memory_bytes,
        final(acct).memory_limit_hit || !old(acct).memory_limit_hit,
{
    match outcome {
        Ok(decision) => Ok(decision),
        Err(message) => {
            if acct.memory_limit_hit {
                Ok(false)
            } else if is_resource_error(message.as_str()) {
                acct.memory_limit_hit = true;
                Ok(false)
            } else {
                Err(StrategyFault { message })
            }
        },
    }
}

/// The per-seat memory ceiling: an even split of a 200 MiB tournament
/// budget, so that total resident sandbox memory is bounded whatever the
/// seat count.
pub fn per_seat_memory_limit(num_participants: usize) -> (limit: u64)
    requires
        num_participants >= 1,
    ensures
        limit == 200 * 1024 * 1024 as int / (num_participants as int),
{
    200u64 * 1024 * 1024 / (num_participants as u64)
}

} // verus!
