//! What a poll of file descriptors and a read from one of them tell.

use nix::poll::PollFlags;
use vstd::prelude::*;

verus! {

/// What the last poll said of one file descriptor.
#[derive(Debug, Clone, Copy, PartialEq, Eq, Structural)]
pub struct Readiness {
    /// There is something to read.
    pub readable: bool,
    /// The other side has hung up, or the descriptor is in error.
    pub closed: bool,
}

/// The bits of the system's poll flags that the relays look at.
#[derive(Debug, Clone, Copy, PartialEq, Eq, Structural)]
pub struct PollBits {
    /// There is data to read.
    pub input: i16,
    /// The other side has hung up.
    pub hangup: i16,
    /// The descriptor is in error.
    pub error: i16,
}

/// What one read gave.
#[derive(Debug, PartialEq, Eq)]
pub enum ReadOutcome {
    /// The bytes that were read; none of them is the end of the file.
    Bytes(Vec<u8>),
    /// The read failed.
    Failed,
}

impl ReadOutcome {
    /// The bytes that arrived, or `None` where the other side is gone.
    pub open spec fn arrived(self) -> Option<Seq<u8>> {
        match self {
            ReadOutcome::Bytes(bytes) => if bytes@.len() == 0 {
                None
            } else {
                Some(bytes@)
            },
            ReadOutcome::Failed => None,
        }
    }

    /// The bytes that arrived. The end of the file and a failed read count
    /// alike: the other side is gone.
    pub fn into_arrived(self) -> (bytes: Option<Vec<u8>>)
        ensures
            bytes is Some <==> self.arrived() is Some,
            bytes matches Some(b) ==> self.arrived() == Some(b@),
    {
        match self {
            ReadOutcome::Bytes(bytes) => {
                if bytes.len() == 0 {
                    None
                } else {
                    Some(bytes)
                }
            },
            ReadOutcome::Failed => None,
        }
    }
}

/// Whether the two sets of flags have a flag in common.
pub open spec fn in_common(bits: i16, mask: i16) -> bool {
    bits & mask != 0
}

/// Whether these are the bits of the flags on some system that has them.
pub open spec fn known_flags(flags: PollBits) -> bool {
    &&& flags.input == 1
    &&& {
        ||| flags.hangup == 0x10 && flags.error == 8
        ||| flags.hangup == 0x80 && flags.error == 4
        ||| flags.hangup == 0x2000 && flags.error == 0x4000
    }
}

/// Whether each of the flags has bits, and no bit belongs to two of them.
pub open spec fn told_apart(flags: PollBits) -> bool {
    &&& flags.input != 0 && flags.hangup != 0 && flags.error != 0
    &&& !in_common(flags.input, flags.hangup)
    &&& !in_common(flags.input, flags.error)
    &&& !in_common(flags.hangup, flags.error)
}

/// What the returned flags say, where the system's flags have these bits.
/// Flags that the system returned and that have no name count as no flag at
/// all.
pub open spec fn readiness_of(revents: Option<i16>, flags: PollBits) -> Readiness {
    match revents {
        Some(bits) => Readiness {
            readable: in_common(bits, flags.input),
            closed: in_common(bits, flags.hangup | flags.error),
        },
        None => Readiness { readable: false, closed: false },
    }
}

/// `PollFlags::intersects`: whether two sets of poll flags, given by their
/// bits, have a bit in common. Bits without a name are kept, not dropped.
#[verifier::external_body]
fn flags_intersect(bits: i16, mask: i16) -> (common: bool)
    ensures
        common == in_common(bits, mask),
{
    PollFlags::from_bits_retain(bits).intersects(PollFlags::from_bits_retain(mask))
}

/// The bits of `PollFlags::POLLIN`, `PollFlags::POLLHUP` and
/// `PollFlags::POLLERR`. The one for input is the same on every system that
/// `nix` serves; for the other two each system has one of three pairs, and
/// which of them is left open here.
#[verifier::external_body]
fn system_bits() -> (flags: PollBits)
    ensures
        known_flags(flags),
{
    PollBits {
        input: PollFlags::POLLIN.bits(),
        hangup: PollFlags::POLLHUP.bits(),
        error: PollFlags::POLLERR.bits(),
    }
}

/// What the returned flags say, where the system's flags have these bits.
pub fn readiness(revents: Option<i16>, flags: PollBits) -> (ready: Readiness)
    ensures
        ready == readiness_of(revents, flags),
{
    match revents {
        Some(bits) => Readiness {
            readable: flags_intersect(bits, flags.input),
            closed: flags_intersect(bits, flags.hangup | flags.error),
        },
        None => Readiness { readable: false, closed: false },
    }
}

/// The poll flags of this system.
#[derive(Debug, Clone, Copy, PartialEq, Eq, Structural)]
pub struct SystemFlags {
    bits: PollBits,
}

impl View for SystemFlags {
    type V = PollBits;

    closed spec fn view(&self) -> PollBits {
        self.bits
    }
}

impl SystemFlags {
    /// Looks the flags up. One lookup serves for all polls.
    pub fn new() -> (flags: SystemFlags)
        ensures
            known_flags(flags@),
            told_apart(flags@),
    {
        let bits = system_bits();
        proof {
            lemma_known_flags_are_told_apart(bits);
        }
        SystemFlags { bits }
    }

    /// What the flags that a poll returned say. `None` stands for flags
    /// without a name.
    pub fn readiness(&self, revents: Option<i16>) -> (ready: Readiness)
        ensures
            ready == readiness_of(revents, self@),
    {
        readiness(revents, self.bits)
    }
}

/// On every system the flags have bits, and no two of them share one.
pub proof fn lemma_known_flags_are_told_apart(flags: PollBits)
    requires
        known_flags(flags),
    ensures
        told_apart(flags),
{
    assert(1i16 & 0x10 == 0 && 1i16 & 8 == 0 && 0x10i16 & 8 == 0) by (bit_vector);
    assert(1i16 & 0x80 == 0 && 1i16 & 4 == 0 && 0x80i16 & 4 == 0) by (bit_vector);
    assert(1i16 & 0x2000 == 0 && 1i16 & 0x4000 == 0 && 0x2000i16 & 0x4000 == 0) by (bit_vector);
}

/// Where the flags can be told apart, each alone is taken for what it is: input
/// is no hangup, a hangup or an error is no input, and no flag is neither.
pub proof fn lemma_flags_are_taken_for_what_they_are(flags: PollBits)
    requires
        told_apart(flags),
    ensures
        readiness_of(Some(flags.input), flags) == (Readiness { readable: true, closed: false }),
        readiness_of(Some(flags.hangup), flags) == (Readiness { readable: false, closed: true }),
        readiness_of(Some(flags.error), flags) == (Readiness { readable: false, closed: true }),
        readiness_of(Some(flags.input | flags.hangup), flags) == (Readiness {
            readable: true,
            closed: true,
        }),
        readiness_of(Some(0), flags) == (Readiness { readable: false, closed: false }),
        readiness_of(None, flags) == (Readiness { readable: false, closed: false }),
{
    let (i, h, e) = (flags.input, flags.hangup, flags.error);
    assert(i & i == i && 0i16 & i == 0 && 0i16 & (h | e) == 0) by (bit_vector);
    assert(i & h == 0 && i & e == 0 ==> i & (h | e) == 0 && h & i == 0 && e & i == 0)
        by (bit_vector);
    assert(h & (h | e) == h && e & (h | e) == e) by (bit_vector);
    assert(i != 0 ==> (i | h) & i != 0) by (bit_vector);
    assert(h != 0 ==> (i | h) & (h | e) != 0) by (bit_vector);
}

/// Every flag counts for itself, whatever other flags come with it: a
/// descriptor is readable exactly where the input flag is among those that
/// were returned, and closed exactly where the hangup or the error flag is.
pub proof fn lemma_each_flag_counts(bits: i16, flags: PollBits)
    ensures
        readiness_of(Some(bits), flags).readable <==> bits & flags.input != 0,
        readiness_of(Some(bits), flags).closed <==> bits & flags.hangup != 0 || bits & flags.error
            != 0,
        !readiness_of(None, flags).readable && !readiness_of(None, flags).closed,
{
    let (h, e) = (flags.hangup, flags.error);
    assert(bits & (h | e) != 0 <==> bits & h != 0 || bits & e != 0) by (bit_vector);
}

/// Bytes that were read have arrived as they are; the end of the file and a
/// failed read bring none.
pub proof fn lemma_what_was_read_has_arrived(bytes: Vec<u8>)
    ensures
        bytes@.len() > 0 ==> ReadOutcome::Bytes(bytes).arrived() == Some(bytes@),
        bytes@.len() == 0 ==> ReadOutcome::Bytes(bytes).arrived() is None,
        ReadOutcome::Failed.arrived() is None,
{
}

} // verus!
