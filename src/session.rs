//! Run-wide settings and decisions: output verbosity, display options, the
//! staging file's name and the steps of committing it over the destination.
use crate::cli::DisplayOptions;
use vstd::prelude::*;

verus! {

/// How talkative a run is.
#[derive(Debug, Clone, Copy, PartialEq, Eq, Structural)]
pub struct LogConfig {
    pub quiet: bool,
    pub verbose: bool,
}

impl LogConfig {
    /// Whether ordinary messages and warnings are printed.
    pub fn shows_messages(&self) -> (r: bool)
        ensures
            r == !self.quiet,
    {
        !self.quiet
    }

    /// Whether verbose messages are printed.
    pub fn shows_verbose(&self) -> (r: bool)
        ensures
            r == (!self.quiet && self.verbose),
    {
        !self.quiet && self.verbose
    }
}

/// Something with a size in bytes.
pub trait SizeProvider {
    spec fn size_spec(&self) -> nat;

    fn get_size(&self) -> (r: u64)
        ensures
            r == self.size_spec(),
    ;
}

impl SizeProvider for u32 {
    open spec fn size_spec(&self) -> nat {
        *self as nat
    }

    fn get_size(&self) -> (r: u64) {
        *self as u64
    }
}

impl SizeProvider for u64 {
    open spec fn size_spec(&self) -> nat {
        *self as nat
    }

    fn get_size(&self) -> (r: u64) {
        *self
    }
}

/// The progress displays a run shows.
#[derive(Debug, Clone, Copy, PartialEq, Eq, Structural)]
pub struct DisplaySettings {
    pub display_bytes: bool,
    pub display_count: bool,
    pub display_dots: bool,
    pub display_global_dots: bool,
    pub dot_size: u64,
    pub display_uncompressed: bool,
    pub display_volume: bool,
    pub show_debug: bool,
}

impl DisplaySettings {
    /// The settings the options ask for; a dot size alone turns on the
    /// per-entry dots.
    pub fn from_options(d: &DisplayOptions, show_debug: bool) -> (r: Self)
        ensures
            r.display_bytes == d.display_bytes,
            r.display_count == d.display_count,
            r.display_global_dots == d.display_dots_global,
            r.dot_size == (match d.display_dots_size {
                Some(s) => s,
                None => 0,
            }),
            r.display_dots == (d.display_dots || (r.dot_size > 0 && !d.display_dots_global)),
            r.display_uncompressed == d.display_uncompressed,
            r.display_volume == d.display_volume,
            r.show_debug == show_debug,
    {
        let dot_size = match d.display_dots_size {
            Some(s) => s,
            None => 0,
        };
        let display_dots = d.display_dots || (dot_size > 0 && !d.display_dots_global);
        DisplaySettings {
            display_bytes: d.display_bytes,
            display_count: d.display_count,
            display_dots,
            display_global_dots: d.display_dots_global,
            dot_size,
            display_uncompressed: d.display_uncompressed,
            display_volume: d.display_volume,
            show_debug,
        }
    }
}

/// Which parts the line that ends an entry's report shows.
#[derive(Debug, Clone, Copy, PartialEq, Eq, Structural)]
pub struct EndLineParts {
    /// The uncompressed size with its unit (`--du`).
    pub uncompressed: bool,
    /// The byte counts in and out (verbose, not when deleting).
    pub in_out: bool,
    /// Method and ratio; a delete ends the line bare.
    pub method_ratio: bool,
    /// Whether anything is printed at all.
    pub printed: bool,
}

pub fn end_line_parts(quiet: bool, verbose: bool, display_uncompressed: bool, deleting: bool) -> (r: EndLineParts)
    ensures
        r.printed == !quiet,
        r.uncompressed == (!quiet && display_uncompressed),
        r.in_out == (!quiet && verbose && !deleting),
        r.method_ratio == (!quiet && !deleting),
{
    EndLineParts {
        uncompressed: !quiet && display_uncompressed,
        in_out: !quiet && verbose && !deleting,
        method_ratio: !quiet && !deleting,
        printed: !quiet,
    }
}

/// The six hexadecimal digits of a staging file's name: process id and
/// clock nanoseconds mixed.
pub open spec fn temp_code_spec(pid: u32, nanos: u128) -> u32 {
    ((pid ^ ((nanos % 0xFFFFFF) as u32)) & 0xFFFFFF) as u32
}

pub fn temp_code(pid: u32, nanos: u128) -> (r: u32)
    ensures
        r == temp_code_spec(pid, nanos),
        r <= 0xFFFFFF,
{
    let t = (nanos % 0xFFFFFF) as u32;
    let r = (pid ^ t) & 0xFFFFFF;
    assert(r <= 0xFFFFFF) by (bit_vector)
        requires r == (pid ^ t) & 0xFFFFFF;
    r
}

/// An upper-case hexadecimal digit.
pub open spec fn hex_digit(d: u32) -> u8 {
    if d < 10 {
        (0x30 + d) as u8
    } else {
        (0x41 + d - 10) as u8
    }
}

/// The staging file name `zi` followed by six upper-case hex digits.
pub open spec fn temp_name_spec(code: u32) -> Seq<u8> {
    seq![0x7Au8, 0x69u8] + Seq::new(6, |i: int| hex_digit(((code as int / pow16(5 - i)) % 16) as u32))
}

pub open spec fn pow16(e: int) -> int
    decreases e,
{
    if e <= 0 {
        1
    } else {
        16 * pow16(e - 1)
    }
}

proof fn lemma_pow16_pos(e: int)
    ensures
        pow16(e) >= 1,
    decreases e,
{
    if e > 0 {
        lemma_pow16_pos(e - 1);
    }
}

pub fn temp_file_name(code: u32) -> (r: Vec<u8>)
    requires
        code <= 0xFFFFFF,
    ensures
        r@ == temp_name_spec(code),
{
    let mut v: Vec<u8> = Vec::new();
    v.push(0x7A);
    v.push(0x69);
    let mut div: u32 = 0x100000;
    let mut i: usize = 0;
    proof {
        reveal_with_fuel(pow16, 6);
    }
    assert(pow16(5) == 0x100000);
    while i < 6
        invariant
            0 <= i <= 6,
            v@.len() == 2 + i,
            v@.subrange(0, 2) == seq![0x7Au8, 0x69u8],
            div as int == pow16(5 - i),
            div >= 1,
            forall|j: int| 2 <= j < 2 + i ==> #[trigger] v@[j] == hex_digit(((code as int / pow16(5 - (j - 2))) % 16) as u32),
        decreases 6 - i,
    {
        let d = (code / div) % 16;
        v.push(if d < 10 { (0x30 + d) as u8 } else { (0x41 + d - 10) as u8 });
        if i < 5 {
            proof {
                lemma_pow16_pos(5 - i - 1);
            }
            assert(pow16(5 - i) == 16 * pow16(5 - i - 1));
            div = div / 16;
        }
        i = i + 1;
    }
    assert(v@ =~= temp_name_spec(code));
    v
}

/// A step of committing the staging file over the destination. Only the
/// two renames touch the destination, and a rename replaces it whole.
#[derive(Debug, Clone, Copy, PartialEq, Eq, Structural)]
pub enum CommitStep {
    /// Rename the staging file over the destination.
    Rename,
    /// Copy the staging file to a fresh file beside the destination (after a
    /// cross-device rename failed).
    CopyToSibling,
    /// Rename that copy over the destination.
    RenameSibling,
    /// Remove the copy beside the destination; the destination is untouched.
    RemoveSibling,
    /// Remove the staging file once the destination holds the new archive.
    RemoveStaging,
    Done,
    /// Committed, but the staging file could not be removed.
    DoneStagingLeft,
    Failed,
}

/// What the last step's file operation reported.
#[derive(Debug, Clone, Copy, PartialEq, Eq, Structural)]
pub enum CommitEvent {
    Succeeded,
    CrossDevice,
    Failed,
}

/// The commit procedure: rename; after a cross-device failure copy beside
/// the destination and rename that copy over it, removing the copy again
/// when the copy or its rename fails; once the destination holds the new
/// archive, remove the staging file, and never touch the destination again.
pub open spec fn commit_next_spec(step: CommitStep, ev: CommitEvent) -> CommitStep {
    match step {
        CommitStep::Rename => match ev {
            CommitEvent::Succeeded => CommitStep::Done,
            CommitEvent::CrossDevice => CommitStep::CopyToSibling,
            CommitEvent::Failed => CommitStep::Failed,
        },
        CommitStep::CopyToSibling => match ev {
            CommitEvent::Succeeded => CommitStep::RenameSibling,
            _ => CommitStep::RemoveSibling,
        },
        CommitStep::RenameSibling => match ev {
            CommitEvent::Succeeded => CommitStep::RemoveStaging,
            _ => CommitStep::RemoveSibling,
        },
        CommitStep::RemoveSibling => CommitStep::Failed,
        CommitStep::RemoveStaging => match ev {
            CommitEvent::Succeeded => CommitStep::Done,
            _ => CommitStep::DoneStagingLeft,
        },
        CommitStep::Done => CommitStep::Done,
        CommitStep::DoneStagingLeft => CommitStep::DoneStagingLeft,
        CommitStep::Failed => CommitStep::Failed,
    }
}

pub fn commit_next(step: CommitStep, ev: CommitEvent) -> (r: CommitStep)
    ensures
        r == commit_next_spec(step, ev),
{
    match step {
        CommitStep::Rename => match ev {
            CommitEvent::Succeeded => CommitStep::Done,
            CommitEvent::CrossDevice => CommitStep::CopyToSibling,
            CommitEvent::Failed => CommitStep::Failed,
        },
        CommitStep::CopyToSibling => match ev {
            CommitEvent::Succeeded => CommitStep::RenameSibling,
            _ => CommitStep::RemoveSibling,
        },
        CommitStep::RenameSibling => match ev {
            CommitEvent::Succeeded => CommitStep::RemoveStaging,
            _ => CommitStep::RemoveSibling,
        },
        CommitStep::RemoveSibling => CommitStep::Failed,
        CommitStep::RemoveStaging => match ev {
            CommitEvent::Succeeded => CommitStep::Done,
            _ => CommitStep::DoneStagingLeft,
        },
        CommitStep::Done => CommitStep::Done,
        CommitStep::DoneStagingLeft => CommitStep::DoneStagingLeft,
        CommitStep::Failed => CommitStep::Failed,
    }
}

/// Whether a step with this outcome replaced the destination: a rename onto
/// it that succeeded.
pub open spec fn replaces_destination(step: CommitStep, ev: CommitEvent) -> bool {
    (step == CommitStep::Rename || step == CommitStep::RenameSibling) && ev == CommitEvent::Succeeded
}

/// Where a commit stands after the outcomes `events`, and whether the
/// destination was replaced on the way.
pub open spec fn commit_run(events: Seq<CommitEvent>) -> (CommitStep, bool)
    decreases events.len(),
{
    if events.len() == 0 {
        (CommitStep::Rename, false)
    } else {
        let (s, r) = commit_run(events.drop_last());
        (commit_next_spec(s, events.last()), r || replaces_destination(s, events.last()))
    }
}

/// Commit atomicity of the procedure: whatever the outcomes, a commit that
/// ends failed never replaced the destination (which only renames touch, so
/// it keeps its old content), one that ends done replaced it with the whole
/// new archive, and once it was replaced the procedure stands only at steps
/// that leave the destination alone.
pub proof fn lemma_commit_atomic(events: Seq<CommitEvent>)
    ensures
        commit_run(events).0 == CommitStep::Failed ==> !commit_run(events).1,
        (commit_run(events).0 == CommitStep::Done || commit_run(events).0 == CommitStep::DoneStagingLeft)
            ==> commit_run(events).1,
        commit_run(events).1 ==> (commit_run(events).0 == CommitStep::RemoveStaging || commit_run(events).0
            == CommitStep::Done || commit_run(events).0 == CommitStep::DoneStagingLeft),
        !commit_run(events).1 ==> commit_run(events).0 != CommitStep::RemoveStaging,
    decreases events.len(),
{
    if events.len() > 0 {
        lemma_commit_atomic(events.drop_last());
    }
}

} // verus!
