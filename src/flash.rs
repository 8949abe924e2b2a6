//! Sequencing of one flashing run: attach to the target, then for each part
//! in order obtain its bytes and load them into the image, then program the
//! device once. The run is a state machine: its phase names the work the
//! caller performs next, and the outcome of that work comes back as an event.

use vstd::prelude::*;
use crate::catalog::{Binary, BinaryKind, BinaryPart};
use crate::fetch::FetchError;

verus! {

/// Why a run failed. Parts are named by their ids.
#[derive(Clone, Copy, Debug, PartialEq, Eq, Structural)]
pub enum FlashError {
    NoProbeFound,
    /// The probe could not attach to the target.
    Attach,
    /// The bytes of a part could not be fetched.
    Fetch { part: u128, cause: FetchError },
    /// A part's bytes failed the digest check again after a fresh fetch.
    PersistentCorruption { part: u128 },
    /// A part's bytes could not be loaded into the image.
    Load { part: u128 },
    /// Programming the device failed; its state is now unknown.
    Program,
    /// The run was cancelled at a part boundary.
    Cancelled,
}

/// Where a run stands, which is also what the caller does next.
#[derive(Clone, Copy, Debug, PartialEq, Eq, Structural)]
pub enum FlashPhase {
    /// Open the first probe and attach to the chip's part number.
    Attach,
    /// Obtain the bytes of the part at this index: from the cache, else by
    /// fetching them and offering them to the cache.
    Obtain(usize),
    /// Load the obtained bytes of the part at this index into the image.
    Load(usize),
    /// Program the device with the accumulated image.
    Commit,
    Succeeded,
    Failed(FlashError),
}

/// The outcome of the work a phase asked for.
#[derive(Clone, Copy, Debug, PartialEq, Eq, Structural)]
pub enum FlashEvent {
    NoProbe,
    AttachFailed,
    Attached,
    PartReady,
    FetchFailed(FetchError),
    Corrupt,
    Loaded,
    LoadFailed,
    Programmed,
    ProgramFailed,
    /// The user asked to stop.
    Cancel,
}

pub open spec fn is_finished(phase: FlashPhase) -> bool {
    phase matches FlashPhase::Succeeded || phase matches FlashPhase::Failed(_)
}

/// The phase at the boundary before part `next` of `n`: a pending
/// cancellation is honoured here, and after the last part comes programming.
pub open spec fn boundary(n: nat, next: int, cancel: bool) -> FlashPhase {
    if cancel {
        FlashPhase::Failed(FlashError::Cancelled)
    } else if next < n {
        FlashPhase::Obtain(next as usize)
    } else {
        FlashPhase::Commit
    }
}

/// The phase after `event`, for a binary whose parts have the ids `ids`.
/// An event that does not answer the phase leaves it as it is, and a
/// finished run stays finished.
pub open spec fn next_phase(ids: Seq<u128>, phase: FlashPhase, cancel: bool, event: FlashEvent) -> FlashPhase {
    match (phase, event) {
        (FlashPhase::Attach, FlashEvent::Attached) => boundary(ids.len(), 0, cancel),
        (FlashPhase::Attach, FlashEvent::NoProbe) => FlashPhase::Failed(FlashError::NoProbeFound),
        (FlashPhase::Attach, FlashEvent::AttachFailed) => FlashPhase::Failed(FlashError::Attach),
        (FlashPhase::Attach, FlashEvent::Cancel) => FlashPhase::Failed(FlashError::Cancelled),
        (FlashPhase::Obtain(i), FlashEvent::PartReady) => FlashPhase::Load(i),
        (FlashPhase::Obtain(i), FlashEvent::FetchFailed(cause)) => {
            FlashPhase::Failed(FlashError::Fetch { part: ids[i as int], cause })
        },
        (FlashPhase::Obtain(i), FlashEvent::Corrupt) => {
            FlashPhase::Failed(FlashError::PersistentCorruption { part: ids[i as int] })
        },
        (FlashPhase::Obtain(_), FlashEvent::Cancel) => FlashPhase::Failed(FlashError::Cancelled),
        (FlashPhase::Load(i), FlashEvent::Loaded) => boundary(ids.len(), i + 1, cancel),
        (FlashPhase::Load(i), FlashEvent::LoadFailed) => FlashPhase::Failed(FlashError::Load { part: ids[i as int] }),
        (FlashPhase::Commit, FlashEvent::Programmed) => FlashPhase::Succeeded,
        (FlashPhase::Commit, FlashEvent::ProgramFailed) => FlashPhase::Failed(FlashError::Program),
        _ => phase,
    }
}

/// Whether a cancellation is pending after `event`: one that arrives while a
/// part is being worked on, or while programming, waits.
pub open spec fn next_cancel(phase: FlashPhase, cancel: bool, event: FlashEvent) -> bool {
    cancel || (event == FlashEvent::Cancel && !is_finished(phase))
}

/// Indices in phases name parts that exist.
pub open spec fn phase_fits(phase: FlashPhase, n: nat) -> bool {
    match phase {
        FlashPhase::Obtain(i) => i < n,
        FlashPhase::Load(i) => i < n,
        _ => true,
    }
}

pub open spec fn part_ids(parts: Seq<BinaryPart>) -> Seq<u128> {
    parts.map_values(|p: BinaryPart| p.id)
}

/// One flashing run of a binary.
pub struct FlashRun {
    /// The ids of the binary's parts, in programming order.
    pub part_ids: Vec<u128>,
    pub phase: FlashPhase,
    pub cancel_requested: bool,
}

impl FlashRun {
    pub open spec fn wf(&self) -> bool {
        phase_fits(self.phase, self.part_ids@.len())
    }

    pub fn new(binary: &Binary) -> (r: FlashRun)
        ensures
            r.wf(),
            r.part_ids@ == part_ids(binary.parts@),
            r.phase == FlashPhase::Attach,
            !r.cancel_requested,
    {
        let mut ids: Vec<u128> = Vec::new();
        let mut i: usize = 0;
        while i < binary.parts.len()
            invariant
                i <= binary.parts@.len(),
                ids@ == part_ids(binary.parts@.subrange(0, i as int)),
            decreases binary.parts@.len() - i,
        {
            ids.push(binary.parts[i].id);
            i += 1;
            assert(ids@ =~= part_ids(binary.parts@.subrange(0, i as int)));
        }
        assert(binary.parts@.subrange(0, i as int) =~= binary.parts@);
        FlashRun { part_ids: ids, phase: FlashPhase::Attach, cancel_requested: false }
    }

    fn boundary(&self, next: usize) -> (r: FlashPhase)
        requires
            next <= self.part_ids@.len(),
        ensures
            r == boundary(self.part_ids@.len(), next as int, self.cancel_requested),
            phase_fits(r, self.part_ids@.len()),
    {
        if self.cancel_requested {
            FlashPhase::Failed(FlashError::Cancelled)
        } else if next < self.part_ids.len() {
            FlashPhase::Obtain(next)
        } else {
            FlashPhase::Commit
        }
    }

    /// Takes in the outcome of the work the phase asked for.
    pub fn step(&mut self, event: FlashEvent)
        requires
            old(self).wf(),
        ensures
            final(self).wf(),
            final(self).part_ids == old(self).part_ids,
            final(self).phase == next_phase(old(self).part_ids@, old(self).phase, old(self).cancel_requested, event),
            final(self).cancel_requested == next_cancel(old(self).phase, old(self).cancel_requested, event),
    {
        let next = match (self.phase, event) {
            (FlashPhase::Attach, FlashEvent::Attached) => self.boundary(0),
            (FlashPhase::Attach, FlashEvent::NoProbe) => FlashPhase::Failed(FlashError::NoProbeFound),
            (FlashPhase::Attach, FlashEvent::AttachFailed) => FlashPhase::Failed(FlashError::Attach),
            (FlashPhase::Attach, FlashEvent::Cancel) => FlashPhase::Failed(FlashError::Cancelled),
            (FlashPhase::Obtain(i), FlashEvent::PartReady) => FlashPhase::Load(i),
            (FlashPhase::Obtain(i), FlashEvent::FetchFailed(cause)) => {
                FlashPhase::Failed(FlashError::Fetch { part: self.part_ids[i], cause })
            },
            (FlashPhase::Obtain(i), FlashEvent::Corrupt) => {
                FlashPhase::Failed(FlashError::PersistentCorruption { part: self.part_ids[i] })
            },
            (FlashPhase::Obtain(_), FlashEvent::Cancel) => FlashPhase::Failed(FlashError::Cancelled),
            (FlashPhase::Load(i), FlashEvent::Loaded) => {
                let n = self.part_ids.len();
                assert(i < n);
                self.boundary(i + 1)
            },
            (FlashPhase::Load(i), FlashEvent::LoadFailed) => {
                FlashPhase::Failed(FlashError::Load { part: self.part_ids[i] })
            },
            (FlashPhase::Commit, FlashEvent::Programmed) => FlashPhase::Succeeded,
            (FlashPhase::Commit, FlashEvent::ProgramFailed) => FlashPhase::Failed(FlashError::Program),
            _ => self.phase,
        };
        let finished = match self.phase {
            FlashPhase::Succeeded => true,
            FlashPhase::Failed(_) => true,
            _ => false,
        };
        if event == FlashEvent::Cancel && !finished {
            self.cancel_requested = true;
        }
        self.phase = next;
    }
}

/// How a part's bytes go into the image.
#[derive(Clone, Copy, Debug, PartialEq, Eq, Structural)]
pub enum LoadInstruction {
    Elf,
    Hex,
    /// Raw bytes, placed at `base`. Where the part declares no offset the
    /// loader's default applies; that is no error here.
    Bin { base: Option<u64> },
}

/// How to load `part`: ELF and Intel HEX say where their bytes go, raw
/// binaries go at the part's memory offset.
pub fn load_instruction(part: &BinaryPart) -> (r: LoadInstruction)
    ensures
        r == (match part.kind {
            BinaryKind::Elf => LoadInstruction::Elf,
            BinaryKind::Hex => LoadInstruction::Hex,
            BinaryKind::Bin => LoadInstruction::Bin { base: part.memory_offset },
        }),
{
    match part.kind {
        BinaryKind::Elf => LoadInstruction::Elf,
        BinaryKind::Hex => LoadInstruction::Hex,
        BinaryKind::Bin => LoadInstruction::Bin { base: part.memory_offset },
    }
}

/// The phase and pending cancellation after a series of events, the first
/// one first, as `step` would leave them.
pub open spec fn run(ids: Seq<u128>, phase: FlashPhase, cancel: bool, events: Seq<FlashEvent>) -> (FlashPhase, bool)
    decreases events.len(),
{
    if events.len() == 0 {
        (phase, cancel)
    } else {
        let (p, c) = run(ids, phase, cancel, events.drop_last());
        (next_phase(ids, p, c, events.last()), next_cancel(p, c, events.last()))
    }
}

/// A finished run stays as it finished, whatever events follow.
pub proof fn lemma_finished_run_stays_finished(ids: Seq<u128>, phase: FlashPhase, cancel: bool, events: Seq<FlashEvent>)
    requires
        is_finished(phase),
    ensures
        run(ids, phase, cancel, events).0 == phase,
    decreases events.len(),
{
    if events.len() > 0 {
        lemma_finished_run_stays_finished(ids, phase, cancel, events.drop_last());
    }
}

/// Once the part at index `i` fails to load, the run has failed naming that
/// part, and whatever events follow no later part is obtained and the device
/// is never programmed.
pub proof fn lemma_load_failure_ends_run(ids: Seq<u128>, i: usize, cancel: bool, events: Seq<FlashEvent>)
    requires
        i < ids.len(),
    ensures
        next_phase(ids, FlashPhase::Load(i), cancel, FlashEvent::LoadFailed)
            == FlashPhase::Failed(FlashError::Load { part: ids[i as int] }),
        forall|k: int| 0 <= k <= events.len() ==> {
            let p = #[trigger] run(ids, next_phase(ids, FlashPhase::Load(i), cancel, FlashEvent::LoadFailed),
                next_cancel(FlashPhase::Load(i), cancel, FlashEvent::LoadFailed), events.take(k)).0;
            &&& p == FlashPhase::Failed(FlashError::Load { part: ids[i as int] })
            &&& !(p matches FlashPhase::Obtain(_))
            &&& p != FlashPhase::Commit
        },
{
    let failed = FlashPhase::Failed(FlashError::Load { part: ids[i as int] });
    let c = next_cancel(FlashPhase::Load(i), cancel, FlashEvent::LoadFailed);
    assert forall|k: int| 0 <= k <= events.len() implies #[trigger] run(ids, failed, c, events.take(k)).0 == failed by {
        lemma_finished_run_stays_finished(ids, failed, c, events.take(k));
    }
}

/// Parts are obtained strictly in order: the run turns to the part at index
/// `j` only on attaching (for the first) or on the part before it loading,
/// and to programming only once the last part has loaded (or at once, for a
/// binary without parts).
pub proof fn lemma_parts_in_order(ids: Seq<u128>, phase: FlashPhase, cancel: bool, event: FlashEvent, j: usize)
    requires
        ids.len() <= usize::MAX,
        phase_fits(phase, ids.len()),
    ensures
        next_phase(ids, phase, cancel, event) == FlashPhase::Obtain(j) && phase != FlashPhase::Obtain(j) ==> {
            ||| (j == 0 && phase == FlashPhase::Attach && event == FlashEvent::Attached)
            ||| (j > 0 && phase == FlashPhase::Load((j - 1) as usize) && event == FlashEvent::Loaded)
        },
        next_phase(ids, phase, cancel, event) == FlashPhase::Commit && phase != FlashPhase::Commit ==> {
            ||| (ids.len() == 0 && phase == FlashPhase::Attach && event == FlashEvent::Attached)
            ||| (ids.len() > 0 && phase == FlashPhase::Load((ids.len() - 1) as usize) && event == FlashEvent::Loaded)
        },
{
}

/// Once programming has begun, only its outcome ends it: a cancellation then
/// is not honoured.
pub proof fn lemma_commit_not_cancelled(ids: Seq<u128>, cancel: bool, event: FlashEvent)
    ensures
        ({
            let p = next_phase(ids, FlashPhase::Commit, cancel, event);
            p == FlashPhase::Commit || p == FlashPhase::Succeeded || p == FlashPhase::Failed(FlashError::Program)
        }),
{
}

} // verus!
