use forged::catalog::{Binary, BinaryKind, BinaryPart, Version};
use forged::fetch::FetchError;
use forged::flash::{load_instruction, FlashError, FlashEvent, FlashPhase, FlashRun, LoadInstruction};

fn part(id: u128, kind: BinaryKind, memory_offset: Option<u64>) -> BinaryPart {
    BinaryPart { id, binary_id: 9, kind, memory_offset, content_hash: Vec::new(), analysis: None }
}

fn three_part_binary() -> Binary {
    Binary {
        id: 9,
        version: Version::new(1, 0, 0),
        parts: vec![
            part(101, BinaryKind::Bin, Some(0x0)),
            part(102, BinaryKind::Elf, None),
            part(103, BinaryKind::Hex, None),
        ],
    }
}

/// Drives a run, answering each phase from `outcome`, and records the phases.
fn drive(binary: &Binary, mut outcome: impl FnMut(FlashPhase) -> FlashEvent) -> Vec<FlashPhase> {
    let mut run = FlashRun::new(binary);
    let mut seen = vec![run.phase];
    while !matches!(run.phase, FlashPhase::Succeeded | FlashPhase::Failed(_)) {
        let event = outcome(run.phase);
        run.step(event);
        seen.push(run.phase);
    }
    seen
}

#[test]
fn second_part_load_failure_stops_the_run() {
    let binary = three_part_binary();
    let mut obtained = Vec::new();
    let mut programmed = false;
    let seen = drive(&binary, |phase| match phase {
        FlashPhase::Attach => FlashEvent::Attached,
        FlashPhase::Obtain(i) => {
            obtained.push(binary.parts[i].id);
            FlashEvent::PartReady
        }
        FlashPhase::Load(1) => FlashEvent::LoadFailed,
        FlashPhase::Load(_) => FlashEvent::Loaded,
        FlashPhase::Commit => {
            programmed = true;
            FlashEvent::Programmed
        }
        _ => unreachable!(),
    });
    assert_eq!(obtained, vec![101, 102]);
    assert!(!programmed);
    assert_eq!(
        seen,
        vec![
            FlashPhase::Attach,
            FlashPhase::Obtain(0),
            FlashPhase::Load(0),
            FlashPhase::Obtain(1),
            FlashPhase::Load(1),
            FlashPhase::Failed(FlashError::Load { part: 102 }),
        ]
    );
}

#[test]
fn failed_run_ignores_later_events() {
    let binary = three_part_binary();
    let mut run = FlashRun::new(&binary);
    run.step(FlashEvent::Attached);
    run.step(FlashEvent::PartReady);
    run.step(FlashEvent::LoadFailed);
    let failed = FlashPhase::Failed(FlashError::Load { part: 101 });
    assert_eq!(run.phase, failed);
    for e in [FlashEvent::Loaded, FlashEvent::PartReady, FlashEvent::Programmed, FlashEvent::Attached] {
        run.step(e);
        assert_eq!(run.phase, failed);
    }
}

#[test]
fn all_parts_then_one_commit() {
    let binary = three_part_binary();
    let mut commits = 0;
    let seen = drive(&binary, |phase| match phase {
        FlashPhase::Attach => FlashEvent::Attached,
        FlashPhase::Obtain(_) => FlashEvent::PartReady,
        FlashPhase::Load(_) => FlashEvent::Loaded,
        FlashPhase::Commit => {
            commits += 1;
            FlashEvent::Programmed
        }
        _ => unreachable!(),
    });
    assert_eq!(commits, 1);
    assert_eq!(
        seen,
        vec![
            FlashPhase::Attach,
            FlashPhase::Obtain(0),
            FlashPhase::Load(0),
            FlashPhase::Obtain(1),
            FlashPhase::Load(1),
            FlashPhase::Obtain(2),
            FlashPhase::Load(2),
            FlashPhase::Commit,
            FlashPhase::Succeeded,
        ]
    );
}

#[test]
fn attach_and_program_failures() {
    let binary = three_part_binary();
    let mut run = FlashRun::new(&binary);
    run.step(FlashEvent::NoProbe);
    assert_eq!(run.phase, FlashPhase::Failed(FlashError::NoProbeFound));

    let mut run = FlashRun::new(&binary);
    run.step(FlashEvent::AttachFailed);
    assert_eq!(run.phase, FlashPhase::Failed(FlashError::Attach));

    let empty = Binary { id: 1, version: Version::new(0, 1, 0), parts: Vec::new() };
    let mut run = FlashRun::new(&empty);
    run.step(FlashEvent::Attached);
    assert_eq!(run.phase, FlashPhase::Commit);
    run.step(FlashEvent::ProgramFailed);
    assert_eq!(run.phase, FlashPhase::Failed(FlashError::Program));
}

#[test]
fn fetch_failure_and_corruption_name_the_part() {
    let binary = three_part_binary();
    let mut run = FlashRun::new(&binary);
    run.step(FlashEvent::Attached);
    run.step(FlashEvent::FetchFailed(FetchError::Transport));
    assert_eq!(run.phase, FlashPhase::Failed(FlashError::Fetch { part: 101, cause: FetchError::Transport }));

    let mut run = FlashRun::new(&binary);
    run.step(FlashEvent::Attached);
    run.step(FlashEvent::PartReady);
    run.step(FlashEvent::Loaded);
    run.step(FlashEvent::Corrupt);
    assert_eq!(run.phase, FlashPhase::Failed(FlashError::PersistentCorruption { part: 102 }));
}

#[test]
fn cancellation_waits_for_a_part_boundary() {
    let binary = three_part_binary();
    let mut run = FlashRun::new(&binary);
    run.step(FlashEvent::Attached);
    run.step(FlashEvent::PartReady);
    assert_eq!(run.phase, FlashPhase::Load(0));
    run.step(FlashEvent::Cancel);
    assert_eq!(run.phase, FlashPhase::Load(0));
    assert!(run.cancel_requested);
    run.step(FlashEvent::Loaded);
    assert_eq!(run.phase, FlashPhase::Failed(FlashError::Cancelled));

    let mut run = FlashRun::new(&binary);
    run.step(FlashEvent::Attached);
    run.step(FlashEvent::Cancel);
    assert_eq!(run.phase, FlashPhase::Failed(FlashError::Cancelled));
}

#[test]
fn programming_is_not_cancelled() {
    let empty = Binary { id: 1, version: Version::new(0, 1, 0), parts: Vec::new() };
    let mut run = FlashRun::new(&empty);
    run.step(FlashEvent::Attached);
    run.step(FlashEvent::Cancel);
    assert_eq!(run.phase, FlashPhase::Commit);
    run.step(FlashEvent::Programmed);
    assert_eq!(run.phase, FlashPhase::Succeeded);
}

#[test]
fn parts_load_by_kind() {
    assert_eq!(load_instruction(&part(1, BinaryKind::Elf, Some(4))), LoadInstruction::Elf);
    assert_eq!(load_instruction(&part(1, BinaryKind::Hex, None)), LoadInstruction::Hex);
    assert_eq!(load_instruction(&part(1, BinaryKind::Bin, Some(0x8000))), LoadInstruction::Bin { base: Some(0x8000) });
    assert_eq!(load_instruction(&part(1, BinaryKind::Bin, None)), LoadInstruction::Bin { base: None });
}
