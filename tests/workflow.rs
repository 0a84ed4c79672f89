use rss::codec::{decode, Encoding};
use rss::fingerprint::{fingerprint, is_stale};
use rss::workflow::{check_file, pack, EditFlow, EditStage, Event, Fault, RunFlow, RunStage};

#[test]
fn fingerprint_is_deterministic() {
    assert_eq!(fingerprint(b"m", b"s", b"linux"), fingerprint(b"m", b"s", b"linux"));
}

#[test]
fn fingerprint_depends_on_each_input() {
    let base = fingerprint(b"m", b"s", b"linux");
    assert_ne!(base, fingerprint(b"m2", b"s", b"linux"));
    assert_ne!(base, fingerprint(b"m", b"s2", b"linux"));
    assert_ne!(base, fingerprint(b"m", b"s", b"windows"));
    // the boundary between manifest and source counts
    assert_ne!(fingerprint(b"ab", b"c", b"linux"), fingerprint(b"a", b"bc", b"linux"));
}

#[test]
fn staleness_check() {
    let f = fingerprint(b"m", b"s", b"linux");
    assert!(!is_stale(f, b"m", b"s", b"linux"));
    assert!(is_stale(f.wrapping_add(1), b"m", b"s", b"linux"));
    assert!(is_stale(f, b"m", b"changed", b"linux"));
}

#[test]
fn pack_embeds_the_fingerprint() {
    let c = pack(b"m", b"s", b"bin", Encoding::Text, b"linux");
    let d = decode(&c).unwrap();
    assert_eq!(d.fingerprint, fingerprint(b"m", b"s", b"linux"));
    assert_eq!(d.payload, b"bin".to_vec());
    assert!(!is_stale(d.fingerprint, &d.manifest, &d.source, b"linux"));
}

#[test]
fn check_file_results() {
    assert_eq!(check_file(true), Ok(()));
    assert_eq!(check_file(false), Err(Fault::NotAFile));
}

/// Drives an edit workflow with a toolchain that fails `failures` times.
fn run_edit(failures: usize) -> (EditFlow, usize, usize, Vec<usize>) {
    let mut flow = EditFlow::new();
    let (mut edits, mut builds, mut packs_after) = (0, 0, Vec::new());
    while !flow.is_finished() {
        let ev = match flow.stage {
            EditStage::Edit => {
                edits += 1;
                Event::Done
            }
            EditStage::Build => {
                builds += 1;
                if builds <= failures { Event::Failed(Fault::Build) } else { Event::Done }
            }
            EditStage::Pack => {
                packs_after.push(builds);
                Event::Done
            }
            _ => Event::Done,
        };
        flow = flow.step(ev);
    }
    (flow, edits, builds, packs_after)
}

#[test]
fn edit_retries_until_the_build_succeeds() {
    let (flow, edits, builds, packs_after) = run_edit(2);
    assert_eq!(edits, 3);
    assert_eq!(builds, 3);
    assert_eq!(packs_after, vec![3]);
    assert_eq!(flow.error, None);
    assert!(!flow.cleanup_failed);
}

#[test]
fn edit_aborts_when_the_toolchain_cannot_start() {
    let mut flow = EditFlow::new();
    for ev in [Event::Done, Event::Done, Event::Done] {
        flow = flow.step(ev);
    }
    assert_eq!(flow.stage, EditStage::Build);
    flow = flow.step(Event::Failed(Fault::ToolInvocation));
    assert_eq!(flow.stage, EditStage::Cleanup);
    flow = flow.step(Event::Failed(Fault::Io));
    assert_eq!(flow.stage, EditStage::Finished);
    assert_eq!(flow.error, Some(Fault::ToolInvocation));
    assert!(flow.cleanup_failed);
}

#[test]
fn edit_of_a_malformed_container_ends_at_once() {
    let flow = EditFlow::new().step(Event::Failed(Fault::Format));
    assert_eq!(flow.stage, EditStage::Finished);
    assert_eq!(flow.error, Some(Fault::Format));
}

/// Drives a run workflow; returns the stages visited.
fn run_run(check: bool, stale: bool, build_ok: bool) -> (RunFlow, Vec<RunStage>) {
    let mut flow = RunFlow::new(check);
    let mut seen = Vec::new();
    while !flow.is_finished() {
        seen.push(flow.stage);
        let ev = match flow.stage {
            RunStage::Revalidate => if stale { Event::Stale } else { Event::Done },
            RunStage::Build => if build_ok { Event::Done } else { Event::Failed(Fault::Build) },
            _ => Event::Done,
        };
        flow = flow.step(ev);
    }
    (flow, seen)
}

#[test]
fn fresh_fingerprint_skips_the_toolchain() {
    let (flow, seen) = run_run(true, false, true);
    assert!(!seen.contains(&RunStage::Build));
    assert_eq!(seen, vec![RunStage::Extract, RunStage::Revalidate, RunStage::Materialize, RunStage::Execute, RunStage::RemoveBinary]);
    assert_eq!(flow.error, None);
}

#[test]
fn stale_fingerprint_rebuilds_once() {
    let (flow, seen) = run_run(true, true, true);
    assert_eq!(seen.iter().filter(|s| **s == RunStage::Build).count(), 1);
    let build = seen.iter().position(|s| *s == RunStage::Build).unwrap();
    let reextract = seen.iter().position(|s| *s == RunStage::Reextract).unwrap();
    let execute = seen.iter().position(|s| *s == RunStage::Execute).unwrap();
    assert!(build < reextract && reextract < execute);
    assert_eq!(flow.error, None);
}

#[test]
fn failed_rebuild_is_fatal_in_a_run() {
    let (flow, seen) = run_run(true, true, false);
    assert!(!seen.contains(&RunStage::Execute));
    assert!(seen.contains(&RunStage::RemoveTree));
    assert_eq!(flow.error, Some(Fault::Build));
}

#[test]
fn unchecked_run_goes_straight_to_the_binary() {
    let (_, seen) = run_run(false, true, true);
    assert_eq!(seen, vec![RunStage::Extract, RunStage::Materialize, RunStage::Execute, RunStage::RemoveBinary]);
}

#[test]
fn binary_is_removed_even_when_execution_fails() {
    let mut flow = RunFlow::new(false);
    flow = flow.step(Event::Done);
    flow = flow.step(Event::Done);
    assert_eq!(flow.stage, RunStage::Execute);
    flow = flow.step(Event::Failed(Fault::ToolInvocation));
    assert_eq!(flow.stage, RunStage::RemoveBinary);
    flow = flow.step(Event::Failed(Fault::Io));
    assert!(flow.is_finished());
    assert_eq!(flow.error, Some(Fault::ToolInvocation));
    assert!(flow.cleanup_failed);
}
