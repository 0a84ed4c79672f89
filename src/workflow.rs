//! The edit and run workflows as state machines. Each state names the work
//! to do next; the caller does it (editor, toolchain, files, processes) and
//! hands back what came of it as an `Event`.
use vstd::prelude::*;
use crate::codec::{encode, manifest_ok, spec_decode, spec_encode, CodecError, Encoding};
use crate::fingerprint::{fingerprint, spec_fingerprint};

verus! {

/// The kinds of failure a workflow reports.
#[derive(Clone, Copy, Debug, PartialEq, Eq, Structural)]
pub enum Fault {
    /// A file or directory could not be created, read, written or removed.
    Io,
    /// The container named is not a file.
    NotAFile,
    /// The container does not follow the container grammar.
    Format,
    /// The container's text payload does not decode.
    Encoding,
    /// The editor or the toolchain could not be started.
    ToolInvocation,
    /// The toolchain ran and reported failure.
    Build,
}

/// What came of the work that a state named.
#[derive(Clone, Copy, Debug, PartialEq, Eq, Structural)]
pub enum Event {
    /// The work succeeded (for revalidation: the fingerprint matched).
    Done,
    /// Revalidation found the stored fingerprint out of date; elsewhere it
    /// reads as `Done`.
    Stale,
    /// The work failed.
    Failed(Fault),
}

/// Whether a container path names a file: the precondition of both
/// workflows.
pub fn check_file(is_file: bool) -> (r: Result<(), Fault>)
    ensures
        is_file ==> r == Ok::<(), Fault>(()),
        !is_file ==> r == Err::<(), Fault>(Fault::NotAFile),
{
    if is_file {
        Ok(())
    } else {
        Err(Fault::NotAFile)
    }
}

/// The bytes of a fresh container: the manifest, source and payload, with
/// the fingerprint of manifest and source on `platform`.
pub fn pack(manifest: &[u8], source: &[u8], payload: &[u8], encoding: Encoding, platform: &[u8]) -> (r: Vec<u8>)
    requires
        encoding == Encoding::Raw ==> payload@.len() <= u32::MAX,
    ensures
        r@ == spec_encode(
            manifest@,
            source@,
            payload@,
            encoding,
            spec_fingerprint(manifest@, source@, platform@),
        ),
        manifest_ok(manifest@) ==> spec_decode(r@) == Ok::<_, CodecError>(
            (
                manifest@,
                source@,
                payload@,
                encoding,
                spec_fingerprint(manifest@, source@, platform@),
            ),
        ),
{
    let f = fingerprint(manifest, source, platform);
    encode(manifest, source, payload, encoding, f)
}

// ----- edit: extract, generate the tree, edit, build (back to edit on a
// failed build), pack, clean up -----

#[derive(Clone, Copy, Debug, PartialEq, Eq, Structural)]
pub enum EditStage {
    /// Decode the manifest and source from the container.
    Extract,
    /// Write the build tree.
    GenerateTree,
    /// Run the editor on the tree, until it exits.
    Edit,
    /// Run the toolchain on the tree and read back manifest, source and artifact.
    Build,
    /// Fingerprint, encode and write the container.
    Pack,
    /// Remove the build tree.
    Cleanup,
    /// Nothing left to do.
    Finished,
}

/// The state of an edit workflow.
#[derive(Clone, Copy, Debug)]
pub struct EditFlow {
    pub stage: EditStage,
    /// Why the workflow aborted, if it did.
    pub error: Option<Fault>,
    /// Removing the build tree failed (reported; it reverses nothing).
    pub cleanup_failed: bool,
}

/// The edit workflow's transition from one state on one event.
pub open spec fn edit_next(s: EditFlow, ev: Event) -> EditFlow {
    match s.stage {
        EditStage::Extract => match ev {
            Event::Failed(f) => EditFlow { stage: EditStage::Finished, error: Some(f), ..s },
            _ => EditFlow { stage: EditStage::GenerateTree, ..s },
        },
        EditStage::GenerateTree => match ev {
            Event::Failed(f) => EditFlow { stage: EditStage::Finished, error: Some(f), ..s },
            _ => EditFlow { stage: EditStage::Edit, ..s },
        },
        EditStage::Edit => match ev {
            Event::Failed(f) => EditFlow { stage: EditStage::Cleanup, error: Some(f), ..s },
            _ => EditFlow { stage: EditStage::Build, ..s },
        },
        EditStage::Build => match ev {
            Event::Failed(Fault::Build) => EditFlow { stage: EditStage::Edit, ..s },
            Event::Failed(f) => EditFlow { stage: EditStage::Cleanup, error: Some(f), ..s },
            _ => EditFlow { stage: EditStage::Pack, ..s },
        },
        EditStage::Pack => match ev {
            Event::Failed(f) => EditFlow { stage: EditStage::Cleanup, error: Some(f), ..s },
            _ => EditFlow { stage: EditStage::Cleanup, ..s },
        },
        EditStage::Cleanup => match ev {
            Event::Failed(_) => EditFlow { stage: EditStage::Finished, cleanup_failed: true, ..s },
            _ => EditFlow { stage: EditStage::Finished, ..s },
        },
        EditStage::Finished => s,
    }
}

impl EditFlow {
    /// A fresh edit workflow, about to extract.
    pub fn new() -> (r: EditFlow)
        ensures
            r == (EditFlow { stage: EditStage::Extract, error: None, cleanup_failed: false }),
    {
        EditFlow { stage: EditStage::Extract, error: None, cleanup_failed: false }
    }

    /// The next state, once the work that this state named has given `ev`.
    pub fn step(self, ev: Event) -> (r: EditFlow)
        ensures
            r == edit_next(self, ev),
    {
        match self.stage {
            EditStage::Extract => match ev {
                Event::Failed(f) => EditFlow { stage: EditStage::Finished, error: Some(f), ..self },
                _ => EditFlow { stage: EditStage::GenerateTree, ..self },
            },
            EditStage::GenerateTree => match ev {
                Event::Failed(f) => EditFlow { stage: EditStage::Finished, error: Some(f), ..self },
                _ => EditFlow { stage: EditStage::Edit, ..self },
            },
            EditStage::Edit => match ev {
                Event::Failed(f) => EditFlow { stage: EditStage::Cleanup, error: Some(f), ..self },
                _ => EditFlow { stage: EditStage::Build, ..self },
            },
            EditStage::Build => match ev {
                Event::Failed(Fault::Build) => EditFlow { stage: EditStage::Edit, ..self },
                Event::Failed(f) => EditFlow { stage: EditStage::Cleanup, error: Some(f), ..self },
                _ => EditFlow { stage: EditStage::Pack, ..self },
            },
            EditStage::Pack => match ev {
                Event::Failed(f) => EditFlow { stage: EditStage::Cleanup, error: Some(f), ..self },
                _ => EditFlow { stage: EditStage::Cleanup, ..self },
            },
            EditStage::Cleanup => match ev {
                Event::Failed(_) => EditFlow {
                    stage: EditStage::Finished,
                    cleanup_failed: true,
                    ..self
                },
                _ => EditFlow { stage: EditStage::Finished, ..self },
            },
            EditStage::Finished => self,
        }
    }

    /// Whether the workflow has ended.
    pub fn is_finished(&self) -> (r: bool)
        ensures
            r == (self.stage == EditStage::Finished),
    {
        self.stage == EditStage::Finished
    }
}

// ----- run: extract, revalidate if asked, rebuild once if stale,
// materialize, execute, remove the binary -----

#[derive(Clone, Copy, Debug, PartialEq, Eq, Structural)]
pub enum RunStage {
    /// Decode the payload and fingerprint from the container.
    Extract,
    /// Decode manifest and source and compare fingerprints.
    Revalidate,
    /// Write the build tree for a rebuild.
    GenerateTree,
    /// Run the toolchain once; a failed build is fatal here.
    Build,
    /// Fingerprint, encode and write the container.
    Pack,
    /// Remove the build tree.
    RemoveTree,
    /// Decode the payload from the fresh container.
    Reextract,
    /// Write the payload to an executable file beside the container.
    Materialize,
    /// Run that file, until it exits.
    Execute,
    /// Remove that file.
    RemoveBinary,
    /// Nothing left to do.
    Finished,
}

/// The state of a run workflow.
#[derive(Clone, Copy, Debug)]
pub struct RunFlow {
    pub stage: RunStage,
    /// Whether the stored fingerprint is checked before running.
    pub check_staleness: bool,
    /// Why the workflow aborted, if it did.
    pub error: Option<Fault>,
    /// Removing a build tree or the executable failed (reported; it
    /// reverses nothing).
    pub cleanup_failed: bool,
}

/// The run workflow's transition from one state on one event.
pub open spec fn run_next(s: RunFlow, ev: Event) -> RunFlow {
    match s.stage {
        RunStage::Extract => match ev {
            Event::Failed(f) => RunFlow { stage: RunStage::Finished, error: Some(f), ..s },
            _ => RunFlow {
                stage: if s.check_staleness {
                    RunStage::Revalidate
                } else {
                    RunStage::Materialize
                },
                ..s
            },
        },
        RunStage::Revalidate => match ev {
            Event::Failed(f) => RunFlow { stage: RunStage::Finished, error: Some(f), ..s },
            Event::Stale => RunFlow { stage: RunStage::GenerateTree, ..s },
            Event::Done => RunFlow { stage: RunStage::Materialize, ..s },
        },
        RunStage::GenerateTree => match ev {
            Event::Failed(f) => RunFlow { stage: RunStage::Finished, error: Some(f), ..s },
            _ => RunFlow { stage: RunStage::Build, ..s },
        },
        RunStage::Build => match ev {
            Event::Failed(f) => RunFlow { stage: RunStage::RemoveTree, error: Some(f), ..s },
            _ => RunFlow { stage: RunStage::Pack, ..s },
        },
        RunStage::Pack => match ev {
            Event::Failed(f) => RunFlow { stage: RunStage::RemoveTree, error: Some(f), ..s },
            _ => RunFlow { stage: RunStage::RemoveTree, ..s },
        },
        RunStage::RemoveTree => RunFlow {
            stage: if s.error is None {
                RunStage::Reextract
            } else {
                RunStage::Finished
            },
            cleanup_failed: s.cleanup_failed || ev is Failed,
            ..s
        },
        RunStage::Reextract => match ev {
            Event::Failed(f) => RunFlow { stage: RunStage::Finished, error: Some(f), ..s },
            _ => RunFlow { stage: RunStage::Materialize, ..s },
        },
        RunStage::Materialize => match ev {
            Event::Failed(f) => RunFlow { stage: RunStage::RemoveBinary, error: Some(f), ..s },
            _ => RunFlow { stage: RunStage::Execute, ..s },
        },
        RunStage::Execute => match ev {
            Event::Failed(f) => RunFlow { stage: RunStage::RemoveBinary, error: Some(f), ..s },
            _ => RunFlow { stage: RunStage::RemoveBinary, ..s },
        },
        RunStage::RemoveBinary => RunFlow {
            stage: RunStage::Finished,
            cleanup_failed: s.cleanup_failed || ev is Failed,
            ..s
        },
        RunStage::Finished => s,
    }
}

impl RunFlow {
    /// A fresh run workflow, about to extract.
    pub fn new(check_staleness: bool) -> (r: RunFlow)
        ensures
            r == (RunFlow {
                stage: RunStage::Extract,
                check_staleness,
                error: None,
                cleanup_failed: false,
            }),
    {
        RunFlow { stage: RunStage::Extract, check_staleness, error: None, cleanup_failed: false }
    }

    /// The next state, once the work that this state named has given `ev`.
    pub fn step(self, ev: Event) -> (r: RunFlow)
        ensures
            r == run_next(self, ev),
    {
        let failed = match ev {
            Event::Failed(_) => true,
            _ => false,
        };
        match self.stage {
            RunStage::Extract => match ev {
                Event::Failed(f) => RunFlow { stage: RunStage::Finished, error: Some(f), ..self },
                _ => RunFlow {
                    stage: if self.check_staleness {
                        RunStage::Revalidate
                    } else {
                        RunStage::Materialize
                    },
                    ..self
                },
            },
            RunStage::Revalidate => match ev {
                Event::Failed(f) => RunFlow { stage: RunStage::Finished, error: Some(f), ..self },
                Event::Stale => RunFlow { stage: RunStage::GenerateTree, ..self },
                Event::Done => RunFlow { stage: RunStage::Materialize, ..self },
            },
            RunStage::GenerateTree => match ev {
                Event::Failed(f) => RunFlow { stage: RunStage::Finished, error: Some(f), ..self },
                _ => RunFlow { stage: RunStage::Build, ..self },
            },
            RunStage::Build => match ev {
                Event::Failed(f) => RunFlow { stage: RunStage::RemoveTree, error: Some(f), ..self },
                _ => RunFlow { stage: RunStage::Pack, ..self },
            },
            RunStage::Pack => match ev {
                Event::Failed(f) => RunFlow { stage: RunStage::RemoveTree, error: Some(f), ..self },
                _ => RunFlow { stage: RunStage::RemoveTree, ..self },
            },
            RunStage::RemoveTree => RunFlow {
                stage: if self.error.is_none() {
                    RunStage::Reextract
                } else {
                    RunStage::Finished
                },
                cleanup_failed: self.cleanup_failed || failed,
                ..self
            },
            RunStage::Reextract => match ev {
                Event::Failed(f) => RunFlow { stage: RunStage::Finished, error: Some(f), ..self },
                _ => RunFlow { stage: RunStage::Materialize, ..self },
            },
            RunStage::Materialize => match ev {
                Event::Failed(f) => RunFlow {
                    stage: RunStage::RemoveBinary,
                    error: Some(f),
                    ..self
                },
                _ => RunFlow { stage: RunStage::Execute, ..self },
            },
            RunStage::Execute => match ev {
                Event::Failed(f) => RunFlow {
                    stage: RunStage::RemoveBinary,
                    error: Some(f),
                    ..self
                },
                _ => RunFlow { stage: RunStage::RemoveBinary, ..self },
            },
            RunStage::RemoveBinary => RunFlow {
                stage: RunStage::Finished,
                cleanup_failed: self.cleanup_failed || failed,
                ..self
            },
            RunStage::Finished => self,
        }
    }

    /// Whether the workflow has ended.
    pub fn is_finished(&self) -> (r: bool)
        ensures
            r == (self.stage == RunStage::Finished),
    {
        self.stage == RunStage::Finished
    }
}

/// How far along a run a stage lies.
pub open spec fn run_rank(stage: RunStage) -> int {
    match stage {
        RunStage::Extract => 0,
        RunStage::Revalidate => 1,
        RunStage::GenerateTree => 2,
        RunStage::Build => 3,
        RunStage::Pack => 4,
        RunStage::RemoveTree => 5,
        RunStage::Reextract => 6,
        RunStage::Materialize => 7,
        RunStage::Execute => 8,
        RunStage::RemoveBinary => 9,
        RunStage::Finished => 10,
    }
}

/// Every step of an unfinished run moves it strictly forward, so a run
/// visits each stage at most once: the toolchain runs at most one time.
pub proof fn lemma_run_advances(s: RunFlow, ev: Event)
    requires
        s.stage != RunStage::Finished,
    ensures
        run_rank(run_next(s, ev).stage) > run_rank(s.stage),
{
}

/// A fingerprint found fresh sends the run straight to the binary, past the
/// toolchain; one found stale sends it to a rebuild.
pub proof fn lemma_revalidation(s: RunFlow)
    requires
        s.stage == RunStage::Revalidate,
    ensures
        run_next(s, Event::Done).stage == RunStage::Materialize,
        run_rank(RunStage::Build) < run_rank(run_next(s, Event::Done).stage),
        run_next(s, Event::Stale).stage == RunStage::GenerateTree,
{
}

/// In an edit, a failed build always returns to the editor, and the
/// container is packed only right after a build that succeeded.
pub proof fn lemma_edit_build_outcomes(s: EditFlow, ev: Event)
    ensures
        s.stage == EditStage::Build && ev == Event::Failed(Fault::Build) ==> edit_next(s, ev).stage
            == EditStage::Edit,
        edit_next(s, ev).stage == EditStage::Pack ==> s.stage == EditStage::Build && !(ev is Failed),
{
}

} // verus!
