use vstd::prelude::*;

verus! {

/// One file system operation of the rewrite protocol.
#[derive(Clone, Copy, Debug, PartialEq, Eq, Structural)]
pub enum FileStep {
    /// Delete the backup left by an earlier run.
    RemoveBackup,
    /// Rename the source to the backup.
    RenameSourceToBackup,
    /// Rename the temporary file to the source.
    RenameTempToSource,
    /// Delete the temporary file.
    RemoveTemp,
}

/// What to do after one operation.
#[derive(Clone, Copy, Debug, PartialEq, Eq, Structural)]
pub enum StepOutcome {
    /// Go on with the next operation.
    Continue,
    /// Stop and report the failure.
    Fail,
}

/// The operations that close a pass: commit when a pause was inserted,
/// otherwise discard the temporary file.
pub open spec fn finish_plan(pause_inserted: bool) -> Seq<FileStep> {
    if pause_inserted {
        seq![FileStep::RemoveBackup, FileStep::RenameSourceToBackup, FileStep::RenameTempToSource]
    } else {
        seq![FileStep::RemoveTemp]
    }
}

/// The operations that close a pass.
pub fn finish_steps(pause_inserted: bool) -> (r: Vec<FileStep>)
    ensures
        r@ == finish_plan(pause_inserted),
{
    if pause_inserted {
        vec![FileStep::RemoveBackup, FileStep::RenameSourceToBackup, FileStep::RenameTempToSource]
    } else {
        vec![FileStep::RemoveTemp]
    }
}

/// The operations after a failure during the pass: only the temporary file
/// goes; the source and any backup stay as they are.
pub fn abort_steps() -> (r: Vec<FileStep>)
    ensures
        r@ == seq![FileStep::RemoveTemp],
{
    vec![FileStep::RemoveTemp]
}

/// Whether a failed operation stops the protocol: a deletion that fails (the
/// file may not exist) is passed over, a rename that fails is fatal.
pub open spec fn outcome_of(step: FileStep, succeeded: bool) -> StepOutcome {
    if succeeded {
        StepOutcome::Continue
    } else {
        match step {
            FileStep::RenameSourceToBackup | FileStep::RenameTempToSource => StepOutcome::Fail,
            _ => StepOutcome::Continue,
        }
    }
}

/// Decides how to go on after an operation.
pub fn on_step_result(step: FileStep, succeeded: bool) -> (r: StepOutcome)
    ensures
        r == outcome_of(step, succeeded),
{
    if succeeded {
        return StepOutcome::Continue;
    }
    match step {
        FileStep::RenameSourceToBackup | FileStep::RenameTempToSource => StepOutcome::Fail,
        _ => StepOutcome::Continue,
    }
}

/// The path of the temporary file beside `source`.
pub fn temp_path(source: &str) -> (r: String)
    ensures
        r@ == source@ + ".tmp"@,
{
    let mut r = String::from_str(source);
    r.append(".tmp");
    r
}

/// The path of the backup file beside `source`.
pub fn backup_path(source: &str) -> (r: String)
    ensures
        r@ == source@ + ".bak"@,
{
    let mut r = String::from_str(source);
    r.append(".bak");
    r
}

/// The commit keeps the original: the source is renamed to the backup, never
/// deleted, and only after any old backup is gone; the new text arrives last.
pub proof fn lemma_commit_keeps_original()
    ensures
        finish_plan(true).len() == 3,
        finish_plan(true)[1] == FileStep::RenameSourceToBackup,
        finish_plan(true)[2] == FileStep::RenameTempToSource,
        forall|k: int| 0 <= k < 3 ==> #[trigger] finish_plan(true)[k] != FileStep::RemoveTemp,
{
}

/// A pass that inserted nothing touches neither the source nor the backup.
pub proof fn lemma_discard_keeps_source(pause_inserted: bool)
    requires
        !pause_inserted,
    ensures
        forall|k: int|
            0 <= k < finish_plan(pause_inserted).len() ==> #[trigger] finish_plan(
                pause_inserted,
            )[k] == FileStep::RemoveTemp,
{
}

} // verus!
