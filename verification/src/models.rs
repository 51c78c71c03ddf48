//! Results and progress messages shared by the converters.
use vstd::prelude::*;

verus! {

/// A file that could not be processed, and why.
#[derive(Clone, Debug)]
pub struct ProcessingError {
    pub file_path: String,
    pub message: String,
}

/// Outcome of a conversion run.
#[derive(Clone, Debug)]
pub struct ProcessingResult {
    pub success: bool,
    pub success_count: usize,
    pub error_count: usize,
    pub errors: Vec<ProcessingError>,
    pub output_path: String,
}

/// Phase a progress update belongs to.
#[derive(Debug, Clone, Copy, PartialEq, Eq, Structural)]
pub enum ProgressPhase {
    Processing,
    Saving,
}

/// Items done out of a total, in a phase.
#[derive(Debug, Clone, Copy, PartialEq, Eq, Structural)]
pub struct ProgressUpdate {
    pub count: usize,
    pub total: usize,
    pub phase: ProgressPhase,
}

/// A failed run with one error.
pub fn failed_result(output_path: &str, file_path: &str, message: &str) -> (r: ProcessingResult)
    ensures
        !r.success,
        r.success_count == 0,
        r.error_count == 1,
        r.errors@.len() == 1,
        r.errors@[0].file_path@ == file_path@,
        r.errors@[0].message@ == message@,
        r.output_path@ == output_path@,
{
    let mut errors: Vec<ProcessingError> = Vec::new();
    errors.push(
        ProcessingError { file_path: file_path.to_string(), message: message.to_string() },
    );
    ProcessingResult {
        success: false,
        success_count: 0,
        error_count: 1,
        errors,
        output_path: output_path.to_string(),
    }
}

} // verus!
