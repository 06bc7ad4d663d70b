//! The output sink's decision and reporting logic: whether a write may
//! proceed, which error a failed write is reported as, and the exact
//! diagnostic and confirmation messages.

use vstd::prelude::*;

verus! {

/// What one invocation should do with the generated guard text.
#[derive(Clone, Copy, Debug, PartialEq, Eq, Structural)]
pub enum EmitPlan {
    /// No output path was given: print the guard to standard output.
    ToStdout,
    /// An output path was given and writing it is allowed.
    ToFile,
    /// The target exists and overwriting was not requested: refuse.
    RefuseExisting,
}

/// Decide what to do with the guard text. The target may be written only
/// when it does not already exist or overwriting was requested.
pub fn plan_emit(output_path: &Option<String>, overwrite: bool, target_exists: bool) -> (r:
    EmitPlan)
    ensures
        output_path is None ==> r == EmitPlan::ToStdout,
        output_path is Some && (overwrite || !target_exists) ==> r == EmitPlan::ToFile,
        output_path is Some && !overwrite && target_exists ==> r == EmitPlan::RefuseExisting,
{
    match output_path {
        None => EmitPlan::ToStdout,
        Some(_) => {
            if !overwrite && target_exists {
                EmitPlan::RefuseExisting
            } else {
                EmitPlan::ToFile
            }
        },
    }
}

/// A failure of the file sink. Creation and write failures carry the text
/// of the underlying error.
#[derive(Debug)]
pub enum SinkError {
    /// The target exists and overwriting was not requested.
    AlreadyExists,
    /// The filesystem denied access to the target.
    PermissionDenied,
    /// The target could not be created for another reason.
    CreateFailed(String),
    /// The guard bytes could not be written out.
    WriteFailed(String),
}

/// The diagnostic reported for a sink error at the given path.
pub open spec fn sink_error_text(e: SinkError, path: Seq<char>) -> Seq<char> {
    match e {
        SinkError::AlreadyExists => "Error: File '"@ + path
            + "' already exists. Use --overwrite to overwrite."@,
        SinkError::PermissionDenied => "Error: Permission denied when accessing '"@ + path + "'."@,
        SinkError::CreateFailed(detail) => "Error creating file '"@ + path + "': "@ + detail@,
        SinkError::WriteFailed(detail) => "Error writing to file '"@ + path + "': "@ + detail@,
    }
}

/// The confirmation printed after a successful file write.
pub open spec fn success_text(path: Seq<char>) -> Seq<char> {
    "Guard written to '"@ + path + "'."@
}

impl SinkError {
    /// Render the one-line diagnostic for this error at the given path.
    pub fn message(&self, path: &str) -> (r: String)
        ensures
            r@ == sink_error_text(*self, path@),
    {
        proof {
            reveal_strlit("Error: File '");
            reveal_strlit("' already exists. Use --overwrite to overwrite.");
            reveal_strlit("Error: Permission denied when accessing '");
            reveal_strlit("'.");
            reveal_strlit("Error creating file '");
            reveal_strlit("Error writing to file '");
            reveal_strlit("': ");
        }
        let mut out = String::new();
        match self {
            SinkError::AlreadyExists => {
                out.append("Error: File '");
                out.append(path);
                out.append("' already exists. Use --overwrite to overwrite.");
            },
            SinkError::PermissionDenied => {
                out.append("Error: Permission denied when accessing '");
                out.append(path);
                out.append("'.");
            },
            SinkError::CreateFailed(detail) => {
                out.append("Error creating file '");
                out.append(path);
                out.append("': ");
                out.append(detail.as_str());
            },
            SinkError::WriteFailed(detail) => {
                out.append("Error writing to file '");
                out.append(path);
                out.append("': ");
                out.append(detail.as_str());
            },
        }
        out
    }
}

/// Render the confirmation for a successful write to the given path.
pub fn success_message(path: &str) -> (r: String)
    ensures
        r@ == success_text(path@),
{
    proof {
        reveal_strlit("Guard written to '");
        reveal_strlit("'.");
    }
    let mut out = String::new();
    out.append("Guard written to '");
    out.append(path);
    out.append("'.");
    out
}

} // verus!
