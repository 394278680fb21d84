use vstd::prelude::*;
use vstd::utf8::{decode_utf8, valid_utf8};

verus! {

/// Why a run of the store's command line, or the decoding of what it printed,
/// gave nothing usable.
#[derive(Debug, Clone, PartialEq, Eq, Structural)]
pub enum CommandError {
    /// The program could not be started.
    SpawnFailure,
    /// The program exited with this non-zero status.
    NonZeroExit(i32),
    /// The program was stopped by a signal and has no exit status.
    Terminated,
    /// What the program printed is not UTF-8 text.
    UndecodableOutput,
    /// The catalog listing is not the expected JSON.
    CatalogDecodeFailure,
    /// An item's detail record is not the expected JSON.
    DetailDecodeFailure,
}

/// Relies on String::from_utf8: it succeeds exactly on valid UTF-8 and then
/// holds the decoded characters.
#[verifier::external_body]
fn utf8_text(bytes: Vec<u8>) -> (r: Option<String>)
    ensures
        r.is_some() == valid_utf8(bytes@),
        r.is_some() ==> r.unwrap()@ == decode_utf8(bytes@),
{
    String::from_utf8(bytes).ok()
}

/// Classifies a finished run of the command line from its exit status
/// (`None` when a signal stopped it) and the bytes it printed.
pub fn decode_output(exit_code: Option<i32>, stdout: Vec<u8>) -> (r: Result<String, CommandError>)
    ensures
        exit_code == Some(0i32) ==> (r matches Ok(s) ==> valid_utf8(stdout@) && s@ == decode_utf8(stdout@)),
        exit_code == Some(0i32) ==> (r is Err ==> !valid_utf8(stdout@) && r == Err::<String, CommandError>(CommandError::UndecodableOutput)),
        exit_code == Some(0i32) ==> (r is Ok <==> valid_utf8(stdout@)),
        exit_code is None ==> r == Err::<String, CommandError>(CommandError::Terminated),
        exit_code.is_some() && exit_code.unwrap() != 0 ==> r == Err::<String, CommandError>(
            CommandError::NonZeroExit(exit_code.unwrap()),
        ),
{
    match exit_code {
        None => Err(CommandError::Terminated),
        Some(c) => {
            if c != 0 {
                Err(CommandError::NonZeroExit(c))
            } else {
                match utf8_text(stdout) {
                    Some(s) => Ok(s),
                    None => Err(CommandError::UndecodableOutput),
                }
            }
        },
    }
}

/// What the loader does after a run of the catalog listing.
#[derive(Debug, PartialEq, Eq)]
pub enum ListingStep {
    /// Run the identical listing once more.
    RunAgain,
    /// Stop with this outcome.
    Finished(Result<String, CommandError>),
}

/// Whether the outcome of a listing run calls for one more: only a non-zero
/// exit of the first run (`attempt == 0`) is retried; everything else is final.
pub fn after_listing(attempt: u32, outcome: Result<String, CommandError>) -> (r: ListingStep)
    ensures
        (attempt == 0 && outcome matches Err(CommandError::NonZeroExit(_))) ==> r == ListingStep::RunAgain,
        !(attempt == 0 && outcome matches Err(CommandError::NonZeroExit(_))) ==> r == ListingStep::Finished(outcome),
{
    if attempt == 0 {
        if let Err(CommandError::NonZeroExit(_)) = outcome {
            return ListingStep::RunAgain;
        }
    }
    ListingStep::Finished(outcome)
}

} // verus!
