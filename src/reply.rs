use vstd::prelude::*;

use crate::error::PuzzleError;
use crate::grid::{well_formed, parse_spec};
use crate::puzzle::{solve, display, solve_spec};
use crate::render::{display_line, DISPLAY_LINES};

verus! {

/// The reply to a solve request.
pub struct SolveReply {
    /// `success` or `fail`.
    pub status: String,
    /// The solved digit text; empty on failure.
    pub data: String,
    /// Empty on success; the error's message on failure.
    pub message: String,
}

/// The reply to a display request.
pub struct DisplayReply {
    /// `success` or `fail`.
    pub status: String,
    /// The display lines; empty on failure.
    pub data: Vec<String>,
    /// Empty on success; the error's message on failure.
    pub message: String,
}

/// The status of a successful reply.
pub open spec fn success_text() -> Seq<char> {
    "success"@
}

/// The status of a failed reply.
pub open spec fn fail_text() -> Seq<char> {
    "fail"@
}

/// The outcome of solving the puzzle of a request; a request that holds no
/// puzzle text is an invalid grid.
pub open spec fn request_outcome(puzzle: Option<Seq<char>>) -> Result<Seq<char>, PuzzleError> {
    match puzzle {
        None => Err(PuzzleError::InvalidGrid),
        Some(p) => solve_spec(p),
    }
}

/// Builds the reply to a solve request whose puzzle text is `puzzle`
/// (`None` when the request held none).
pub fn solve_reply(puzzle: Option<&str>) -> (r: SolveReply)
    ensures
        match request_outcome(
            match puzzle {
                None => None,
                Some(p) => Some(p@),
            },
        ) {
            Ok(t) => r.status@ == success_text() && r.data@ == t && r.message@.len() == 0,
            Err(e) => r.status@ == fail_text() && r.data@.len() == 0 && r.message@
                == e.spec_message(),
        },
{
    let outcome = match puzzle {
        None => Err(PuzzleError::InvalidGrid),
        Some(p) => solve(p),
    };
    match outcome {
        Ok(t) => SolveReply { status: String::from_str("success"), data: t, message: String::new() },
        Err(e) => SolveReply {
            status: String::from_str("fail"),
            data: String::new(),
            message: e.message(),
        },
    }
}

/// Builds the reply to a display request whose puzzle text is `puzzle`
/// (`None` when the request held none).
pub fn display_reply(puzzle: Option<&str>) -> (r: DisplayReply)
    ensures
        match puzzle {
            Some(p) if well_formed(p@) => r.status@ == success_text() && r.message@.len() == 0
                && r.data@.len() == DISPLAY_LINES && forall|k: int|
                0 <= k < DISPLAY_LINES ==> (#[trigger] r.data@[k])@ == display_line(
                    parse_spec(p@),
                    k,
                ),
            _ => r.status@ == fail_text() && r.data@.len() == 0 && r.message@
                == PuzzleError::InvalidGrid.spec_message(),
        },
{
    let outcome = match puzzle {
        None => Err(PuzzleError::InvalidGrid),
        Some(p) => display(p),
    };
    match outcome {
        Ok(lines) => DisplayReply {
            status: String::from_str("success"),
            data: lines,
            message: String::new(),
        },
        Err(e) => DisplayReply {
            status: String::from_str("fail"),
            data: Vec::new(),
            message: e.message(),
        },
    }
}

} // verus!
