use crate::chars::segments;
use crate::chars::str_eq;
use crate::chars::tokenize;
use crate::chars::SepKind;
use crate::expense::expense_result_matches;
use crate::expense::Expense;
use crate::expense::ExpenseParseError;
use vstd::prelude::*;

verus! {

/// What one input line asks for.
pub enum Command {
    Exit,
    Unknown(String),
    New(Expense),
}

/// Why an input line yields no command.
#[derive(Debug)]
pub enum AppError {
    NoCommand,
    ExpenseErr(ExpenseParseError),
}

/// The interactive session: it holds the prompt, and reads commands out of
/// input lines. Printing the prompt and looping over standard input stay
/// with the caller.
pub struct App {
    pub promt: &'static str,
}

/// What reading a command from a line yields: nothing on a blank line,
/// `exit`, a new expense parsed from the tokens after `new`, or the unknown
/// keyword itself.
pub open spec fn command_result_matches(s: Seq<char>, r: Result<Command, AppError>) -> bool {
    let toks = segments(SepKind::Whitespace, s);
    if toks.len() == 0 {
        r matches Err(AppError::NoCommand)
    } else if toks[0] == "exit"@ {
        r matches Ok(Command::Exit)
    } else if toks[0] == "new"@ {
        match r {
            Ok(c) => c matches Command::New(e) && expense_result_matches(toks.drop_first(), Ok(e)),
            Err(a) => a matches AppError::ExpenseErr(e) && expense_result_matches(
                toks.drop_first(),
                Err(e),
            ),
        }
    } else {
        r matches Ok(c) && c matches Command::Unknown(u) && u@ == toks[0]
    }
}

impl App {
    pub fn new(promt: &'static str) -> (r: Self)
        ensures
            r.promt == promt,
    {
        Self { promt }
    }

    /// Split an input line on whitespace, read the leading keyword, and for
    /// `new` parse an expense record from the remaining tokens.
    pub fn get_command(input: &str) -> (r: Result<Command, AppError>)
        ensures
            command_result_matches(input@, r),
    {
        let toks = tokenize(input);
        let ghost tok_segs = segments(SepKind::Whitespace, input@);
        if toks.len() == 0 {
            return Err(AppError::NoCommand);
        }
        proof {
            assert(toks.deep_view()[0] == toks@[0]@);
        }
        if str_eq(toks[0].as_str(), "exit") {
            return Ok(Command::Exit);
        }
        if str_eq(toks[0].as_str(), "new") {
            let mut rest: Vec<String> = Vec::new();
            let mut i: usize = 1;
            while i < toks.len()
                invariant
                    1 <= i <= toks@.len(),
                    toks.deep_view() == tok_segs,
                    rest@.len() == i - 1,
                    forall|j: int| 0 <= j < i - 1 ==> (#[trigger] rest@[j])@ == tok_segs[j + 1],
                decreases toks@.len() - i,
            {
                let t = toks[i].clone();
                proof {
                    assert(toks.deep_view()[i as int] == toks@[i as int]@);
                    assert(t@ == tok_segs[i as int]);
                }
                rest.push(t);
                i = i + 1;
            }
            proof {
                assert forall|j: int| 0 <= j < rest.deep_view().len() implies rest.deep_view()[j]
                    == tok_segs.drop_first()[j] by {
                    assert((#[trigger] rest@[j])@ == tok_segs[j + 1]);
                }
                assert(rest.deep_view() =~= tok_segs.drop_first());
            }
            return match Expense::parse_iter(&rest) {
                Ok(e) => Ok(Command::New(e)),
                Err(e) => Err(AppError::ExpenseErr(e)),
            };
        }
        let unknown = toks[0].clone();
        Ok(Command::Unknown(unknown))
    }
}

} // verus!
