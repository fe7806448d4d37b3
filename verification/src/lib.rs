//! Front end and evaluator of a small expression language: a scanner that
//! turns source text into tokens, a recursive-descent parser that turns
//! tokens into statements, and a tree-walking evaluator that reduces each
//! statement to a value or a runtime error.
//!
//! The library computes; it performs no input or output. `run` takes source
//! text and yields the texts the program prints together with the errors of
//! all three stages; the driver around the library reads files or lines and
//! writes the results out.

use vstd::prelude::*;

pub mod expr;
pub mod interpreter;
pub mod lexer;
pub mod number;
pub mod parser;
pub mod stmt;
pub mod token;

use crate::interpreter::{run_from, Interpreter, RuntimeError};
use crate::lexer::{scan_all, LexError, Lexer};
use crate::parser::{parse_program, ParseError, Parser};

verus! {

/// What the driver hands the library after reading the command line:
/// a source file path, or none for interactive input.
pub struct Args {
    pub file: Option<String>,
}

/// Everything one run of a source text yields: the texts its print
/// statements emit (up to the first runtime error), and the errors each
/// stage collected.
pub struct RunOutcome {
    pub outputs: Vec<String>,
    pub lex_errors: Vec<LexError>,
    pub parse_errors: Vec<ParseError>,
    pub runtime_error: Option<RuntimeError>,
}

/// Run a source text through all three stages: scan it, parse the tokens,
/// and execute the statements in order until the first runtime error.
/// Lexical and syntax errors are collected, not fatal: the statements that
/// parse are executed. Every field of the outcome is pinned to the spec
/// pipeline: the scan, the parse of the scanned tokens, and the run of the
/// parsed statements.
pub fn run(source: &str) -> (r: RunOutcome)
    requires
        source@.len() < usize::MAX,
    ensures
        ({
            let scanned = scan_all(source@, 0, 1);
            let parsed = parse_program(scanned.toks, 0);
            let ran = run_from(parsed.0, 0);
            &&& r.lex_errors@ == scanned.errs
            &&& r.parse_errors@ == parsed.1
            &&& r.outputs@.map_values(|s: String| s@) == ran.0
            &&& match (r.runtime_error, ran.1) {
                (Some(e), Some(ev)) => e@ == ev,
                (None, None) => true,
                _ => false,
            }
        }),
{
    let mut lexer = Lexer::new(source);
    lexer.scan_tokens();
    let lex_errors = lexer.errors;
    let mut parser = Parser::new(lexer.tokens);
    let (statements, parse_errors) = parser.parse();
    let interpreter = Interpreter::new();
    let (outputs, runtime_error) = interpreter.run(&statements);
    RunOutcome { outputs, lex_errors, parse_errors, runtime_error }
}

} // verus!
