//! A line-oriented guard that inspects raw C source text before it reaches
//! the grammar parser: any preprocessor directive or predefined macro in the
//! text is reported, with its line, and blocks the full parse.

use vstd::prelude::*;

pub mod error;
pub mod preprocess;

use crate::error::CInputError;
use crate::preprocess::{check_preprocessor_tokens, is_scan_outcome, CPPDirective};

verus! {

/// Relies on lang_c::driver::Config, the configuration of lang_c's grammar
/// parser; declared so that a value of it can be built and handed through.
/// The library never reads inside it.
#[verifier::external_type_specification]
#[verifier::external_body]
pub struct ExConfig(lang_c::driver::Config);

/// Relies on lang_c::driver::Parse, the abstract syntax tree a successful
/// grammar parse returns; declared so that the library can hand it through
/// untouched. The library never reads inside it.
#[verifier::external_type_specification]
#[verifier::external_body]
pub struct ExParse(lang_c::driver::Parse);

/// Relies on lang_c::driver::Config::default: builds the parser
/// configuration for standard C with the platform's usual extensions. The
/// call only fills in a struct; the scan does not depend on its value.
#[verifier::external_body]
fn default_config() -> lang_c::driver::Config {
    lang_c::driver::Config::default()
}

/// Relies on lang_c::driver::parse_preprocessed: parses already-preprocessed
/// C source into an abstract syntax tree, returning its syntax error when
/// the text is not a valid translation unit. Which way it decides is the
/// grammar parser's own business, so nothing is promised of the result.
pub assume_specification[ lang_c::driver::parse_preprocessed ](
    config: &lang_c::driver::Config,
    source: String,
) -> Result<lang_c::driver::Parse, lang_c::driver::SyntaxError>;

/// Parses C source text, failing closed on preprocessor syntax.
///
/// The text is first scanned line by line; the first line holding a
/// preprocessor directive or predefined macro blocks the parse and is
/// reported exactly as `check_preprocessor_tokens` reports it. Only a text
/// whose scan is clean reaches lang_c's grammar parser, whose own failure,
/// if any, is passed through untouched.
pub fn parse(contents: String) -> (r: Result<lang_c::driver::Parse, CInputError>)
    ensures
        match r {
            Ok(_) => is_scan_outcome(contents@, None),
            Err(e) => match e {
                CInputError::PreprocessorError(ln, txt, k) => is_scan_outcome(
                    contents@,
                    Some((ln as int, txt@, k)),
                ),
                CInputError::LangCSyntaxError(_) => is_scan_outcome(contents@, None),
            },
        },
{
    match check_preprocessor_tokens(contents.as_str()) {
        Err(e) => Err(e),
        Ok(()) => {
            let config = default_config();
            match lang_c::driver::parse_preprocessed(&config, contents) {
                Ok(p) => Ok(p),
                Err(e) => Err(CInputError::LangCSyntaxError(e)),
            }
        },
    }
}

} // verus!
