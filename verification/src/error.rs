//! The error taxonomy handed back to the caller of `parse`.

use vstd::prelude::*;

use crate::preprocess::CPPDirective;

verus! {

/// Relies on lang_c::driver::SyntaxError, the failure value of lang_c's
/// grammar parser; declared so that the library can carry it through
/// untouched. The library never reads inside it.
#[verifier::external_type_specification]
#[verifier::external_body]
pub struct ExSyntaxError(lang_c::driver::SyntaxError);

/// Why a source text was rejected.
pub enum CInputError {
    /// A preprocessor directive or predefined macro was found: the 0-based
    /// line number, the full text of that line (without its terminator),
    /// and the matched kind.
    PreprocessorError(usize, String, CPPDirective),
    /// The scan was clean, but lang_c's grammar parser rejected the text;
    /// its failure is passed through untouched.
    LangCSyntaxError(lang_c::driver::SyntaxError),
}

} // verus!
