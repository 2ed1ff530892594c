//! The typesetting engines the tool knows, and what they produce.
use vstd::prelude::*;

use crate::errors::BuildError;
use crate::scan::str_eq;

verus! {

/// The engine executables the tool recognizes.
#[derive(Clone, Copy, Debug, PartialEq, Eq, Structural)]
pub enum LaTeXEngine {
    Pdflatex,
    Luatex,
    Pdftex,
}

/// The engine names with a known output extension.
pub open spec fn known_engine(e: Seq<char>) -> bool {
    e == "pdflatex"@ || e == "pdftex"@ || e == "luatex"@
}

/// The extension of the primary artifact the named engine produces:
/// `".pdf"` for every recognized engine, an error for any other name.
pub fn get_extension_for_engine(engine: &str) -> (r: Result<String, BuildError>)
    ensures
        r is Ok <==> known_engine(engine@),
        r matches Ok(ext) ==> ext@ == ".pdf"@,
        r matches Err(e) ==> e == BuildError::UnrecognisedEngine,
{
    if str_eq(engine, "pdflatex") || str_eq(engine, "pdftex") || str_eq(engine, "luatex") {
        Ok(".pdf".to_owned())
    } else {
        Err(BuildError::UnrecognisedEngine)
    }
}

} // verus!
