//! The work on one file: from its path and its text to the document and the
//! place where the document goes.

use vstd::prelude::*;
use crate::source::{render_source, source_document, SourceError};
use crate::utils::{output_path, output_path_text};

verus! {

/// A finished document and the path of the file that is to hold it.
#[derive(Debug, Clone)]
pub struct OutputUnit {
    pub path: String,
    pub document: String,
}

/// The mathematical value of an [`OutputUnit`].
pub ghost struct OutputModel {
    pub path: Seq<char>,
    pub document: Seq<char>,
}

impl View for OutputUnit {
    type V = OutputModel;

    open spec fn view(&self) -> OutputModel {
        OutputModel { path: self.path@, document: self.document@ }
    }
}

/// What the work on one file yields: the document of its text, to be written
/// where the path is mapped to, or the reason why the text has no document.
pub open spec fn file_outcome(
    file_path: Seq<char>,
    source: Seq<char>,
    input_dir: Seq<char>,
    output_dir: Seq<char>,
) -> Result<OutputModel, SourceError> {
    match source_document(source) {
        Ok(document) => Ok(
            OutputModel { path: output_path_text(file_path, input_dir, output_dir), document },
        ),
        Err(e) => Err(e),
    }
}

/// The value of an outcome of the work on one file.
pub open spec fn outcome_model(outcome: Result<OutputUnit, SourceError>) -> Result<
    OutputModel,
    SourceError,
> {
    match outcome {
        Ok(unit) => Ok(unit@),
        Err(e) => Err(e),
    }
}

/// Does the work on one file whose text has been read: renders the text and
/// pairs the document with the path it is to be written to.
pub fn process(file_path: &str, source: &str, input_dir: &str, output_dir: &str) -> (outcome:
    Result<OutputUnit, SourceError>)
    ensures
        outcome_model(outcome) == file_outcome(file_path@, source@, input_dir@, output_dir@),
{
    match render_source(source) {
        Ok(document) => Ok(
            OutputUnit { path: output_path(file_path, input_dir, output_dir), document },
        ),
        Err(e) => Err(e),
    }
}

/// Unchanged input gives unchanged output: two outcomes of the work on the
/// same path and text, with the same directories, are the same path and the
/// same document, character for character, or the same failure.
pub proof fn same_input_same_output(
    file_path: Seq<char>,
    source: Seq<char>,
    input_dir: Seq<char>,
    output_dir: Seq<char>,
    first: Result<OutputUnit, SourceError>,
    second: Result<OutputUnit, SourceError>,
)
    requires
        outcome_model(first) == file_outcome(file_path, source, input_dir, output_dir),
        outcome_model(second) == file_outcome(file_path, source, input_dir, output_dir),
    ensures
        outcome_model(first) == outcome_model(second),
        first is Ok ==> second is Ok && first->Ok_0.path@ == second->Ok_0.path@
            && first->Ok_0.document@ == second->Ok_0.document@,
        first is Err ==> second is Err && first->Err_0 == second->Err_0,
{
}

} // verus!
