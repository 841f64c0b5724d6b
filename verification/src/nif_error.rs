//! The errors that the document operations report to the host, with the
//! exact text each one is reported with.
use vstd::prelude::*;
use vstd::string::StringExecFns;

verus! {

/// The document step whose failure an error reports; each adds its own prefix.
#[derive(PartialEq, Eq, Structural, Clone, Copy, Debug)]
pub enum AmStep {
    /// Following a path key (`Navigation error: `).
    Navigation,
    /// Reading a value (`Get error: `).
    Get,
    /// Storing a scalar or list element (no prefix).
    Write,
    /// Creating a nested object (`Put object error: `).
    PutObject,
    /// Deleting a key, element or characters (`Delete error: `).
    Delete,
    /// Creating a text object (`Create text error: `).
    CreateText,
    /// Filling a new text object (`Splice error: `).
    Splice,
    /// Inserting characters (`Insert error: `).
    Insert,
    /// Reading text (`Get text error: `).
    GetText,
    /// Incrementing a counter (`Increment error: `).
    Increment,
    /// Creating a counter (`Put counter error: `).
    PutCounter,
    /// Parsing a saved document (`Load error: `).
    Load,
    /// Merging another document (`Merge error: `).
    Merge,
    /// Rendering a document as JSON (`JSON serialization error: `).
    Json,
}

/// An error of a document operation.
#[derive(Debug)]
pub enum NifError {
    DocumentNotFound,
    PathNotFound(String),
    UnsupportedValueType,
    InvalidObjectType,
    NotACounter,
    CounterNotFound,
    /// A failed document step, with the failure's own text.
    Automerge(AmStep, String),
}

/// The prefix that a failed step's text is reported under.
pub open spec fn step_prefix(step: AmStep) -> Seq<char> {
    match step {
        AmStep::Navigation => "Navigation error: "@,
        AmStep::Get => "Get error: "@,
        AmStep::Write => ""@,
        AmStep::PutObject => "Put object error: "@,
        AmStep::Delete => "Delete error: "@,
        AmStep::CreateText => "Create text error: "@,
        AmStep::Splice => "Splice error: "@,
        AmStep::Insert => "Insert error: "@,
        AmStep::GetText => "Get text error: "@,
        AmStep::Increment => "Increment error: "@,
        AmStep::PutCounter => "Put counter error: "@,
        AmStep::Load => "Load error: "@,
        AmStep::Merge => "Merge error: "@,
        AmStep::Json => "JSON serialization error: "@,
    }
}

impl NifError {
    /// The text the host receives for this error.
    pub open spec fn spec_message(&self) -> Seq<char> {
        match self {
            NifError::DocumentNotFound => "Document not found"@,
            NifError::PathNotFound(key) => "Path not found: "@ + key@,
            NifError::UnsupportedValueType => "Unsupported value type"@,
            NifError::InvalidObjectType => "Invalid object type: use map, list, or text"@,
            NifError::NotACounter => "Not a counter"@,
            NifError::CounterNotFound => "Counter not found"@,
            NifError::Automerge(step, detail) => step_prefix(*step) + detail@,
        }
    }

    /// The text the host receives for this error.
    pub fn message(&self) -> (text: String)
        ensures
            text@ == self.spec_message(),
    {
        match self {
            NifError::DocumentNotFound => "Document not found".to_owned(),
            NifError::PathNotFound(key) => {
                let mut text = "Path not found: ".to_owned();
                text.append(key.as_str());
                text
            },
            NifError::UnsupportedValueType => "Unsupported value type".to_owned(),
            NifError::InvalidObjectType => "Invalid object type: use map, list, or text".to_owned(),
            NifError::NotACounter => "Not a counter".to_owned(),
            NifError::CounterNotFound => "Counter not found".to_owned(),
            NifError::Automerge(step, detail) => {
                let mut text = step_prefix_text(*step);
                text.append(detail.as_str());
                text
            },
        }
    }
}

/// The text of each error: fixed sentences for the document, value and
/// counter errors; the missing key after `Path not found: `; and a failed
/// step's own text after the step's prefix (none for a write), so that, for
/// instance, a failed merge reads `Merge error: ` and then the merge's text.
pub proof fn law_error_texts(key: String, detail: String)
    ensures
        NifError::DocumentNotFound.spec_message() == "Document not found"@,
        NifError::PathNotFound(key).spec_message() == "Path not found: "@ + key@,
        NifError::UnsupportedValueType.spec_message() == "Unsupported value type"@,
        NifError::InvalidObjectType.spec_message() == "Invalid object type: use map, list, or text"@,
        NifError::NotACounter.spec_message() == "Not a counter"@,
        NifError::CounterNotFound.spec_message() == "Counter not found"@,
        NifError::Automerge(AmStep::Write, detail).spec_message() == detail@,
        NifError::Automerge(AmStep::Merge, detail).spec_message() == "Merge error: "@ + detail@,
        NifError::Automerge(AmStep::Load, detail).spec_message() == "Load error: "@ + detail@,
        NifError::Automerge(AmStep::Navigation, detail).spec_message() == "Navigation error: "@ + detail@,
        NifError::Automerge(AmStep::Get, detail).spec_message() == "Get error: "@ + detail@,
        NifError::Automerge(AmStep::Delete, detail).spec_message() == "Delete error: "@ + detail@,
        NifError::Automerge(AmStep::Increment, detail).spec_message() == "Increment error: "@ + detail@,
{
    reveal_strlit("");
    assert(""@ + detail@ =~= detail@);
}

/// The prefix that a failed step's text is reported under.
pub fn step_prefix_text(step: AmStep) -> (text: String)
    ensures
        text@ == step_prefix(step),
{
    match step {
        AmStep::Navigation => "Navigation error: ".to_owned(),
        AmStep::Get => "Get error: ".to_owned(),
        AmStep::Write => "".to_owned(),
        AmStep::PutObject => "Put object error: ".to_owned(),
        AmStep::Delete => "Delete error: ".to_owned(),
        AmStep::CreateText => "Create text error: ".to_owned(),
        AmStep::Splice => "Splice error: ".to_owned(),
        AmStep::Insert => "Insert error: ".to_owned(),
        AmStep::GetText => "Get text error: ".to_owned(),
        AmStep::Increment => "Increment error: ".to_owned(),
        AmStep::PutCounter => "Put counter error: ".to_owned(),
        AmStep::Load => "Load error: ".to_owned(),
        AmStep::Merge => "Merge error: ".to_owned(),
        AmStep::Json => "JSON serialization error: ".to_owned(),
    }
}

} // verus!
