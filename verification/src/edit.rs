//! What a command returns: an [`EditResult`], or why it did not apply.

use crate::text::texts;
use vstd::prelude::*;
use vstd::string::StringExecFns;

verus! {

/// Why a command did not apply.
#[derive(Debug)]
pub enum EditError {
    /// Input failed validation (bad index, missing clip, empty payload, ...).
    Invalid(String),
    /// A ripple edit was refused to preserve sync-lock alignment.
    Refused(String),
}

/// The view of an [`EditError`].
pub enum Fault {
    Invalid(Seq<char>),
    Refused(Seq<char>),
}

impl View for EditError {
    type V = Fault;

    open spec fn view(&self) -> Fault {
        match self {
            EditError::Invalid(m) => Fault::Invalid(m@),
            EditError::Refused(m) => Fault::Refused(m@),
        }
    }
}

/// The message of a fault.
pub open spec fn fault_text(f: Fault) -> Seq<char> {
    match f {
        Fault::Invalid(m) => m,
        Fault::Refused(m) => m,
    }
}

impl EditError {
    /// The message to show.
    pub fn message(&self) -> (r: String)
        ensures
            r@ == fault_text(self@),
    {
        match self {
            EditError::Invalid(m) => m.clone(),
            EditError::Refused(m) => m.clone(),
        }
    }

    /// A copy of the value.
    pub fn copy(&self) -> (r: EditError)
        ensures
            r@ == self@,
    {
        match self {
            EditError::Invalid(m) => EditError::Invalid(m.clone()),
            EditError::Refused(m) => EditError::Refused(m.clone()),
        }
    }
}

/// Invalid input, with a fixed message.
pub fn invalid(message: &str) -> (r: EditError)
    ensures
        r@ == Fault::Invalid(message@),
{
    EditError::Invalid(String::from_str(message))
}

/// Outcome of a successfully attempted command.
#[derive(Debug)]
pub struct EditResult {
    /// Whether the document changed.
    pub changed: bool,
    /// Whether the timeline portion of the document changed.
    pub timeline_changed: bool,
    /// Whether the media-manifest portion of the document changed.
    pub manifest_changed: bool,
    /// Undo label, e.g. "Add Clips" / "Ripple Delete".
    pub action_name: String,
    /// Clip ids created or directly affected.
    pub affected_clip_ids: Vec<String>,
    /// Document version after applying.
    pub timeline_version: u64,
    /// Human-readable one-line summary.
    pub summary: String,
}

/// The view of an [`EditResult`].
#[verifier::ext_equal]
pub struct EditResultView {
    pub changed: bool,
    pub timeline_changed: bool,
    pub manifest_changed: bool,
    pub action_name: Seq<char>,
    pub affected_clip_ids: Seq<Seq<char>>,
    pub timeline_version: u64,
    pub summary: Seq<char>,
}

impl View for EditResult {
    type V = EditResultView;

    open spec fn view(&self) -> EditResultView {
        EditResultView {
            changed: self.changed,
            timeline_changed: self.timeline_changed,
            manifest_changed: self.manifest_changed,
            action_name: self.action_name@,
            affected_clip_ids: texts(self.affected_clip_ids@),
            timeline_version: self.timeline_version,
            summary: self.summary@,
        }
    }
}

/// The view of what a command returns.
pub open spec fn outcome(r: Result<EditResult, EditError>) -> Result<EditResultView, Fault> {
    match r {
        Ok(x) => Ok(x@),
        Err(e) => Err(e@),
    }
}

/// The view of a check that hands nothing back.
pub open spec fn verdict(r: Result<(), EditError>) -> Option<Fault> {
    match r {
        Ok(_) => None,
        Err(e) => Some(e@),
    }
}

} // verus!
