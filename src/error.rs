use vstd::prelude::*;

verus! {

/// The kinds of failure of the trash operations.
#[derive(Clone, Debug, PartialEq, Eq)]
pub enum TrashErrorKind {
    /// The target path does not exist.
    NotFound(String),
    /// A path has no file name, or cannot be moved to.
    Path(String),
    /// An operating-system level failure.
    Io(String),
    /// The path is the trash root or one of its ancestors.
    TrashingTrashCan(String),
    /// The path contains the current working directory.
    TrashingCwd(String),
    /// A sidecar record does not follow the metadata format.
    ParseTrashInfoError(String),
}

/// An error of a trash operation: its kind, which carries the path concerned.
#[derive(Clone, Debug, PartialEq, Eq)]
pub struct TrashError {
    pub kind: TrashErrorKind,
}

impl TrashError {
    pub fn new(kind: TrashErrorKind) -> (r: TrashError)
        ensures
            r.kind == kind,
    {
        TrashError { kind }
    }

    pub fn kind(&self) -> (r: &TrashErrorKind)
        ensures
            *r == self.kind,
    {
        &self.kind
    }
}

impl From<TrashErrorKind> for TrashError {
    fn from(kind: TrashErrorKind) -> (r: TrashError) {
        TrashError { kind }
    }
}

impl vstd::std_specs::convert::FromSpecImpl<TrashErrorKind> for TrashError {
    open spec fn obeys_from_spec() -> bool {
        true
    }

    open spec fn from_spec(kind: TrashErrorKind) -> TrashError {
        TrashError { kind }
    }
}

} // verus!
