use vstd::prelude::*;

verus! {

// The per-source result model.  Each data source either finds a set of
// candidate names or fails; a failure carries the identity of the source
// and the cause, so a report can say which source failed and why.

/// The identity of a data source.
#[derive(Clone, Copy, PartialEq, Eq, Structural, Debug)]
pub enum SourceKind {
    AnubisDb,
    CrtSh,
    Wayback,
}

/// Why a source produced no names: the transport failed (including a
/// timeout), the response did not match the expected shape, or the upstream
/// answered with zero matches.
#[derive(Clone, Copy, PartialEq, Eq, Structural, Debug)]
pub enum SourceCause {
    TransportFailure,
    DecodeFailure,
    EmptyResult,
}

/// One source's failure: which source, why, and for which target host.
#[derive(Debug)]
pub struct SourceError {
    pub kind: SourceKind,
    pub cause: SourceCause,
    pub host: String,
}

/// The mathematical model of a `SourceError`.
pub struct ErrorView {
    pub kind: SourceKind,
    pub cause: SourceCause,
    pub host: Seq<char>,
}

impl View for SourceError {
    type V = ErrorView;

    open spec fn view(&self) -> ErrorView {
        ErrorView { kind: self.kind, cause: self.cause, host: self.host@ }
    }
}

impl DeepView for SourceError {
    type V = ErrorView;

    open spec fn deep_view(&self) -> ErrorView {
        self@
    }
}

pub open spec fn error_view(kind: SourceKind, cause: SourceCause, host: Seq<char>) -> ErrorView {
    ErrorView { kind, cause, host }
}

impl SourceError {
    /// Builds the error a source reports, pinning every field.
    pub fn new(kind: SourceKind, cause: SourceCause, host: String) -> (r: Self)
        ensures
            r@ == error_view(kind, cause, host@),
    {
        SourceError { kind, cause, host }
    }

    /// A copy whose model is the same as this error's.
    pub fn duplicate(&self) -> (r: Self)
        ensures
            r@ == self@,
    {
        SourceError { kind: self.kind, cause: self.cause, host: self.host.clone() }
    }
}

/// The tagged result of one source's fetch: a set of candidate names, or a
/// failure.
pub enum SourceOutcome {
    Found(SourceKind, Vec<String>),
    Failed(SourceError),
}

/// The mathematical model of a `SourceOutcome`.
pub enum OutcomeView {
    Found(SourceKind, Seq<Seq<char>>),
    Failed(ErrorView),
}

impl View for SourceOutcome {
    type V = OutcomeView;

    open spec fn view(&self) -> OutcomeView {
        match self {
            SourceOutcome::Found(kind, names) => OutcomeView::Found(*kind, names.deep_view()),
            SourceOutcome::Failed(e) => OutcomeView::Failed(e@),
        }
    }
}

impl DeepView for SourceOutcome {
    type V = OutcomeView;

    open spec fn deep_view(&self) -> OutcomeView {
        self@
    }
}

} // verus!
