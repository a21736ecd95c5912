use vstd::prelude::*;

verus! {

/// The entry point of a method script that failed.
#[derive(Clone, Copy, Debug, PartialEq, Eq, Structural)]
pub enum Phase {
    /// Computing the weight of a card.
    Weighting,
    /// Adjusting a card after a response.
    Adjustment,
    /// Producing the default metadata of a card.
    DefaultMetadata,
}

/// How a compiled method script breaks the method contract.
#[derive(Clone, Copy, Debug, PartialEq, Eq, Structural)]
pub enum ContractFault {
    /// The script defines no constant `RESPONSES`.
    MissingResponses,
    /// `RESPONSES` is not a list of strings.
    ResponsesNotStrings,
    /// `RESPONSES` is empty.
    NoResponses,
    /// `RESPONSES` holds a token twice.
    DuplicateResponse,
}

/// The errors of the engine.
#[derive(Debug)]
pub enum Error {
    /// A user-supplied script did not compile; carries the compiler's report.
    CompileFailed(String),
    /// A bundled method script did not compile: a defect of the program itself.
    BundledScriptBroken(String),
    /// A name given as a bundled method is not in the table of bundled methods.
    UnknownBundledMethod(String),
    /// A compiled method script lacks what every method must define.
    ContractViolation(ContractFault),
    /// A script entry point failed or returned malformed data.
    ScriptRuntime {
        /// The entry point that failed.
        phase: Phase,
        /// What the script engine reported.
        message: String,
    },
    /// The set has an unfinished learn pass under another method.
    MethodMismatch {
        /// The method of the unfinished pass.
        recorded: String,
        /// The method a session was asked to use.
        requested: String,
    },
    /// A response that the active method does not allow.
    InvalidResponse,
    /// `next` was called with no card awaiting a response.
    ProtocolViolation,
    /// The card weights add up to more than a draw can hold.
    WeightsTooLarge,
    /// No card identifier is left for a new card.
    IdentifiersExhausted,
    /// An adapter script failed; carries the engine's report.
    AdapterFailed(String),
    /// An adapter script produced something other than question/answer pairs.
    MalformedAdapterOutput,
    /// A stored set could not be read.
    Persistence(String),
}

/// Whether `e` is one of the ways resolving a method fails.
pub open spec fn resolution_error(e: Error) -> bool {
    ||| e is CompileFailed
    ||| e is BundledScriptBroken
    ||| e is UnknownBundledMethod
    ||| e is ContractViolation
}

} // verus!
