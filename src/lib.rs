//! A spaced-repetition engine: a store of question/answer cards, pluggable
//! weighting methods, and a re-entrant driver for learn and test sessions.

mod adapters;
mod driver;
mod engine;
mod error;
mod methods;
mod sampler;
mod set;

pub use adapters::{imported, merged_step, pairs_from_output, parse_adapter, well_formed_output};
pub use driver::{apply_adjustment, Driver, TEST_WEIGHT_STARRED, TEST_WEIGHT_UNSEEN};
pub use engine::Forne;
pub use error::{ContractFault, Error, Phase};
pub use methods::{
    contains_token, BundledScripts, Method, MethodScript, RawMethod, ResponsesConstant, ScriptHost,
};
pub use sampler::{draw, DrawError};
pub use set::{Card, CardSet, CardType, SlimCard};
