//! A small supervised-learning toolkit for tuning scalar-valued models
//! against a labeled dataset with gradient descent.
//!
//! All numeric work is done in saturating fixed-point arithmetic (see
//! [`fixed`]), so every training step has an exact, machine-checked
//! contract: data loading and batching, forward evaluation, the delta
//! rule, and multilayer back-propagation.

pub mod activation;
pub mod database;
pub mod dataloader;
pub mod evaluation;
pub mod fixed;
pub mod linalg;
pub mod net;
pub mod optimizer;
mod random;
pub mod tuner;

use vstd::prelude::*;

verus! {

/// A configuration mistake detected while constructing a component.
///
/// Construction fails fast: none of these conditions is ever discovered
/// later, during a training step.
#[derive(Clone, Copy, PartialEq, Eq, Structural, Debug)]
pub enum ConfigError {
    /// The database holds no entries at all.
    EmptyDatabase,
    /// A batch size of zero was requested.
    ZeroBatchSize,
    /// The layer-size sequence for a network is empty.
    EmptyLayerSizes,
    /// A layer was requested with zero inputs or zero outputs.
    ZeroLayerSize,
}

} // verus!
