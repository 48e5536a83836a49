//! Hierarchical processing layers over the ternary values -1, 0 and +1.
//!
//! Layers multiply inputs by ternary weights and gate them, columns keep a shift
//! register of activations, the thalamus relays gated channels, the corpus callosum
//! bridges two hemispheres and the cortical map holds a 2D grid of activity.

pub mod callosum;
pub mod column;
pub mod cortex;
pub mod counting;
pub mod layer;
pub mod map;
pub mod ternary;
pub mod thalamus;

pub use callosum::CorpusCallosum;
pub use column::CorticalColumn;
pub use cortex::Cortex;
pub use layer::CortexLayer;
pub use map::CorticalMap;
pub use ternary::{ternary_mul, Ternary};
pub use thalamus::Thalamus;
