//! Depth resolution for layered 2-D scenes.
//!
//! Every drawable object carries an optional, application-defined *layer*;
//! layers propagate down the parent/child hierarchy so that a child without
//! an explicit layer inherits the nearest ancestor's layer. Within a layer,
//! objects may additionally be ordered by their vertical position
//! ("y-sorting"). The engine turns these two orderings into a single depth
//! value per object, kept exact as a rational number `base + num / den`
//! with `0 <= num < den`, so that layer ordering and y-ordering are both
//! reflected in the numeric order of the depths.

pub mod assign;
pub mod depth;
pub mod frame;
pub mod layer;
pub mod laws;
pub mod scene;

pub use assign::set_z_coordinates;
pub use depth::RenderZCoordinate;
pub use depth::ZIndexSortKey;
pub use frame::FrameOutput;
pub use frame::SpriteLayerEngine;
pub use frame::SpriteLayerOptions;
pub use frame::clear_z_coordinates;
pub use layer::LayerIndex;
pub use scene::Node;
pub use scene::Scene;
pub use scene::propagate_layers;
