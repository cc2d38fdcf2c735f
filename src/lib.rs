//! A falling-sand simulation core: a sparse grid of cells that fall, flow and
//! transform, mirrored one-to-one into a densely packed array of render
//! instances.

pub mod brush;
pub mod cell;
pub mod flat;
pub mod grid;
pub mod instance;
pub mod random;
pub mod render;
pub mod sandbox;

pub use brush::{Brush, BrushSize};
pub use cell::{Cell, CellKind, CellTransition, CellUpdate, GridPos, MovementOptionGroup, Rgba, TransitionTarget};
pub use grid::CellGrid;
pub use instance::{DrawPlan, Instance, InstanceData, Transform};
pub use render::{AttributeType, Material, Samples, Shader, VertexAttribute, WindowConfig, WindowMode};
pub use sandbox::{Sandbox, SimConfig};
