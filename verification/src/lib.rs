//! A rule-agnostic cellular-automaton engine: a toroidal two-dimensional grid
//! of cells advanced one generation at a time via double buffering, together
//! with a seedable, forkable random stream and two probabilistic genome-merge
//! primitives used by evolutionary rule variants.

pub mod bits;
pub mod cells;
pub mod conway;
pub mod coords;
pub mod evo_conway;
pub mod fade;
pub mod genome;
pub mod grid;
pub mod neighborhood;
pub mod rng;

pub use bits::BitSet8;
pub use cells::WorldGridCells;
pub use conway::ConwayGridCell;
pub use conway::ConwayWorld;
pub use conway::OneNeighborCell;
pub use coords::GridSize;
pub use coords::Loc;
pub use evo_conway::Creature;
pub use evo_conway::EvoConwayGridCell;
pub use evo_conway::EvoConwayWorld;
pub use fade::PixelCrossFadeBuffer;
pub use fade::is_dark;
pub use genome::BitCountsMap;
pub use genome::BitSet8Gene;
pub use genome::FractionGene;
pub use grid::GridCell;
pub use grid::WorldGrid;
pub use neighborhood::Neighborhood;
pub use rng::Random;
