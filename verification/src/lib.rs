//! Game rules of a cave-running game: difficulty progression on reaching the
//! goal sensor, the rolling buffer of cave wall points, the collider list of
//! the generated cave, the grappling hook's state, and the cave noise seed.

pub mod difficulty;
pub mod verts;
pub mod mesh;
pub mod grapple;
pub mod noise_seed;
