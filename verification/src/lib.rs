//! Verified core of the gnats screensaver: the integer geometry of the
//! terminal grid, the population rules of the swarm, the culling of dead
//! fireflies, the attractor and firefly set-up, and the cell-level painting
//! rules of the renderer. All floating-point motion and shading is done by
//! the caller, which hands the results to these functions as plain values.
pub mod canvas;
pub mod cull;
pub mod field;
pub mod geometry;
pub mod logo;
pub mod population;
pub mod swarm;
