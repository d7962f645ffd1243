//! Rigid registration of point clouds: the transform (rotation, then
//! translation) that best places a source cloud onto a target cloud.
//!
//! Everything is exact integer arithmetic. Coordinates are integers in the
//! sensor's unit (`point`); a rotation is an integer quaternion, applied as
//! `q v q* / |q|^2`, which is a proper rotation at any scale (`rotation`,
//! `proper`); residuals are exact sums of squared distances (`correspond`).
//!
//! The solvers share one fitness, the mean squared distance from the placed
//! source to the nearest target points, found through a spatial index
//! (`index`):
//! - `icp`: iterative closest point. The closed-form rotation of each round
//!   is an SVD in floating point, which the caller supplies; `align` prepares
//!   its input and completes its output.
//! - `ga`, `es`, `pso`, `de`: genetic algorithm, evolution strategy, particle
//!   swarm and differential evolution over a population (`population`) drawn
//!   from a seeded generator (`random`) and evaluated in parallel.
//!
//! Every solver rejects an empty cloud with `error::RegistrationError::EmptyInput`
//! and otherwise returns the best transform it saw, with its fitness and
//! whether that fitness fell below the convergence threshold.

pub mod align;
pub mod arith;
pub mod correspond;
pub mod de;
pub mod error;
pub mod es;
pub mod ga;
pub mod icp;
pub mod index;
pub mod point;
pub mod population;
pub mod proper;
pub mod pso;
pub mod random;
pub mod rotation;
pub mod transform;
