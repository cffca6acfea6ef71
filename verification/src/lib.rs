//! A voxel scene engine core: the run-length world encoder, the frame
//! scheduler that rotates frame slots, and the planning of the compute and
//! graphics command streams.
pub mod compute;
pub mod device;
pub mod graphics;
pub mod input;
pub mod logger;
pub mod rand;
pub mod scheduler;
pub mod utils;
pub mod world;
