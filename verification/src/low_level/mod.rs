pub mod barrier;
pub mod decode;
pub mod env;
pub mod ragged_buffer;
pub mod shard;
pub mod slots;
pub mod vec_env;
pub mod vec_obs;
pub mod worker;
