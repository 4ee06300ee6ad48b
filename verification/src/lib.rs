mod backend;
pub mod fit;
pub mod pipeline;
pub mod tiers;
pub mod timing;
