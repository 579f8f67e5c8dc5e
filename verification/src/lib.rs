pub mod compose;
pub mod error;
pub mod limits;
pub mod model;
pub mod names;
pub mod paths;
pub mod project;
pub mod signature;
pub mod stack;
pub mod writer;
