pub mod classify;
pub mod lines;
pub mod paths;
pub mod scan;
pub mod text;
