//! Where the manager writes its session logs.
pub mod logging;
