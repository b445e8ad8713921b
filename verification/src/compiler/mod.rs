pub mod job;
pub mod ass;
pub mod effects;
pub mod filters;
pub mod visual;
pub mod transitions;
pub mod streams;
pub mod script;
pub mod compile;
