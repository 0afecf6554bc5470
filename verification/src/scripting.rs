//! Page scripting: what scripts may see and do, when their callbacks run, and
//! what their requests come to. The JavaScript engine is the shell's part.
pub mod attributes;
pub mod bridge;
pub mod dom;
pub mod errors;
pub mod events;
pub mod jobs;
pub mod loading;
pub mod natives;
pub mod network;
pub mod page;
pub mod pump;
pub mod reads;
pub mod timers;
