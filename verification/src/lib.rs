//! Core logic of a desktop shell that supervises a long-running backend
//! server process ("the sidecar"): spawning plans, line-stream interception
//! of migration progress markers, health probing decisions, initialization
//! orchestration with a single memoized terminal result, and the Linux
//! windowing heuristics used by the shell at startup.
pub mod command;
pub mod events;
pub mod interceptor;
pub mod linux_windowing;
pub mod orchestrator;
pub mod prober;
pub mod resolver;
pub mod signals;
pub mod supervisor;
pub mod text;
