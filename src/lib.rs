//! A source-level debugger runtime: variable model, expression evaluator,
//! breakpoint and watch registry, execution-flow controller, asynchronous
//! task registry, and the framing logic of the inter-process channel.
pub mod async_tasks;
pub mod breakpoints;
pub mod channel;
pub mod clock;
pub mod dispatch;
pub mod errors;
pub mod evaluator;
pub mod flow_control;
pub mod laws;
pub mod runtime;
pub mod text;
pub mod variables;
pub mod visualizer;
