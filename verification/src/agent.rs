//! The agent: reads a workspace, plans how to build and run it, submits it and
//! looks at the result.
pub mod llm;
pub mod plan;
pub mod session;
pub mod settings;
pub mod workspace;
