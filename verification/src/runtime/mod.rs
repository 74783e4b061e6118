//! What the runtime keeps while it renders a template, and what it decides
//! from the tree alone: the values bound to names, scope by scope, the output
//! so far, and the work each block asks for. The values themselves are the
//! runtime's own.
pub mod context;
pub mod scope;
pub mod steps;

pub use context::RuntimeContext;
pub use scope::{DataContext, ScopeContext};
