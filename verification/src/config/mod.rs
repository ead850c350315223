//! The configuration: what scripts set, bind and ask for.
//!
//! Scripts run outside of this library. What they call ends here: values under
//! dotted keys, key bindings, rules, and actions on windows and workspaces.
pub mod actions;
pub mod defaults;
pub mod engine;
pub mod laws;
pub mod rule;
pub mod table;
pub mod validate;
pub mod value;

pub use engine::{Bindings, ConfigStatus, Engine};
pub use rule::RuleRequest;
pub use table::{ScriptEntry, ScriptKey, UnreadableKey};
pub use validate::Violation;
pub use value::{ConfigValue, ScriptValue};
