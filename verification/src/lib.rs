//! Event sets for Bevy: one type that bundles the event channels of a fixed
//! list of event types.
//!
//! An event set is declared by a name and a list of member event types.
//! [`syntax`] reads such a declaration from text, [`generator`] holds the rule
//! by which the set is derived from it, and [`directive`] puts the two
//! together. [`host`] states what registering sets and sending through them
//! do to the host, and [`runtime`] holds the traits that a derived set
//! implements at run time.

pub mod declaration;
pub mod directive;
pub mod generator;
pub mod host;
pub mod runtime;
pub mod syntax;

pub use declaration::EventSetDeclaration;
pub use directive::event_set;
pub use generator::{generate, GeneratedSet, GenerationError, Sender};
pub use runtime::{AddEventSet, EventSet, SendEvent};
pub use syntax::{parse_declaration, parse_tokens, tokenize, Token};
