//! The generation directive: the text of a declaration in, an event set out.

use crate::declaration::{first_repeat, Declaration};
use crate::generator::{generate, generated, GeneratedSet, GenerationError};
use crate::syntax::{denotes, parse_declaration};
use vstd::prelude::*;

verus! {

/// Generates the event set that `text` declares.
///
/// The text is read as a declaration, and the declaration is generated from.
/// All checking happens here, before anything is emitted: a text that is no
/// declaration, a declaration without members and one that names a member
/// twice each end in the error that says so, and nothing is generated.
pub fn event_set(text: &str) -> (r: Result<GeneratedSet, GenerationError>)
    ensures
        match r {
            Ok(set) => exists|declaration: Declaration|
                {
                    &&& denotes(text@, declaration)
                    &&& declaration.valid()
                    &&& set@ == generated(declaration)
                },
            Err(GenerationError::Syntax) => forall|declaration: Declaration|
                !denotes(text@, declaration),
            Err(GenerationError::EmptySet { set }) => exists|declaration: Declaration|
                {
                    &&& denotes(text@, declaration)
                    &&& declaration.members.len() == 0
                    &&& set@ == declaration.name
                },
            Err(
                GenerationError::DuplicateMember { set, member, index },
            ) => exists|declaration: Declaration|
                {
                    &&& denotes(text@, declaration)
                    &&& first_repeat(declaration.members, index as int)
                    &&& member@ == declaration.members[index as int]
                    &&& set@ == declaration.name
                },
        },
{
    match parse_declaration(text) {
        Some(declaration) => generate(&declaration),
        None => Err(GenerationError::Syntax),
    }
}

} // verus!
