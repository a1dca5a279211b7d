//! The input of generation: a name for the new event set and the ordered list
//! of its member event types.

use vstd::prelude::*;

verus! {

/// A declaration as a mathematical value: every identifier is the sequence of
/// its characters.
pub struct Declaration {
    pub name: Seq<char>,
    pub members: Seq<Seq<char>>,
}

/// The declaration of an event set: the name of the type to generate, and the
/// identifiers of its member event types in the order in which they were
/// written.
#[derive(Debug, PartialEq, Eq)]
pub struct EventSetDeclaration {
    pub name: String,
    pub members: Vec<String>,
}

/// The character sequences of a list of identifiers, in the same order.
pub open spec fn identifiers(list: Seq<String>) -> Seq<Seq<char>> {
    Seq::new(list.len(), |i: int| list[i]@)
}

impl View for EventSetDeclaration {
    type V = Declaration;

    open spec fn view(&self) -> Declaration {
        Declaration { name: self.name@, members: identifiers(self.members@) }
    }
}

/// No identifier occurs at two positions of `members`.
pub open spec fn distinct(members: Seq<Seq<char>>) -> bool {
    forall|i: int, j: int| 0 <= i < j < members.len() ==> members[i] != members[j]
}

/// Position `j` holds an identifier that an earlier position holds too, and
/// no position before `j` does: `j` is where the first repetition shows.
pub open spec fn first_repeat(members: Seq<Seq<char>>, j: int) -> bool {
    &&& 0 <= j < members.len()
    &&& exists|i: int| 0 <= i < j && members[i] == members[j]
    &&& distinct(members.take(j))
}

impl Declaration {
    /// A declaration that an event set can be generated from: it has at least
    /// one member, and its members are pairwise distinct.
    pub open spec fn valid(self) -> bool {
        self.members.len() > 0 && distinct(self.members)
    }
}

/// A member list shows its first repetition at one position only, and a list
/// that shows one is not distinct.
pub proof fn first_repeat_is_unique(members: Seq<Seq<char>>, j: int, k: int)
    requires
        first_repeat(members, j),
        first_repeat(members, k),
    ensures
        j == k,
        !distinct(members),
{
    let i = choose|i: int| 0 <= i < j && members[i] == members[j];
    let h = choose|h: int| 0 <= h < k && members[h] == members[k];
    if j < k {
        assert(members.take(k)[i] == members.take(k)[j]);
    }
    if k < j {
        assert(members.take(j)[h] == members.take(j)[k]);
    }
}

} // verus!
