//! The generation rule: from a declaration to the event set it stands for.
//!
//! Generation checks the declaration and, for one that is valid, derives
//! three things from the member list: the fields of the set, one channel
//! handle per member; what `EventSet::apply` registers, and in which order;
//! and one `SendEvent` implementation per member, each bound to the field of
//! its own member.

use crate::declaration::{
    distinct, first_repeat, first_repeat_is_unique, identifiers, Declaration, EventSetDeclaration,
};
use vstd::prelude::*;

verus! {

/// Why no event set is generated.
#[derive(Debug, PartialEq, Eq)]
pub enum GenerationError {
    /// The text is not a declaration.
    Syntax,
    /// The set named `set` was declared without members.
    EmptySet { set: String },
    /// In the set named `set`, the member at position `index` repeats an
    /// earlier one; `member` is its identifier.
    DuplicateMember { set: String, member: String, index: usize },
}

/// One `SendEvent` implementation as a mathematical value.
pub struct SenderShape {
    pub event: Seq<char>,
    pub field: int,
}

/// A generated event set as a mathematical value.
pub struct Shape {
    pub name: Seq<char>,
    pub fields: Seq<Seq<char>>,
    pub registers: Seq<Seq<char>>,
    pub senders: Seq<SenderShape>,
}

/// The implementation of `SendEvent<event>` for a generated set: a value of
/// type `event` is forwarded to the channel held in field number `field`.
#[derive(Debug, PartialEq, Eq)]
pub struct Sender {
    pub event: String,
    pub field: usize,
}

/// What generation emits for one declaration.
#[derive(Debug, PartialEq, Eq)]
pub struct GeneratedSet {
    /// The name of the generated type.
    pub name: String,
    /// The fields of the generated type: field `i` holds the handle to the
    /// channel of event type `fields[i]`.
    pub fields: Vec<String>,
    /// The event types that the set's `EventSet::apply` registers, in the
    /// order of the calls.
    pub registers: Vec<String>,
    /// The `SendEvent` implementations of the generated type.
    pub senders: Vec<Sender>,
}

impl View for Sender {
    type V = SenderShape;

    open spec fn view(&self) -> SenderShape {
        SenderShape { event: self.event@, field: self.field as int }
    }
}

impl View for GeneratedSet {
    type V = Shape;

    open spec fn view(&self) -> Shape {
        Shape {
            name: self.name@,
            fields: identifiers(self.fields@),
            registers: identifiers(self.registers@),
            senders: Seq::new(self.senders@.len(), |i: int| self.senders@[i]@),
        }
    }
}

impl Shape {
    /// Sender number `k` is the implementation that a value of type `event`
    /// selects: it is for `event`, and no sender before it is.
    pub open spec fn selects(self, event: Seq<char>, k: int) -> bool {
        &&& 0 <= k < self.senders.len()
        &&& self.senders[k].event == event
        &&& forall|h: int| 0 <= h < k ==> self.senders[h].event != event
    }

    /// The set has no `SendEvent` implementation for `event`.
    pub open spec fn rejects(self, event: Seq<char>) -> bool {
        forall|k: int| 0 <= k < self.senders.len() ==> self.senders[k].event != event
    }
}

impl GenerationError {
    /// The text of the diagnostic: it names the rule that the declaration
    /// breaks and, where the declaration could be read, the set.
    pub open spec fn message_text(self) -> Seq<char> {
        match self {
            GenerationError::Syntax => "not an event set declaration"@,
            GenerationError::EmptySet { set } => "cannot make an empty event set: "@ + set@,
            GenerationError::DuplicateMember { set, member, index } => "duplicate member "@
                + member@ + " in event set "@ + set@,
        }
    }

    /// The diagnostic that the failed generation ends with.
    pub fn message(&self) -> (r: String)
        ensures
            r@ == self.message_text(),
    {
        match self {
            GenerationError::Syntax => String::from_str("not an event set declaration"),
            GenerationError::EmptySet { set } => {
                let mut text = String::from_str("cannot make an empty event set: ");
                text.append(set.as_str());
                text
            },
            GenerationError::DuplicateMember { set, member, index } => {
                let mut text = String::from_str("duplicate member ");
                text.append(member.as_str());
                text.append(" in event set ");
                text.append(set.as_str());
                text
            },
        }
    }
}

impl GeneratedSet {
    /// The field whose channel a value of type `event` is sent to: that of
    /// the set's `SendEvent` implementation for `event`. `None` says that the
    /// set has no such implementation, so that sending such a value through
    /// the set does not compile.
    pub fn channel_of(&self, event: &str) -> (r: Option<usize>)
        ensures
            match r {
                Some(field) => exists|k: int|
                    self@.selects(event@, k) && self@.senders[k].field == field,
                None => self@.rejects(event@),
            },
    {
        let wanted = event.to_owned();
        let mut k: usize = 0;
        while k < self.senders.len()
            invariant
                k <= self.senders.len(),
                wanted@ == event@,
                forall|h: int| 0 <= h < k ==> self@.senders[h].event != event@,
            decreases self.senders.len() - k,
        {
            if self.senders[k].event == wanted {
                assert(self@.selects(event@, k as int));
                return Some(self.senders[k].field);
            }
            k += 1;
        }
        None
    }
}

/// The event set that a declaration stands for: the set takes the declared
/// name; it has one field per member, in declaration order; `apply` registers
/// the members in declaration order and nothing else; and member `i` gets the
/// one `SendEvent` implementation that forwards to field `i`.
pub open spec fn generated(declaration: Declaration) -> Shape {
    Shape {
        name: declaration.name,
        fields: declaration.members,
        registers: declaration.members,
        senders: Seq::new(
            declaration.members.len(),
            |i: int| SenderShape { event: declaration.members[i], field: i },
        ),
    }
}

/// The position of the first repeated member, if any member is repeated.
fn find_repeat(members: &Vec<String>) -> (r: Option<usize>)
    ensures
        match r {
            Some(j) => first_repeat(identifiers(members@), j as int),
            None => distinct(identifiers(members@)),
        },
{
    let ghost names = identifiers(members@);
    let mut j: usize = 0;
    while j < members.len()
        invariant
            j <= members.len(),
            names == identifiers(members@),
            distinct(names.take(j as int)),
        decreases members.len() - j,
    {
        let mut i: usize = 0;
        while i < j
            invariant
                i <= j < members.len(),
                names == identifiers(members@),
                distinct(names.take(j as int)),
                forall|h: int| 0 <= h < i ==> names[h] != names[j as int],
            decreases j - i,
        {
            if members[i] == members[j] {
                assert(names[i as int] == names[j as int]);
                return Some(j);
            }
            i += 1;
        }
        proof {
            let shorter = names.take(j as int);
            let longer = names.take(j + 1);
            assert forall|a: int, b: int| 0 <= a < b < longer.len() implies longer[a]
                != longer[b] by {
                if b < j {
                    assert(shorter[a] != shorter[b]);
                }
            }
        }
        j += 1;
    }
    assert(names.take(j as int) == names);
    None
}

/// Copies a list of identifiers.
fn copy_identifiers(list: &Vec<String>) -> (r: Vec<String>)
    ensures
        identifiers(r@) == identifiers(list@),
{
    let mut copy: Vec<String> = Vec::new();
    let mut i: usize = 0;
    while i < list.len()
        invariant
            i <= list.len(),
            copy@.len() == i,
            forall|k: int| 0 <= k < i ==> copy@[k]@ == list@[k]@,
        decreases list.len() - i,
    {
        copy.push(list[i].clone());
        i += 1;
    }
    assert(identifiers(copy@) =~= identifiers(list@));
    copy
}

/// Generates the event set that `declaration` stands for.
///
/// A declaration without members is rejected, whatever its name, and so is
/// one that names a member twice: the error then points at the first member
/// that repeats an earlier one. Every other declaration is generated from.
pub fn generate(declaration: &EventSetDeclaration) -> (r: Result<GeneratedSet, GenerationError>)
    ensures
        r is Ok <==> declaration@.valid(),
        match r {
            Ok(set) => set@ == generated(declaration@),
            Err(GenerationError::EmptySet { set }) => {
                &&& declaration@.members.len() == 0
                &&& set@ == declaration@.name
            },
            Err(GenerationError::DuplicateMember { set, member, index }) => {
                &&& declaration@.members.len() > 0
                &&& first_repeat(declaration@.members, index as int)
                &&& member@ == declaration@.members[index as int]
                &&& set@ == declaration@.name
            },
            Err(GenerationError::Syntax) => false,
        },
{
    let members = &declaration.members;
    if members.len() == 0 {
        return Err(GenerationError::EmptySet { set: declaration.name.clone() });
    }
    if let Some(index) = find_repeat(members) {
        proof {
            first_repeat_is_unique(declaration@.members, index as int, index as int);
        }
        return Err(
            GenerationError::DuplicateMember {
                set: declaration.name.clone(),
                member: members[index].clone(),
                index,
            },
        );
    }
    let mut senders: Vec<Sender> = Vec::new();
    let mut i: usize = 0;
    while i < members.len()
        invariant
            i <= members.len(),
            senders@.len() == i,
            forall|k: int|
                0 <= k < i ==> senders@[k]@ == (SenderShape { event: members@[k]@, field: k }),
        decreases members.len() - i,
    {
        senders.push(Sender { event: members[i].clone(), field: i });
        i += 1;
    }
    let set = GeneratedSet {
        name: declaration.name.clone(),
        fields: copy_identifiers(members),
        registers: copy_identifiers(members),
        senders,
    };
    assert(set@.senders =~= generated(declaration@).senders);
    Ok(set)
}

/// Generation turns every valid declaration into an event set with exactly
/// one `SendEvent` implementation per member: the implementation at position
/// `i` is for member `i`, it forwards to field `i`, which holds the channel of
/// member `i`, and no other implementation is for that member. An event type
/// that is no member has none.
pub proof fn one_sender_per_member(declaration: Declaration)
    requires
        declaration.valid(),
    ensures
        generated(declaration).senders.len() == declaration.members.len(),
        generated(declaration).fields.len() == declaration.members.len(),
        forall|i: int|
            0 <= i < declaration.members.len() ==> {
                &&& #[trigger] generated(declaration).selects(declaration.members[i], i)
                &&& generated(declaration).senders[i].field == i
                &&& generated(declaration).fields[i] == declaration.members[i]
            },
        forall|i: int, k: int|
            0 <= i < declaration.members.len() && 0 <= k < declaration.members.len()
                && generated(declaration).senders[k].event == declaration.members[i] ==> k == i,
        forall|event: Seq<char>|
            !declaration.members.contains(event) ==> #[trigger] generated(declaration).rejects(
                event,
            ),
{
    let set = generated(declaration);
    assert forall|event: Seq<char>| !declaration.members.contains(event) implies #[trigger] set.rejects(
        event,
    ) by {
        assert forall|k: int| 0 <= k < set.senders.len() implies set.senders[k].event != event by {
            assert(declaration.members[k] == set.senders[k].event);
        }
    }
}

} // verus!
