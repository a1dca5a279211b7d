//! The host as an event set sees it, and what registering and sending do to
//! it.
//!
//! The host keeps one channel per event type and registers by type. So its
//! registry is modelled as the set of event types that have a channel, one
//! registration as an insertion into it, and its channels as a map from event
//! type to the values published on that type's channel, oldest first.

use crate::declaration::{distinct, Declaration};
use crate::generator::{generated, Shape};
use vstd::prelude::*;

verus! {

/// The registry after one registration of `event`. A type that has its channel
/// already keeps it: registering it again changes nothing.
pub open spec fn register(registry: Set<Seq<char>>, event: Seq<char>) -> Set<Seq<char>> {
    registry.insert(event)
}

/// The registry after the registrations `registers`, made one after the other.
pub open spec fn register_all(registry: Set<Seq<char>>, registers: Seq<Seq<char>>) -> Set<
    Seq<char>,
>
    decreases registers.len(),
{
    if registers.len() == 0 {
        registry
    } else {
        register_all(register(registry, registers[0]), registers.drop_first())
    }
}

/// A run of registrations adds exactly the registered types to the registry.
pub proof fn register_all_adds(registry: Set<Seq<char>>, registers: Seq<Seq<char>>)
    ensures
        register_all(registry, registers) == registry.union(registers.to_set()),
    decreases registers.len(),
{
    if registers.len() == 0 {
        assert(registers.to_set() =~= Set::empty());
        assert(registry.union(registers.to_set()) =~= registry);
    } else {
        let rest = registers.drop_first();
        register_all_adds(register(registry, registers[0]), rest);
        assert forall|event: Seq<char>|
            registers.to_set().contains(event) <==> (event == registers[0] || rest.to_set().contains(
                event,
            )) by {
            if registers.to_set().contains(event) {
                let i = choose|i: int| 0 <= i < registers.len() && registers[i] == event;
                if i > 0 {
                    assert(rest[i - 1] == event);
                }
            }
            if rest.to_set().contains(event) {
                let i = choose|i: int| 0 <= i < rest.len() && rest[i] == event;
                assert(registers[i + 1] == event);
            }
            if event == registers[0] {
                assert(registers.contains(event));
            }
        }
        assert(register(registry, registers[0]).union(rest.to_set()) =~= registry.union(
            registers.to_set(),
        ));
    }
}

/// Registering a generated event set registers every member exactly once, in
/// declaration order, and nothing else: the registrations are the member list
/// itself, which names no member twice. They add the members to the registry
/// and leave the rest of it as it was.
pub proof fn registers_every_member_once(declaration: Declaration, registry: Set<Seq<char>>)
    requires
        declaration.valid(),
    ensures
        generated(declaration).registers == declaration.members,
        distinct(generated(declaration).registers),
        register_all(registry, generated(declaration).registers) == registry.union(
            declaration.members.to_set(),
        ),
{
    register_all_adds(registry, generated(declaration).registers);
}

/// Two event sets may share members: whichever is registered first, the
/// registry ends with the members of both, a shared member among them once.
/// Registering a set a second time changes nothing.
pub proof fn shared_members_are_registered_once(
    first: Declaration,
    second: Declaration,
    registry: Set<Seq<char>>,
)
    requires
        first.valid(),
        second.valid(),
    ensures
        register_all(
            register_all(registry, generated(first).registers),
            generated(second).registers,
        ) == registry.union(first.members.to_set().union(second.members.to_set())),
        register_all(
            register_all(registry, generated(second).registers),
            generated(first).registers,
        ) == register_all(
            register_all(registry, generated(first).registers),
            generated(second).registers,
        ),
        register_all(
            register_all(registry, generated(first).registers),
            generated(first).registers,
        ) == register_all(registry, generated(first).registers),
{
    let a = generated(first).registers;
    let b = generated(second).registers;
    register_all_adds(registry, a);
    register_all_adds(registry, b);
    register_all_adds(register_all(registry, a), b);
    register_all_adds(register_all(registry, b), a);
    register_all_adds(register_all(registry, a), a);
    assert(registry.union(a.to_set()).union(b.to_set()) =~= registry.union(
        a.to_set().union(b.to_set()),
    ));
    assert(registry.union(b.to_set()).union(a.to_set()) =~= registry.union(
        a.to_set().union(b.to_set()),
    ));
    assert(registry.union(a.to_set()).union(a.to_set()) =~= registry.union(a.to_set()));
}

/// The channels after `value` was published on the channel of `event`: that
/// channel has one value more, `value`, behind those it had, and every other
/// channel is as it was.
pub open spec fn publish<V>(
    channels: Map<Seq<char>, Seq<V>>,
    event: Seq<char>,
    value: V,
) -> Map<Seq<char>, Seq<V>>
    recommends
        channels.dom().contains(event),
{
    channels.insert(event, channels[event].push(value))
}

impl Shape {
    /// The channels after `value` was sent through the set as an `event`: the
    /// implementation that `event` selects publishes the value, once, on the
    /// channel that its field holds.
    pub open spec fn send<V>(
        self,
        channels: Map<Seq<char>, Seq<V>>,
        event: Seq<char>,
        value: V,
    ) -> Map<Seq<char>, Seq<V>>
        recommends
            exists|k: int| self.selects(event, k),
    {
        let k = choose|k: int| self.selects(event, k);
        publish(channels, self.fields[self.senders[k].field], value)
    }
}

/// Sending a value through a generated event set is publishing it on the
/// channel of its own type: for every member, whatever the channels hold,
/// the two leave the same channels behind.
pub proof fn send_is_publish<V>(
    declaration: Declaration,
    channels: Map<Seq<char>, Seq<V>>,
    i: int,
    value: V,
)
    requires
        declaration.valid(),
        0 <= i < declaration.members.len(),
    ensures
        generated(declaration).send(channels, declaration.members[i], value) == publish(
            channels,
            declaration.members[i],
            value,
        ),
{
    let set = generated(declaration);
    let event = declaration.members[i];
    assert(set.selects(event, i));
    let k = choose|k: int| set.selects(event, k);
    assert(set.senders[k].event == declaration.members[k]);
}

} // verus!
