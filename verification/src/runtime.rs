//! The capabilities of an event set at run time, and the one place where a
//! set meets the Bevy app builder.
//!
//! An event set is a type that bundles one channel handle per member event
//! type. Each such type implements [`EventSet`] once, and [`SendEvent`] once
//! per member. [`AddEventSet`] extends the app builder with the call that
//! registers a whole set.

use bevy::app::AppBuilder;
use vstd::prelude::*;

verus! {

/// Bevy's `AppBuilder`, carried through as an opaque value: nothing is known
/// of what a builder holds.
#[verifier::external_type_specification]
#[verifier::external_body]
pub struct ExAppBuilder(AppBuilder);

/// Describes an event set: a type that can register the channels of all its
/// member event types with an app builder.
///
/// The two spec functions are the implementation's own account of `apply`.
/// An implementation that states neither asks nothing of the builder and
/// promises nothing about it.
pub trait EventSet {
    /// What `apply` needs of the builder that it is handed.
    open spec fn accepts(app: &AppBuilder) -> bool {
        true
    }

    /// How `apply` leaves a builder, relative to how it found it.
    open spec fn registered(before: &AppBuilder, after: &AppBuilder) -> bool {
        true
    }

    /// Registers every member event type of the set with `app`, in the order
    /// in which the set declares them, and does nothing else.
    fn apply(app: &mut AppBuilder)
        requires
            Self::accepts(old(app)),
        ensures
            Self::registered(old(app), final(app)),
    ;
}

/// Trait used to add `add_event_set` to the Bevy app builder.
pub trait AddEventSet {
    /// The app builder that sets are registered with.
    spec fn builder(&self) -> AppBuilder;

    /// Adds an event set to the app: hands the builder to `E::apply` and
    /// returns it, so that calls can be chained. The builder that comes back is
    /// the one that `E::apply` left, and whatever the caller then does through
    /// the returned reference is done to `self`.
    fn add_event_set<E: EventSet>(&mut self) -> (r: &mut Self)
        requires
            E::accepts(&old(self).builder()),
        ensures
            E::registered(&old(self).builder(), &r.builder()),
            final(self).builder() == final(r).builder(),
    ;
}

impl AddEventSet for AppBuilder {
    open spec fn builder(&self) -> AppBuilder {
        *self
    }

    fn add_event_set<E: EventSet>(&mut self) -> (r: &mut Self) {
        E::apply(self);
        self
    }
}

/// Allows an event set to send an event of a given type.
///
/// An event set implements this once for each of its member event types; the
/// argument's type alone selects the channel.
///
/// The spec function is the implementation's own account of `send`. An
/// implementation that does not state it promises nothing about the set.
pub trait SendEvent<T> {
    /// How `send` leaves the set, relative to how it found it and to the event
    /// that it was given.
    open spec fn sent(&self, event: T, after: &Self) -> bool {
        true
    }

    /// Sends an event to the event buffer: forwards `event`, unchanged and
    /// once, to the channel of `T` that the set holds.
    fn send(&mut self, event: T)
        ensures
            old(self).sent(event, final(self)),
    ;
}

} // verus!
