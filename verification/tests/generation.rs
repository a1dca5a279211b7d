//! The generation rule on declarations given as values.

use bevy_event_set::{generate, EventSetDeclaration, GeneratedSet, GenerationError, Sender};

fn declaration(name: &str, members: &[&str]) -> EventSetDeclaration {
    EventSetDeclaration {
        name: name.to_string(),
        members: members.iter().map(|member| member.to_string()).collect(),
    }
}

fn names(list: &[&str]) -> Vec<String> {
    list.iter().map(|name| name.to_string()).collect()
}

#[test]
fn valid_declaration_generates_every_part() {
    let set = generate(&declaration("S", &["A", "B", "C"])).unwrap();
    assert_eq!(
        set,
        GeneratedSet {
            name: "S".to_string(),
            fields: names(&["A", "B", "C"]),
            registers: names(&["A", "B", "C"]),
            senders: vec![
                Sender { event: "A".to_string(), field: 0 },
                Sender { event: "B".to_string(), field: 1 },
                Sender { event: "C".to_string(), field: 2 },
            ],
        }
    );
}

#[test]
fn one_member_is_enough() {
    let set = generate(&declaration("Lonely", &["Tick"])).unwrap();
    assert_eq!(set.name, "Lonely");
    assert_eq!(set.fields, names(&["Tick"]));
    assert_eq!(set.registers, names(&["Tick"]));
    assert_eq!(set.senders, vec![Sender { event: "Tick".to_string(), field: 0 }]);
}

#[test]
fn every_member_has_exactly_one_sender() {
    let members = ["Spawn", "Hit", "Despawn", "Score", "Pause"];
    let set = generate(&declaration("Game", &members)).unwrap();
    assert_eq!(set.senders.len(), members.len());
    for (position, member) in members.iter().enumerate() {
        let count = set.senders.iter().filter(|sender| sender.event == *member).count();
        assert_eq!(count, 1);
        assert_eq!(set.channel_of(member), Some(position));
        assert_eq!(set.fields[position], *member);
    }
}

#[test]
fn registrations_follow_declaration_order() {
    let set = generate(&declaration("Z", &["Zeta", "Alpha", "Mid"])).unwrap();
    assert_eq!(set.registers, names(&["Zeta", "Alpha", "Mid"]));
}

#[test]
fn no_sender_for_a_type_that_is_no_member() {
    let set = generate(&declaration("S", &["A", "B"])).unwrap();
    assert_eq!(set.channel_of("C"), None);
    assert_eq!(set.channel_of(""), None);
    assert_eq!(set.channel_of("a"), None);
}

#[test]
fn empty_declaration_is_rejected() {
    assert_eq!(
        generate(&declaration("S", &[])),
        Err(GenerationError::EmptySet { set: "S".to_string() })
    );
}

#[test]
fn empty_declaration_is_rejected_whatever_its_name() {
    for name in ["S", "MyEvents", "_", ""] {
        assert_eq!(
            generate(&declaration(name, &[])),
            Err(GenerationError::EmptySet { set: name.to_string() })
        );
    }
}

#[test]
fn repeated_member_is_rejected() {
    assert_eq!(
        generate(&declaration("S", &["A", "A"])),
        Err(GenerationError::DuplicateMember {
            set: "S".to_string(),
            member: "A".to_string(),
            index: 1,
        })
    );
}

#[test]
fn first_repetition_is_reported() {
    assert_eq!(
        generate(&declaration("S", &["A", "B", "C", "B", "A"])),
        Err(GenerationError::DuplicateMember {
            set: "S".to_string(),
            member: "B".to_string(),
            index: 3,
        })
    );
    assert_eq!(
        generate(&declaration("S", &["A", "B", "A", "B"])),
        Err(GenerationError::DuplicateMember {
            set: "S".to_string(),
            member: "A".to_string(),
            index: 2,
        })
    );
}

#[test]
fn members_that_differ_in_case_are_distinct() {
    let set = generate(&declaration("S", &["Event", "event", "EVENT"])).unwrap();
    assert_eq!(set.fields.len(), 3);
}

#[test]
fn messages_name_the_rule_and_the_set() {
    assert_eq!(GenerationError::Syntax.message(), "not an event set declaration");
    assert_eq!(
        GenerationError::EmptySet { set: "MyEvents".to_string() }.message(),
        "cannot make an empty event set: MyEvents"
    );
    assert_eq!(
        GenerationError::DuplicateMember {
            set: "MyEvents".to_string(),
            member: "Hit".to_string(),
            index: 4,
        }
        .message(),
        "duplicate member Hit in event set MyEvents"
    );
}

#[test]
fn channel_of_takes_the_first_sender_for_a_type() {
    let set = GeneratedSet {
        name: "S".to_string(),
        fields: names(&["A", "B"]),
        registers: names(&["A", "B"]),
        senders: vec![
            Sender { event: "B".to_string(), field: 1 },
            Sender { event: "A".to_string(), field: 0 },
            Sender { event: "B".to_string(), field: 0 },
        ],
    };
    assert_eq!(set.channel_of("B"), Some(1));
    assert_eq!(set.channel_of("A"), Some(0));
}
