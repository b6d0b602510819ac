use game_core::{Participant, ParticipantError, ParticipantId, ParticipantRoster, ParticipantStatus};

#[test]
fn participant_ids_follow_the_reference_rule() {
    assert_eq!(ParticipantId::new("alice").unwrap().as_str(), "alice");
    assert_eq!(ParticipantId::new(""), Err(ParticipantError::InvalidId));
    assert_eq!(ParticipantId::new("alice "), Err(ParticipantError::InvalidId));
    assert_eq!(ParticipantId::new("a\nb"), Err(ParticipantError::InvalidId));
    assert!(ParticipantId::new(&"x".repeat(160)).is_ok());
    assert_eq!(
        ParticipantId::new(&"x".repeat(161)),
        Err(ParticipantError::InvalidId)
    );
}

#[test]
fn roster_lists_participants_in_identity_order() {
    let mut roster = ParticipantRoster::new();
    assert!(roster.is_empty());
    for name in ["carol", "alice", "bob", "al"] {
        roster.join(ParticipantId::new(name).unwrap()).unwrap();
    }
    let names: Vec<&str> = roster.iter().iter().map(|p| p.id().as_str()).collect();
    assert_eq!(names, vec!["al", "alice", "bob", "carol"]);
    assert_eq!(roster.len(), 4);
    assert!(!roster.is_empty());
}

#[test]
fn leaving_keeps_the_identity_registered() {
    let mut roster = ParticipantRoster::default();
    let bob = ParticipantId::new("bob").unwrap();
    let eve = ParticipantId::new("eve").unwrap();
    assert_eq!(roster.leave(&bob), Err(ParticipantError::NotFound));
    roster.join(bob.clone()).unwrap();
    roster.leave(&bob).unwrap();
    assert!(!roster.is_active(&bob));
    assert!(!roster.is_active(&eve));
    assert_eq!(roster.join(bob.clone()), Err(ParticipantError::AlreadyExists));
    assert_eq!(roster.len(), 1);
    assert!(roster.get(&eve).is_none());
    let entry = roster.get(&bob).unwrap();
    assert_eq!(entry.id(), &bob);
    assert!(!entry.is_active());
}

#[test]
fn a_new_participant_is_active() {
    let id = ParticipantId::new("p1").unwrap();
    let participant = Participant::new(id.clone());
    assert_eq!(participant.status(), ParticipantStatus::Active);
    assert!(participant.is_active());
    assert_eq!(participant.id(), &id);
}

#[test]
fn participant_error_codes_are_stable() {
    assert_eq!(ParticipantError::InvalidId.code(), "GAME_INVALID_PARTICIPANT_ID");
    assert_eq!(ParticipantError::AlreadyExists.code(), "GAME_PARTICIPANT_ALREADY_EXISTS");
    assert_eq!(ParticipantError::NotFound.code(), "GAME_PARTICIPANT_NOT_FOUND");
    assert_eq!(ParticipantError::AlreadyLeft.code(), "GAME_PARTICIPANT_ALREADY_LEFT");
}
