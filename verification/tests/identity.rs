use game_core::{
    GameDefinitionKey, GameDefinitionRef, GameDefinitionVersion, GameResultId, GameResultRef,
    GameSessionId, GameSessionRef, IdentityError,
};

#[test]
fn canonical_identifiers_are_domain_neutral_and_versioned() {
    let definition = GameDefinitionRef::new("board.strategy.standard", "rules-2.1").unwrap();
    let session = GameSessionRef::new(definition, "room-7#match-42").unwrap();
    let result = GameResultRef::new(session, "result-42", 1).unwrap();

    assert_eq!(
        result.session().definition().key().as_str(),
        "board.strategy.standard"
    );
    assert_eq!(result.session().session_id().as_str(), "room-7#match-42");
    assert_eq!(result.result_id().as_str(), "result-42");
    assert_eq!(result.version(), 1);
}

#[test]
fn malformed_identifiers_fail_closed() {
    for invalid in [
        "",
        "Board.Strategy",
        "board..strategy",
        " board",
        "board/game",
    ] {
        assert_eq!(
            GameDefinitionKey::new(invalid),
            Err(IdentityError::InvalidDefinitionKey)
        );
    }
    let definition = GameDefinitionRef::new("board.strategy", "v1").unwrap();
    assert_eq!(
        GameSessionRef::new(definition, " session"),
        Err(IdentityError::InvalidSessionId)
    );
}

#[test]
fn opaque_identity_and_result_version_bounds_match_typescript() {
    let definition = GameDefinitionRef::new("board.strategy", "v1").unwrap();
    let session = GameSessionRef::new(definition, &"🂡".repeat(160)).unwrap();
    assert_eq!(session.session_id().as_str().chars().count(), 160);

    let definition = GameDefinitionRef::new("board.strategy", "v1").unwrap();
    assert_eq!(
        GameSessionRef::new(definition, &"🂡".repeat(161)),
        Err(IdentityError::InvalidSessionId)
    );
    let definition = GameDefinitionRef::new("board.strategy", "v1").unwrap();
    assert_eq!(
        GameSessionRef::new(definition, "session\u{85}control"),
        Err(IdentityError::InvalidSessionId)
    );

    let definition = GameDefinitionRef::new("board.strategy", "v1").unwrap();
    let session = GameSessionRef::new(definition, "session-1").unwrap();
    assert!(GameResultRef::new(session.clone(), "result-1", 9_007_199_254_740_991).is_ok());
    assert_eq!(
        GameResultRef::new(session, "result-1", 9_007_199_254_740_992),
        Err(IdentityError::InvalidResultVersion)
    );
}

#[test]
fn definition_keys_require_lowercase_segment_starts() {
    assert!(GameDefinitionKey::new("a").is_ok());
    assert!(GameDefinitionKey::new("board_2.x9").is_ok());
    assert_eq!(
        GameDefinitionKey::new("board.9x"),
        Err(IdentityError::InvalidDefinitionKey)
    );
    assert_eq!(
        GameDefinitionKey::new("board."),
        Err(IdentityError::InvalidDefinitionKey)
    );
    assert_eq!(
        GameDefinitionKey::new(".board"),
        Err(IdentityError::InvalidDefinitionKey)
    );
    assert_eq!(
        GameDefinitionKey::new("_board"),
        Err(IdentityError::InvalidDefinitionKey)
    );
    assert!(GameDefinitionKey::new(&"a".repeat(160)).is_ok());
    assert_eq!(
        GameDefinitionKey::new(&"a".repeat(161)),
        Err(IdentityError::InvalidDefinitionKey)
    );
}

#[test]
fn version_labels_accept_ascii_alphanumerics_and_separators() {
    assert_eq!(GameDefinitionVersion::new("1.0.0-rc_1").unwrap().as_str(), "1.0.0-rc_1");
    assert_eq!(
        GameDefinitionVersion::new(""),
        Err(IdentityError::InvalidDefinitionVersion)
    );
    assert_eq!(
        GameDefinitionVersion::new("v 1"),
        Err(IdentityError::InvalidDefinitionVersion)
    );
    assert_eq!(
        GameDefinitionVersion::new("vé"),
        Err(IdentityError::InvalidDefinitionVersion)
    );
    assert_eq!(
        GameDefinitionRef::new("Bad", "also bad"),
        Err(IdentityError::InvalidDefinitionKey)
    );
    assert_eq!(
        GameDefinitionRef::new("good", "bad label"),
        Err(IdentityError::InvalidDefinitionVersion)
    );
}

#[test]
fn reference_ids_reject_surrounding_whitespace_and_controls() {
    assert!(GameSessionId::new("a b").is_ok());
    assert_eq!(GameSessionId::new("a\t"), Err(IdentityError::InvalidSessionId));
    assert_eq!(GameSessionId::new("\u{3000}a"), Err(IdentityError::InvalidSessionId));
    assert_eq!(GameSessionId::new("a\u{7f}b"), Err(IdentityError::InvalidSessionId));
    assert_eq!(GameResultId::new(""), Err(IdentityError::InvalidResultId));
    assert_eq!(GameResultId::new("r\u{1}"), Err(IdentityError::InvalidResultId));
    assert!(GameResultId::new("r\u{a0}x").is_ok());
}

#[test]
fn result_version_is_checked_before_the_result_id() {
    let definition = GameDefinitionRef::new("board.strategy", "v1").unwrap();
    let session = GameSessionRef::new(definition, "session-1").unwrap();
    assert_eq!(
        GameResultRef::new(session.clone(), " bad", 0),
        Err(IdentityError::InvalidResultVersion)
    );
    assert_eq!(
        GameResultRef::new(session, " bad", 1),
        Err(IdentityError::InvalidResultId)
    );
}

#[test]
fn identity_error_codes_are_stable() {
    assert_eq!(IdentityError::InvalidDefinitionKey.code(), "GAME_INVALID_DEFINITION_KEY");
    assert_eq!(IdentityError::InvalidDefinitionVersion.code(), "GAME_INVALID_DEFINITION_VERSION");
    assert_eq!(IdentityError::InvalidSessionId.code(), "GAME_INVALID_SESSION_ID");
    assert_eq!(IdentityError::InvalidResultId.code(), "GAME_INVALID_RESULT_ID");
    assert_eq!(IdentityError::InvalidResultVersion.code(), "GAME_INVALID_RESULT_VERSION");
}
