use biscuit::cache::MessageField;
use biscuit::matcher::{is_script_file, FeedError, LoadEvent, LoadOutcome, LoadState, Matcher};

fn field(name: &str, ty: &str, id: u16) -> MessageField {
    MessageField { field_name: name.to_string(), field_type: ty.to_string(), field_id: id }
}

#[test]
fn load_lifecycle_happy_path() {
    let state = LoadState::Created
        .next(LoadEvent::Evaluated(true))
        .next(LoadEvent::CompareFound(true))
        .next(LoadEvent::NameFound(Some("Login".to_string())))
        .next(LoadEvent::InitOk(true));
    match state.into_outcome() {
        Some(LoadOutcome::Ready(name)) => assert_eq!(name, "Login"),
        _ => panic!("a fully observed script must be ready"),
    }
}

#[test]
fn script_without_compare_is_rejected_silently() {
    let state = LoadState::Created
        .next(LoadEvent::Evaluated(true))
        .next(LoadEvent::CompareFound(false));
    let outcome = match state.into_outcome() {
        Some(outcome) => outcome,
        None => panic!("missing compare must settle the outcome"),
    };
    assert!(matches!(outcome, LoadOutcome::Rejected));

    let mut matcher = Matcher::new();
    let warn = matcher.enroll(outcome);
    assert!(!warn);
    assert_eq!(matcher.roster_len(), 0);
}

#[test]
fn script_with_bad_syntax_warns_and_spares_siblings() {
    let state = LoadState::Created.next(LoadEvent::Evaluated(false));
    let outcome = state.into_outcome().unwrap();
    assert!(matches!(outcome, LoadOutcome::Errored));

    let mut matcher = Matcher::new();
    let warn = matcher.enroll(outcome);
    assert!(warn);
    assert_eq!(matcher.roster_len(), 0);

    // A valid script in the same directory still loads.
    let warn2 = matcher.enroll(LoadOutcome::Ready("Valid".to_string()));
    assert!(!warn2);
    assert_eq!(matcher.roster_len(), 1);
    assert_eq!(matcher.roster_name(0).as_str(), "Valid");
}

#[test]
fn missing_packet_name_errors() {
    let state = LoadState::Created
        .next(LoadEvent::Evaluated(true))
        .next(LoadEvent::CompareFound(true))
        .next(LoadEvent::NameFound(None));
    assert!(matches!(state.into_outcome(), Some(LoadOutcome::Errored)));
}

#[test]
fn failing_init_errors() {
    let state = LoadState::Created
        .next(LoadEvent::Evaluated(true))
        .next(LoadEvent::CompareFound(true))
        .next(LoadEvent::NameFound(Some("X".to_string())))
        .next(LoadEvent::InitOk(false));
    assert!(matches!(state.into_outcome(), Some(LoadOutcome::Errored)));
}

#[test]
fn terminal_states_do_not_move() {
    let rejected = LoadState::Created
        .next(LoadEvent::Evaluated(true))
        .next(LoadEvent::CompareFound(false))
        .next(LoadEvent::Evaluated(true))
        .next(LoadEvent::InitOk(true));
    assert!(matches!(rejected.into_outcome(), Some(LoadOutcome::Rejected)));

    let errored = LoadState::Created
        .next(LoadEvent::Evaluated(false))
        .next(LoadEvent::CompareFound(true));
    assert!(matches!(errored.into_outcome(), Some(LoadOutcome::Errored)));
}

#[test]
fn identity_filter_narrows_routing() {
    let mut matcher = Matcher::new();
    matcher.enroll(LoadOutcome::Ready("Login".to_string()));

    // With nothing known yet, every id dispatches.
    assert!(matcher.eligible(0, 99));
    assert!(matcher.eligible(0, 42));

    // Bind "Login" to 42.
    matcher.identify("Login".to_string(), 42, field("token", "bytes", 1));

    // Feeding id 99 never invokes its compare; feeding id 42 does.
    assert!(!matcher.eligible(0, 99));
    assert!(matcher.eligible(0, 42));

    // A comparer with an unbound name keeps dispatching on every id.
    matcher.enroll(LoadOutcome::Ready("Other".to_string()));
    assert!(matcher.eligible(1, 99));
}

#[test]
fn script_file_filter_requires_the_js_extension() {
    assert!(is_script_file("a.js"));
    assert!(is_script_file("matcher.min.js"));
    assert!(is_script_file("..js"));
    assert!(!is_script_file("a.txt"));
    assert!(!is_script_file(".js"));
    assert!(!is_script_file("js"));
    assert!(!is_script_file("a.JS"));
    assert!(!is_script_file("ajs"));
    assert!(!is_script_file(""));
}

#[test]
fn feed_decodes_both_blobs_or_aborts() {
    let matcher = Matcher::new();
    let good = [0x08u8, 0x96, 0x01];
    // Wire type 4 (end group) is refused by the decoder.
    let bad = [0x04u8];

    match matcher.prepare_feed(&good, &bad) {
        Err(FeedError::Body) => {},
        _ => panic!("a bad body must abort the feed before any comparer"),
    }
    match matcher.prepare_feed(&bad, &good) {
        Err(FeedError::Header) => {},
        _ => panic!("a bad header must abort the feed before any comparer"),
    }
    match matcher.prepare_feed(&good, &good) {
        Ok((header, body)) => {
            assert_eq!(header.keys(), vec![1]);
            assert_eq!(body.keys(), vec![1]);
        },
        Err(_) => panic!("two well-formed blobs must decode"),
    }
}

#[test]
fn snapshot_export_reflects_identifications() {
    let mut matcher = Matcher::new();
    matcher.identify("Login".to_string(), 42, field("token", "bytes", 1));
    let snapshot = biscuit::cache(&matcher);
    assert!(snapshot.id_known(42));
    assert!(snapshot.name_known("Login"));
    assert_eq!(snapshot.id_map_get(42).unwrap().as_str(), "Login");

    // The export is a clone: growing it does not touch the live cache.
    let mut grown = snapshot.clone();
    grown.update("Other".to_string(), 7, field("x", "uint32", 2));
    assert!(!biscuit::cache(&matcher).id_known(7));
}

#[test]
fn feed_with_an_unsteppable_blob_aborts_cleanly() {
    // The body's length varint folds negative: the decoder cannot step
    // through it, and the feed must abort with a decode failure rather than
    // crash.
    let matcher = Matcher::new();
    let good = [0x08u8, 0x96, 0x01];
    let unsteppable = [0x0Au8, 0xFF, 0xFF, 0xFF, 0xFF, 0x7F];

    match matcher.prepare_feed(&good, &unsteppable) {
        Err(FeedError::Body) => {},
        _ => panic!("an unsteppable body must abort the feed"),
    }
    match matcher.prepare_feed(&unsteppable, &good) {
        Err(FeedError::Header) => {},
        _ => panic!("an unsteppable header must abort the feed"),
    }
}
