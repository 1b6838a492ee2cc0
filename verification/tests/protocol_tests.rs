use zugriff::deploy::{
    decode_message, interpret_create_response, state_text, CreateOutcome, DeploymentSession,
    Message, SessionStep, State,
};

fn frame(bytes: Vec<u8>) -> Message {
    decode_message(bytes.as_slice()).expect("frame must decode")
}

#[test]
fn status_sequence_accumulates_domains_until_success() {
    let mut session = DeploymentSession::new();
    let script = vec![
        Message::STATE(State::SIZE),
        Message::STATE(State::SECURITY),
        Message::DOMAINS(vec!["a.zugriff.app".to_string()]),
        Message::STATE(State::DNS),
    ];
    for message in script {
        assert!(matches!(session.apply(message), SessionStep::Continue));
    }
    assert!(matches!(session.apply(Message::SUCCESS), SessionStep::Succeeded));
    assert_eq!(session.domains, vec!["a.zugriff.app".to_string()]);
}

#[test]
fn an_error_message_stops_the_session_with_its_text() {
    let mut session = DeploymentSession::new();
    assert!(matches!(session.apply(Message::STATE(State::SIZE)), SessionStep::Continue));
    match session.apply(Message::ERROR("quota exceeded".to_string())) {
        SessionStep::Failed(text) => assert_eq!(text, "quota exceeded"),
        _ => panic!("an error message must end the session"),
    }
}

#[test]
fn an_empty_error_and_the_error_state_use_the_generic_text() {
    let mut session = DeploymentSession::new();
    match session.apply(Message::ERROR(String::new())) {
        SessionStep::Failed(text) => assert_eq!(text, "An error occurred."),
        _ => panic!("must fail"),
    }
    let mut session = DeploymentSession::new();
    match session.apply(Message::STATE(State::ERROR)) {
        SessionStep::Failed(text) => assert_eq!(text, "An error occurred."),
        _ => panic!("must fail"),
    }
}

#[test]
fn binary_frames_decode_as_the_platform_encodes_them() {
    // the platform writes frames with a 32-bit variant index and 64-bit
    // lengths, little endian; tuples of the same primitives encode alike
    let state_frame = bincode::serialize(&(0u32, 1u32)).unwrap();
    match frame(state_frame) {
        Message::STATE(s) => assert_eq!(s, State::SECURITY),
        _ => panic!("expected a state frame"),
    }
    let domains_frame = bincode::serialize(&(1u32, vec!["a.zugriff.app".to_string()])).unwrap();
    match frame(domains_frame) {
        Message::DOMAINS(ds) => assert_eq!(ds, vec!["a.zugriff.app".to_string()]),
        _ => panic!("expected a domains frame"),
    }
    let error_frame = bincode::serialize(&(2u32, "quota exceeded".to_string())).unwrap();
    match frame(error_frame) {
        Message::ERROR(e) => assert_eq!(e, "quota exceeded"),
        _ => panic!("expected an error frame"),
    }
    let success_frame = bincode::serialize(&3u32).unwrap();
    assert!(matches!(frame(success_frame), Message::SUCCESS));
}

#[test]
fn hand_written_frames_decode_too() {
    assert!(matches!(frame(vec![0, 0, 0, 0, 0, 0, 0, 0]), Message::STATE(State::SIZE)));
    assert!(matches!(frame(vec![0, 0, 0, 0, 5, 0, 0, 0]), Message::STATE(State::ERROR)));
    // DOMAINS with one three-byte name
    let bytes = vec![
        1, 0, 0, 0, // tag
        1, 0, 0, 0, 0, 0, 0, 0, // one string
        3, 0, 0, 0, 0, 0, 0, 0, // of three bytes
        b'a', b'.', b'x',
    ];
    match frame(bytes) {
        Message::DOMAINS(ds) => assert_eq!(ds, vec!["a.x".to_string()]),
        _ => panic!("expected a domains frame"),
    }
}

#[test]
fn unknown_frames_are_protocol_errors()  {
    assert!(decode_message(&[]).is_err());
    assert!(decode_message(&[9, 0, 0, 0]).is_err());
    assert!(decode_message(&[0, 0, 0, 0, 9, 0, 0, 0]).is_err());
    assert!(decode_message(&[0, 0, 0]).is_err());
    // a truncated string
    assert!(decode_message(&[2, 0, 0, 0, 5, 0, 0, 0, 0, 0, 0, 0, b'a']).is_err());
    // invalid UTF-8 inside an error message
    assert!(decode_message(&[2, 0, 0, 0, 1, 0, 0, 0, 0, 0, 0, 0, 0xFF]).is_err());
}

#[test]
fn create_responses_map_to_their_outcomes() {
    assert!(matches!(interpret_create_response(401, ""), CreateOutcome::Unauthorized));
    match interpret_create_response(403, "{\"account\":true,\"organisation\":false,\"project\":false}") {
        CreateOutcome::Suspended { account, organisation, project } => {
            assert!(account && !organisation && !project);
        },
        _ => panic!("expected a suspension"),
    }
    assert!(matches!(interpret_create_response(403, "garbage"), CreateOutcome::Fatal));
    match interpret_create_response(429, "slow down") {
        CreateOutcome::RateLimited(m) => assert_eq!(m, "slow down"),
        _ => panic!("expected a rate limit"),
    }
    match interpret_create_response(200, "{ \"deployment\" : 8012 }") {
        CreateOutcome::Created(id) => assert_eq!(id, 8012),
        _ => panic!("whitespace around tokens must be tolerated"),
    }
    match interpret_create_response(
        403,
        " { \"account\" : false , \"organisation\" : true , \"project\" : false } ",
    ) {
        CreateOutcome::Suspended { account, organisation, project } => {
            assert!(!account && organisation && !project);
        },
        _ => panic!("whitespace around tokens must be tolerated"),
    }
    match interpret_create_response(200, "{\"deployment\":8012}") {
        CreateOutcome::Created(id) => assert_eq!(id, 8012),
        _ => panic!("expected a created deployment"),
    }
    assert!(matches!(interpret_create_response(200, "{\"deployment\":}"), CreateOutcome::Fatal));
    assert!(matches!(interpret_create_response(500, "{\"deployment\":8012}"), CreateOutcome::Fatal));
}

#[test]
fn state_texts_match_the_progress_messages() {
    assert_eq!(state_text(State::SIZE), "Checking size of deployment.");
    assert_eq!(state_text(State::DNS), "Triggering deployment distribution.");
    assert_eq!(state_text(State::ERROR), "An error occurred.");
}
