use agnt::wire::{
    cancel_for, dispatch_for, response_for, token_for, validate_nats_token, AgentCancel, RequestId,
    WireError, CONFIRM_REPLY, CONFIRM_REQUEST,
};

#[test]
fn request_id_display_is_uuid_string() {
    let id = RequestId::new();
    let display = id.to_text();
    assert_eq!(display.len(), 36); // UUID hyphenated form
    assert_eq!(display, uuid::Uuid::from_u128(id.0).to_string());
}

#[test]
fn request_id_fromstr_roundtrip() {
    let id = RequestId::new();
    let s = id.to_text();
    let parsed: RequestId = RequestId::from_text(&s).unwrap();
    assert_eq!(id, parsed);
}

#[test]
fn request_ids_are_checked() {
    assert_eq!(
        RequestId(0x0123_4567_89ab_cdef_0123_4567_89ab_cdef).to_text(),
        "01234567-89ab-cdef-0123-456789abcdef"
    );
    assert!(RequestId::from_text("not an id").is_err());
    assert_ne!(RequestId::new(), RequestId::default());
    let n = RequestId::new().0;
    assert_eq!((n >> 76) & 0xf, 4);
    assert_eq!((n >> 62) & 3, 2);
}

#[test]
fn cancelling_all_is_not_the_default() {
    let c = AgentCancel::default();
    assert!(!c.all);
    assert!(c.request_id.is_none());
}

#[test]
fn subjects_dispatch_for() {
    assert_eq!(dispatch_for("sage").unwrap(), "agent.dispatch.sage");
}

#[test]
fn subjects_token_for() {
    let id = RequestId::new();
    let subj = token_for("sage", &id).unwrap();
    assert!(subj.starts_with("agent.token.sage."));
    assert!(subj.ends_with(&id.to_text()));
}

#[test]
fn subjects_cancel_for() {
    assert_eq!(cancel_for("nexus").unwrap(), "agent.cancel.nexus");
}

#[test]
fn subjects_response_for() {
    let id = RequestId::new();
    let subj = response_for("sage", &id).unwrap();
    assert!(subj.starts_with("agent.response.sage."));
}

#[test]
fn validate_nats_token_rejects_dot() {
    assert_eq!(
        validate_nats_token("bad.name"),
        Err(WireError::InvalidAgentName("bad.name".into()))
    );
}

#[test]
fn validate_nats_token_rejects_gt() {
    assert!(validate_nats_token("bad>name").is_err());
}

#[test]
fn validate_nats_token_rejects_star() {
    assert!(validate_nats_token("bad*name").is_err());
}

#[test]
fn validate_nats_token_rejects_whitespace() {
    assert!(validate_nats_token("bad name").is_err());
    assert!(validate_nats_token("bad\tname").is_err());
}

#[test]
fn validate_nats_token_accepts_valid_name() {
    assert!(validate_nats_token("sage").is_ok());
    assert!(validate_nats_token("NEXUS-2").is_ok());
    assert!(validate_nats_token("agent_42").is_ok());
}

#[test]
fn dispatch_for_rejects_invalid_name() {
    assert!(dispatch_for("bad.name").is_err());
}

#[test]
fn confirm_subjects_not_under_voice_namespace() {
    assert!(!CONFIRM_REQUEST.starts_with("voice."));
    assert!(!CONFIRM_REPLY.starts_with("voice."));
    assert_eq!(CONFIRM_REQUEST, "agnt.confirm.request");
    assert_eq!(CONFIRM_REPLY, "agnt.confirm.reply");
}
