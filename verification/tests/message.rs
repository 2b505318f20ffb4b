use goose_ffi2::message::{conversation_role, create_message, GooseFfi2Message, MessageRole};
use goose_ffi2::role::Role;

#[test]
fn roles_map_to_conversation_roles() {
    assert_eq!(conversation_role(MessageRole::User), Role::User);
    assert_eq!(conversation_role(MessageRole::Assistant), Role::Assistant);
    assert_eq!(conversation_role(MessageRole::System), Role::User);
}

#[test]
fn message_from_c() {
    let m = create_message(&GooseFfi2Message {
        role: MessageRole::System,
        content: Some(b"You are helpful".to_vec()),
    })
    .unwrap();
    assert_eq!(m.role, Role::User);
    assert_eq!(m.text, "You are helpful");

    let m = create_message(&GooseFfi2Message { role: MessageRole::Assistant, content: Some(vec![]) })
        .unwrap();
    assert_eq!(m.role, Role::Assistant);
    assert_eq!(m.text, "");
}

#[test]
fn message_without_content() {
    let r = create_message(&GooseFfi2Message { role: MessageRole::User, content: None });
    assert_eq!(r.err(), Some("Null pointer provided".to_string()));
}
