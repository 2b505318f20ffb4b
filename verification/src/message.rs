//! Conversation messages as they arrive over the C boundary.
use vstd::prelude::*;

use crate::role::Role;
use crate::text::{c_str_to_string, spec_c_str_to_string, view_result};

verus! {

/// Message role as the C side gives it.
#[derive(Debug, Clone, Copy, PartialEq, Eq, Structural)]
pub enum MessageRole {
    User,
    Assistant,
    System,
}

/// A message as read from C: its role, and its content as the
/// bytes before the NUL (`None` for a null pointer).
pub struct GooseFfi2Message {
    pub role: MessageRole,
    pub content: Option<Vec<u8>>,
}

pub struct RawMessageView {
    pub role: MessageRole,
    pub content: Option<Seq<u8>>,
}

impl View for GooseFfi2Message {
    type V = RawMessageView;

    open spec fn view(&self) -> RawMessageView {
        RawMessageView { role: self.role, content: self.content.deep_view() }
    }
}

/// A text message of a conversation.
pub struct Message {
    pub role: Role,
    pub text: String,
}

pub struct MessageView {
    pub role: Role,
    pub text: Seq<char>,
}

impl View for Message {
    type V = MessageView;

    open spec fn view(&self) -> MessageView {
        MessageView { role: self.role, text: self.text@ }
    }
}

pub open spec fn messages_view(v: Seq<Message>) -> Seq<MessageView> {
    v.map_values(|m: Message| m@)
}

/// The conversation role for a C role: there is no system role in a
/// conversation, so a system message is sent as a user message.
pub open spec fn spec_conversation_role(role: MessageRole) -> Role {
    match role {
        MessageRole::User => Role::User,
        MessageRole::Assistant => Role::Assistant,
        MessageRole::System => Role::User,
    }
}

pub fn conversation_role(role: MessageRole) -> (r: Role)
    ensures
        r == spec_conversation_role(role),
{
    match role {
        MessageRole::User => Role::User,
        MessageRole::Assistant => Role::Assistant,
        MessageRole::System => Role::User,
    }
}

/// What `create_message` gives for a C message.
pub open spec fn spec_create_message(raw: RawMessageView) -> Result<MessageView, Seq<char>> {
    match spec_c_str_to_string(raw.content) {
        Err(e) => Err(e),
        Ok(text) => Ok(MessageView { role: spec_conversation_role(raw.role), text }),
    }
}

/// A message built from C reads exactly when its content does; its text is
/// that content and its role follows the C role: an assistant message stays an
/// assistant message, a user or system message is sent as a user message.
pub proof fn law_create_message(raw: RawMessageView)
    ensures
        spec_create_message(raw) is Ok <==> spec_c_str_to_string(raw.content) is Ok,
        spec_create_message(raw) matches Err(e) ==> spec_c_str_to_string(raw.content) == Err::<
            Seq<char>,
            Seq<char>,
        >(e),
        spec_create_message(raw) matches Ok(m) ==> {
            &&& spec_c_str_to_string(raw.content) == Ok::<Seq<char>, Seq<char>>(m.text)
            &&& raw.role == MessageRole::Assistant ==> m.role == Role::Assistant
            &&& raw.role != MessageRole::Assistant ==> m.role == Role::User
        },
{
}

/// Builds a text message from its C form.
pub fn create_message(msg: &GooseFfi2Message) -> (r: Result<Message, String>)
    ensures
        view_result(r) == spec_create_message(msg@),
{
    let content = match c_str_to_string(&msg.content) {
        Ok(s) => s,
        Err(e) => return Err(e),
    };
    Ok(Message { role: conversation_role(msg.role), text: content })
}

} // verus!
