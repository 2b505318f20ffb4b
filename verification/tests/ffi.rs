use goose_ffi2::extension::GooseFfi2Extension;
use goose_ffi2::ffi::{
    completion_pointer_error, completion_result, error_result, prepare_completion, version_text,
    CompletionOutcome, GooseFfi2Config, PACKAGE_VERSION,
};
use goose_ffi2::message::{GooseFfi2Message, MessageRole};
use goose_ffi2::role::Role;

fn raw(s: &str) -> Option<Vec<u8>> {
    Some(s.as_bytes().to_vec())
}

fn config() -> Option<GooseFfi2Config> {
    Some(GooseFfi2Config {
        provider: raw("databricks"),
        model_name: raw("goose"),
        system_preamble: raw("You are a helpful assistant."),
    })
}

fn message(role: MessageRole, text: &str) -> GooseFfi2Message {
    GooseFfi2Message { role, content: raw(text) }
}

#[test]
fn test_version() {
    let v = version_text("1.2.3");
    assert!(v.contains("goose-ffi2 version"));
    assert_eq!(v, "goose-ffi2 version 1.2.3");
    assert_eq!(version_text(PACKAGE_VERSION), "goose-ffi2 version 0.1.0");
}

#[test]
fn pointer_checks_come_first() {
    assert_eq!(completion_pointer_error(false, false, 3, false, 3), Some("Configuration is null".to_string()));
    assert_eq!(
        completion_pointer_error(true, false, 3, false, 3),
        Some("Messages array is null but count is non-zero".to_string())
    );
    assert_eq!(
        completion_pointer_error(true, false, 0, false, 3),
        Some("Extensions array is null but count is non-zero".to_string())
    );
    assert_eq!(completion_pointer_error(true, false, -1, false, 0), None);
    assert_eq!(completion_pointer_error(true, true, 5, true, 2), None);
}

#[test]
fn request_is_read() {
    let msgs = Some(vec![message(MessageRole::User, "hi"), message(MessageRole::System, "sys")]);
    let exts = Some(vec![GooseFfi2Extension { name: raw("e"), instructions: None, tools: vec![] }]);
    let req = prepare_completion(&config(), &msgs, 2, &exts, 1).unwrap();
    assert_eq!(req.provider, "databricks");
    assert_eq!(req.model_name, "goose");
    assert_eq!(req.system_preamble, "You are a helpful assistant.");
    assert_eq!(req.messages.len(), 2);
    assert_eq!(req.messages[1].role, Role::User);
    assert_eq!(req.messages[1].text, "sys");
    assert_eq!(req.extensions[0].name, "e");
}

#[test]
fn null_arrays_with_no_items_are_empty() {
    let req = prepare_completion(&config(), &None, 0, &None, -3).unwrap();
    assert!(req.messages.is_empty());
    assert!(req.extensions.is_empty());
}

#[test]
fn request_checks_in_order() {
    assert_eq!(
        prepare_completion(&None, &None, 5, &None, 5).err(),
        Some("Configuration is null".to_string())
    );
    assert_eq!(
        prepare_completion(&config(), &None, 1, &None, 1).err(),
        Some("Messages array is null but count is non-zero".to_string())
    );
    assert_eq!(
        prepare_completion(&config(), &Some(vec![]), 0, &None, 1).err(),
        Some("Extensions array is null but count is non-zero".to_string())
    );
    let bad = Some(GooseFfi2Config { provider: None, model_name: None, system_preamble: None });
    assert_eq!(
        prepare_completion(&bad, &None, 0, &None, 0).err(),
        Some("Invalid provider: Null pointer provided".to_string())
    );
    let bad = Some(GooseFfi2Config { provider: raw("p"), model_name: None, system_preamble: None });
    assert_eq!(
        prepare_completion(&bad, &None, 0, &None, 0).err(),
        Some("Invalid model name: Null pointer provided".to_string())
    );
    let bad = Some(GooseFfi2Config {
        provider: raw("p"),
        model_name: raw("m"),
        system_preamble: Some(vec![0xff]),
    });
    assert_eq!(
        prepare_completion(&bad, &None, 0, &None, 0).err(),
        Some(
            "Invalid system preamble: Invalid UTF-8 string: invalid utf-8 sequence of 1 bytes from index 0"
                .to_string()
        )
    );
}

#[test]
fn item_errors_name_their_index() {
    let mut msgs: Vec<GooseFfi2Message> = (0..11).map(|_| message(MessageRole::User, "x")).collect();
    msgs[10].content = None;
    assert_eq!(
        prepare_completion(&config(), &Some(msgs), 11, &None, 0).err(),
        Some("Failed to process message 10: Null pointer provided".to_string())
    );
    let exts = Some(vec![
        GooseFfi2Extension { name: raw("ok"), instructions: None, tools: vec![] },
        GooseFfi2Extension { name: None, instructions: None, tools: vec![] },
    ]);
    assert_eq!(
        prepare_completion(&config(), &None, 0, &exts, 2).err(),
        Some("Failed to process extension 1: Null pointer provided".to_string())
    );
}

#[test]
fn results_handed_back() {
    let r = completion_result(CompletionOutcome::Serialized("{\"a\":1}".to_string()));
    assert!(r.success);
    assert_eq!(r.data, Some("{\"a\":1}".to_string()));
    assert_eq!(r.error, None);

    let r = completion_result(CompletionOutcome::SerializationFailed("boom".to_string()));
    assert!(!r.success);
    assert_eq!(r.data, None);
    assert_eq!(r.error, Some("Failed to serialize response: boom".to_string()));

    let r = completion_result(CompletionOutcome::CompletionFailed("timeout".to_string()));
    assert_eq!(r.error, Some("Completion error: timeout".to_string()));

    let r = error_result("Configuration is null".to_string());
    assert!(!r.success);
    assert_eq!(r.data, None);
    assert_eq!(r.error, Some("Configuration is null".to_string()));
}
