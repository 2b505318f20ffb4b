//! The decisions of the C completion entry point: checking and reading what the
//! caller passed, and the result handed back.
use vstd::prelude::*;
use vstd::string::StringExecFns;

use crate::batch::{
    decode_each, lemma_decode_each_err, lemma_decode_each_ok, lemma_decode_each_prefix_err,
    lemma_decode_each_step,
};
use crate::extension::{
    create_extension, extensions_view, spec_create_extension, Extension, ExtensionView,
    GooseFfi2Extension, RawExtensionView,
};
use crate::message::{
    create_message, messages_view, spec_create_message, GooseFfi2Message, Message, MessageView,
    RawMessageView,
};
use crate::text::{c_str_to_string, decimal, push_decimal, spec_c_str_to_string, view_result};

verus! {

broadcast use vstd::seq_lib::group_seq_properties;

/// The provider configuration as read from C.
pub struct GooseFfi2Config {
    pub provider: Option<Vec<u8>>,
    pub model_name: Option<Vec<u8>>,
    pub system_preamble: Option<Vec<u8>>,
}

pub struct RawConfigView {
    pub provider: Option<Seq<u8>>,
    pub model_name: Option<Seq<u8>>,
    pub system_preamble: Option<Seq<u8>>,
}

impl View for GooseFfi2Config {
    type V = RawConfigView;

    open spec fn view(&self) -> RawConfigView {
        RawConfigView {
            provider: self.provider.deep_view(),
            model_name: self.model_name.deep_view(),
            system_preamble: self.system_preamble.deep_view(),
        }
    }
}

/// A completion request, read and checked.
pub struct CompletionRequest {
    pub provider: String,
    pub model_name: String,
    pub system_preamble: String,
    pub messages: Vec<Message>,
    pub extensions: Vec<Extension>,
}

pub struct RequestView {
    pub provider: Seq<char>,
    pub model_name: Seq<char>,
    pub system_preamble: Seq<char>,
    pub messages: Seq<MessageView>,
    pub extensions: Seq<ExtensionView>,
}

impl View for CompletionRequest {
    type V = RequestView;

    open spec fn view(&self) -> RequestView {
        RequestView {
            provider: self.provider@,
            model_name: self.model_name@,
            system_preamble: self.system_preamble@,
            messages: messages_view(self.messages@),
            extensions: extensions_view(self.extensions@),
        }
    }
}

/// An error with `context` put before its message.
pub open spec fn with_context<T>(r: Result<T, Seq<char>>, context: Seq<char>) -> Result<T, Seq<char>> {
    match r {
        Ok(t) => Ok(t),
        Err(e) => Err(context + e),
    }
}

pub open spec fn message_context(i: int) -> Seq<char> {
    "Failed to process message "@ + decimal(i as nat) + ": "@
}

pub open spec fn extension_context(i: int) -> Seq<char> {
    "Failed to process extension "@ + decimal(i as nat) + ": "@
}

/// Reads the messages in order; the first failure, with its index, is the error.
pub open spec fn read_messages(raw: Seq<RawMessageView>) -> Result<Seq<MessageView>, Seq<char>> {
    decode_each(
        raw,
        |i: int, m: RawMessageView| with_context(spec_create_message(m), message_context(i)),
    )
}

/// Reads the extensions in order; the first failure, with its index, is the error.
pub open spec fn read_extensions(raw: Seq<RawExtensionView>) -> Result<Seq<ExtensionView>, Seq<char>> {
    decode_each(
        raw,
        |i: int, e: RawExtensionView| with_context(spec_create_extension(e), extension_context(i)),
    )
}

/// The items of a C array: none when the pointer is null.
pub open spec fn items_or_none<A>(raw: Option<Seq<A>>) -> Seq<A> {
    match raw {
        Some(s) => s,
        None => seq![],
    }
}

/// The checks on the pointers themselves, in the order they are made: the
/// configuration must be there, and an array may be missing only when its count
/// names no items.
pub open spec fn spec_pointer_error(
    config_present: bool,
    messages_present: bool,
    message_count: int,
    extensions_present: bool,
    extension_count: int,
) -> Option<Seq<char>> {
    if !config_present {
        Some("Configuration is null"@)
    } else if !messages_present && message_count > 0 {
        Some("Messages array is null but count is non-zero"@)
    } else if !extensions_present && extension_count > 0 {
        Some("Extensions array is null but count is non-zero"@)
    } else {
        None
    }
}

/// The error that the pointers passed to a completion give, before anything
/// behind them is read; `None` when they pass.
pub fn completion_pointer_error(
    config_present: bool,
    messages_present: bool,
    message_count: i32,
    extensions_present: bool,
    extension_count: i32,
) -> (r: Option<String>)
    ensures
        r.deep_view() == spec_pointer_error(
            config_present,
            messages_present,
            message_count as int,
            extensions_present,
            extension_count as int,
        ),
{
    if !config_present {
        Some(String::from_str("Configuration is null"))
    } else if !messages_present && message_count > 0 {
        Some(String::from_str("Messages array is null but count is non-zero"))
    } else if !extensions_present && extension_count > 0 {
        Some(String::from_str("Extensions array is null but count is non-zero"))
    } else {
        None
    }
}

/// What `prepare_completion` gives: the checks in the order the entry point
/// makes them, then the configuration's strings, the messages and the extensions.
pub open spec fn spec_prepare_completion(
    config: Option<RawConfigView>,
    messages: Option<Seq<RawMessageView>>,
    message_count: int,
    extensions: Option<Seq<RawExtensionView>>,
    extension_count: int,
) -> Result<RequestView, Seq<char>> {
    match spec_pointer_error(
        config is Some,
        messages is Some,
        message_count,
        extensions is Some,
        extension_count,
    ) {
        Some(e) => Err(e),
        None => {
            let c = config->Some_0;
            match with_context(spec_c_str_to_string(c.provider), "Invalid provider: "@) {
                Err(e) => Err(e),
                Ok(provider) => match with_context(
                    spec_c_str_to_string(c.model_name),
                    "Invalid model name: "@,
                ) {
                    Err(e) => Err(e),
                    Ok(model_name) => match with_context(
                        spec_c_str_to_string(c.system_preamble),
                        "Invalid system preamble: "@,
                    ) {
                        Err(e) => Err(e),
                        Ok(system_preamble) => match read_messages(items_or_none(messages)) {
                            Err(e) => Err(e),
                            Ok(msgs) => match read_extensions(items_or_none(extensions)) {
                                Err(e) => Err(e),
                                Ok(exts) => Ok(
                                    RequestView {
                                        provider,
                                        model_name,
                                        system_preamble,
                                        messages: msgs,
                                        extensions: exts,
                                    },
                                ),
                            },
                        },
                    },
                },
            }
        },
    }
}

/// A completion request that reads holds, one for one and in order, what each C
/// message and each C extension reads as; so as many messages and extensions as
/// the counts name.
pub proof fn lemma_prepared_request(
    config: Option<RawConfigView>,
    messages: Option<Seq<RawMessageView>>,
    message_count: int,
    extensions: Option<Seq<RawExtensionView>>,
    extension_count: int,
)
    requires
        messages matches Some(v) ==> v.len() == (if message_count > 0 { message_count } else { 0 }),
        extensions matches Some(v) ==> v.len() == (if extension_count > 0 {
            extension_count
        } else {
            0
        }),
    ensures
        spec_prepare_completion(config, messages, message_count, extensions, extension_count) matches Ok(req) ==> {
            &&& req.messages.len() == (if message_count > 0 { message_count } else { 0 })
            &&& req.extensions.len() == (if extension_count > 0 { extension_count } else { 0 })
            &&& forall|i: int|
                0 <= i < req.messages.len() ==> spec_create_message(
                    #[trigger] items_or_none(messages)[i],
                ) == Ok::<MessageView, Seq<char>>(req.messages[i])
            &&& forall|i: int|
                0 <= i < req.extensions.len() ==> spec_create_extension(
                    #[trigger] items_or_none(extensions)[i],
                ) == Ok::<ExtensionView, Seq<char>>(req.extensions[i])
        },
{
    let fm = |i: int, m: RawMessageView| with_context(spec_create_message(m), message_context(i));
    let fe = |i: int, e: RawExtensionView| with_context(spec_create_extension(e), extension_context(i));
    lemma_decode_each_ok(items_or_none(messages), fm);
    lemma_decode_each_ok(items_or_none(extensions), fe);
    if spec_prepare_completion(config, messages, message_count, extensions, extension_count) is Ok {
        let req = spec_prepare_completion(config, messages, message_count, extensions, extension_count)->Ok_0;
        assert forall|i: int| 0 <= i < req.messages.len() implies spec_create_message(
            #[trigger] items_or_none(messages)[i],
        ) == Ok::<MessageView, Seq<char>>(req.messages[i]) by {
            assert(fm(i, items_or_none(messages)[i]) == Ok::<MessageView, Seq<char>>(req.messages[i]));
        }
        assert forall|i: int| 0 <= i < req.extensions.len() implies spec_create_extension(
            #[trigger] items_or_none(extensions)[i],
        ) == Ok::<ExtensionView, Seq<char>>(req.extensions[i]) by {
            assert(fe(i, items_or_none(extensions)[i]) == Ok::<ExtensionView, Seq<char>>(req.extensions[i]));
        }
    }
}

/// A completion request reads exactly when the configuration is there with its
/// three strings readable, each array is there or its count names no items,
/// and every message and every extension reads. It then carries those three
/// strings.
pub proof fn law_prepare_completion(
    config: Option<RawConfigView>,
    messages: Option<Seq<RawMessageView>>,
    message_count: int,
    extensions: Option<Seq<RawExtensionView>>,
    extension_count: int,
)
    ensures
        spec_prepare_completion(config, messages, message_count, extensions, extension_count) is Ok
            <==> {
            &&& config is Some
            &&& messages is Some || message_count <= 0
            &&& extensions is Some || extension_count <= 0
            &&& spec_c_str_to_string(config->Some_0.provider) is Ok
            &&& spec_c_str_to_string(config->Some_0.model_name) is Ok
            &&& spec_c_str_to_string(config->Some_0.system_preamble) is Ok
            &&& forall|i: int|
                0 <= i < items_or_none(messages).len() ==> (#[trigger] spec_create_message(
                    items_or_none(messages)[i],
                )) is Ok
            &&& forall|i: int|
                0 <= i < items_or_none(extensions).len() ==> (#[trigger] spec_create_extension(
                    items_or_none(extensions)[i],
                )) is Ok
        },
        spec_prepare_completion(config, messages, message_count, extensions, extension_count) matches Ok(
            req,
        ) ==> {
            &&& spec_c_str_to_string(config->Some_0.provider) == Ok::<Seq<char>, Seq<char>>(
                req.provider,
            )
            &&& spec_c_str_to_string(config->Some_0.model_name) == Ok::<Seq<char>, Seq<char>>(
                req.model_name,
            )
            &&& spec_c_str_to_string(config->Some_0.system_preamble) == Ok::<Seq<char>, Seq<char>>(
                req.system_preamble,
            )
            &&& req.messages.len() == items_or_none(messages).len()
            &&& req.extensions.len() == items_or_none(extensions).len()
        },
        config is None ==> spec_prepare_completion(
            config,
            messages,
            message_count,
            extensions,
            extension_count,
        ) == Err::<RequestView, Seq<char>>("Configuration is null"@),
        config is Some && messages is None && message_count > 0 ==> spec_prepare_completion(
            config,
            messages,
            message_count,
            extensions,
            extension_count,
        ) == Err::<RequestView, Seq<char>>("Messages array is null but count is non-zero"@),
        config is Some && (messages is Some || message_count <= 0) && extensions is None
            && extension_count > 0 ==> spec_prepare_completion(
            config,
            messages,
            message_count,
            extensions,
            extension_count,
        ) == Err::<RequestView, Seq<char>>("Extensions array is null but count is non-zero"@),
        config is Some && (messages is Some || message_count <= 0) && (extensions is Some
            || extension_count <= 0) ==> (spec_c_str_to_string(config->Some_0.provider) matches Err(e)
            ==> spec_prepare_completion(config, messages, message_count, extensions, extension_count)
            == Err::<RequestView, Seq<char>>("Invalid provider: "@ + e)),
{
    let ms = items_or_none(messages);
    let es = items_or_none(extensions);
    let fm = |i: int, m: RawMessageView| with_context(spec_create_message(m), message_context(i));
    let fe = |i: int, e: RawExtensionView|
        with_context(spec_create_extension(e), extension_context(i));
    lemma_decode_each_err(ms, fm);
    lemma_decode_each_err(es, fe);
    lemma_decode_each_ok(ms, fm);
    lemma_decode_each_ok(es, fe);
    if forall|i: int| 0 <= i < ms.len() ==> (#[trigger] spec_create_message(ms[i])) is Ok {
        assert forall|i: int| 0 <= i < ms.len() implies !(#[trigger] fm(i, ms[i]) is Err) by {
            assert(spec_create_message(ms[i]) is Ok);
        }
    } else {
        let i = choose|i: int| 0 <= i < ms.len() && !((#[trigger] spec_create_message(ms[i])) is Ok);
        assert(fm(i, ms[i]) is Err);
    }
    if forall|i: int| 0 <= i < es.len() ==> (#[trigger] spec_create_extension(es[i])) is Ok {
        assert forall|i: int| 0 <= i < es.len() implies !(#[trigger] fe(i, es[i]) is Err) by {
            assert(spec_create_extension(es[i]) is Ok);
        }
    } else {
        let i = choose|i: int| 0 <= i < es.len() && !((#[trigger] spec_create_extension(es[i])) is Ok);
        assert(fe(i, es[i]) is Err);
    }
}

/// How many items a C count names: none when it is not positive.
pub open spec fn item_count(count: i32) -> int {
    if count > 0 {
        count as int
    } else {
        0
    }
}

fn add_context(context: &str, e: String) -> (r: String)
    ensures
        r@ == context@ + e@,
{
    let mut r = String::from_str(context);
    r.append(e.as_str());
    r
}

fn indexed_context(what: &str, i: usize, e: String) -> (r: String)
    ensures
        r@ == what@ + decimal(i as nat) + ": "@ + e@,
{
    let mut r = String::from_str(what);
    push_decimal(&mut r, i);
    r.append(": ");
    r.append(e.as_str());
    r
}

fn read_config_string(raw: &Option<Vec<u8>>, context: &str) -> (r: Result<String, String>)
    ensures
        view_result(r) == with_context(spec_c_str_to_string(raw.deep_view()), context@),
{
    match c_str_to_string(raw) {
        Ok(s) => Ok(s),
        Err(e) => Err(add_context(context, e)),
    }
}

fn read_message_list(messages: &Vec<GooseFfi2Message>) -> (r: Result<Vec<Message>, String>)
    ensures
        r matches Ok(v) ==> read_messages(messages@.map_values(|m: GooseFfi2Message| m@)) == Ok::<
            Seq<MessageView>,
            Seq<char>,
        >(messages_view(v@)),
        r matches Err(e) ==> read_messages(messages@.map_values(|m: GooseFfi2Message| m@))
            == Err::<Seq<MessageView>, Seq<char>>(e@),
{
    let ghost raw = messages@.map_values(|m: GooseFfi2Message| m@);
    let ghost f = |i: int, m: RawMessageView|
        with_context(spec_create_message(m), message_context(i));
    let mut out: Vec<Message> = Vec::new();
    assert(raw.take(0) =~= Seq::<RawMessageView>::empty());
    assert(messages_view(out@) =~= Seq::<MessageView>::empty());
    let mut i: usize = 0;
    while i < messages.len()
        invariant
            raw == messages@.map_values(|m: GooseFfi2Message| m@),
            f == (|i: int, m: RawMessageView|
                with_context(spec_create_message(m), message_context(i))),
            i <= raw.len(),
            decode_each(raw.take(i as int), f) == Ok::<Seq<MessageView>, Seq<char>>(
                messages_view(out@),
            ),
        decreases raw.len() - i,
    {
        proof {
            lemma_decode_each_step(raw, f, i as int);
        }
        let m = match create_message(&messages[i]) {
            Ok(m) => m,
            Err(e) => {
                let err = indexed_context("Failed to process message ", i, e);
                proof {
                    reveal_strlit("Failed to process message ");
                    assert(err@ == message_context(i as int) + e@);
                    lemma_decode_each_prefix_err(raw, f, i + 1);
                }
                return Err(err);
            },
        };
        let ghost before = out@;
        out.push(m);
        assert(messages_view(out@) =~= messages_view(before).push(m@));
        i = i + 1;
    }
    assert(raw.take(raw.len() as int) =~= raw);
    Ok(out)
}

fn read_extension_list(extensions: &Vec<GooseFfi2Extension>) -> (r: Result<Vec<Extension>, String>)
    ensures
        r matches Ok(v) ==> read_extensions(
            extensions@.map_values(|e: GooseFfi2Extension| e@),
        ) == Ok::<Seq<ExtensionView>, Seq<char>>(extensions_view(v@)),
        r matches Err(e) ==> read_extensions(extensions@.map_values(|e: GooseFfi2Extension| e@))
            == Err::<Seq<ExtensionView>, Seq<char>>(e@),
{
    let ghost raw = extensions@.map_values(|e: GooseFfi2Extension| e@);
    let ghost f = |i: int, e: RawExtensionView|
        with_context(spec_create_extension(e), extension_context(i));
    let mut out: Vec<Extension> = Vec::new();
    assert(raw.take(0) =~= Seq::<RawExtensionView>::empty());
    assert(extensions_view(out@) =~= Seq::<ExtensionView>::empty());
    let mut i: usize = 0;
    while i < extensions.len()
        invariant
            raw == extensions@.map_values(|e: GooseFfi2Extension| e@),
            f == (|i: int, e: RawExtensionView|
                with_context(spec_create_extension(e), extension_context(i))),
            i <= raw.len(),
            decode_each(raw.take(i as int), f) == Ok::<Seq<ExtensionView>, Seq<char>>(
                extensions_view(out@),
            ),
        decreases raw.len() - i,
    {
        proof {
            lemma_decode_each_step(raw, f, i as int);
        }
        let x = match create_extension(&extensions[i]) {
            Ok(x) => x,
            Err(e) => {
                let err = indexed_context("Failed to process extension ", i, e);
                proof {
                    assert(err@ == extension_context(i as int) + e@);
                    lemma_decode_each_prefix_err(raw, f, i + 1);
                }
                return Err(err);
            },
        };
        let ghost before = out@;
        out.push(x);
        assert(extensions_view(out@) =~= extensions_view(before).push(x@));
        i = i + 1;
    }
    assert(raw.take(raw.len() as int) =~= raw);
    Ok(out)
}

/// Checks and reads what the C caller passed to a completion: `None` stands
/// for a null pointer; an array that is there holds the items its count names.
pub fn prepare_completion(
    config: &Option<GooseFfi2Config>,
    messages: &Option<Vec<GooseFfi2Message>>,
    message_count: i32,
    extensions: &Option<Vec<GooseFfi2Extension>>,
    extension_count: i32,
) -> (r: Result<CompletionRequest, String>)
    requires
        messages matches Some(v) ==> v@.len() == item_count(message_count),
        extensions matches Some(v) ==> v@.len() == item_count(extension_count),
    ensures
        view_result(r) == spec_prepare_completion(
            match config {
                Some(c) => Some(c@),
                None => None,
            },
            match messages {
                Some(v) => Some(v@.map_values(|m: GooseFfi2Message| m@)),
                None => None,
            },
            message_count as int,
            match extensions {
                Some(v) => Some(v@.map_values(|e: GooseFfi2Extension| e@)),
                None => None,
            },
            extension_count as int,
        ),
{
    match completion_pointer_error(
        config.is_some(),
        messages.is_some(),
        message_count,
        extensions.is_some(),
        extension_count,
    ) {
        Some(e) => return Err(e),
        None => {},
    }
    let c = match config {
        Some(c) => c,
        None => return Err(String::from_str("Configuration is null")),
    };
    let provider = match read_config_string(&c.provider, "Invalid provider: ") {
        Ok(s) => s,
        Err(e) => return Err(e),
    };
    let model_name = match read_config_string(&c.model_name, "Invalid model name: ") {
        Ok(s) => s,
        Err(e) => return Err(e),
    };
    let system_preamble = match read_config_string(&c.system_preamble, "Invalid system preamble: ") {
        Ok(s) => s,
        Err(e) => return Err(e),
    };
    let empty_messages: Vec<GooseFfi2Message> = Vec::new();
    let message_list = match messages {
        Some(v) => v,
        None => &empty_messages,
    };
    assert(message_list@.map_values(|m: GooseFfi2Message| m@) =~= items_or_none(
        match messages {
            Some(v) => Some(v@.map_values(|m: GooseFfi2Message| m@)),
            None => None,
        },
    ));
    let msgs = match read_message_list(message_list) {
        Ok(v) => v,
        Err(e) => return Err(e),
    };
    let empty_extensions: Vec<GooseFfi2Extension> = Vec::new();
    let extension_list = match extensions {
        Some(v) => v,
        None => &empty_extensions,
    };
    assert(extension_list@.map_values(|e: GooseFfi2Extension| e@) =~= items_or_none(
        match extensions {
            Some(v) => Some(v@.map_values(|e: GooseFfi2Extension| e@)),
            None => None,
        },
    ));
    let exts = match read_extension_list(extension_list) {
        Ok(v) => v,
        Err(e) => return Err(e),
    };
    Ok(
        CompletionRequest {
            provider,
            model_name,
            system_preamble,
            messages: msgs,
            extensions: exts,
        },
    )
}

/// What a C call hands back: success with its data, or failure with its error.
pub struct GooseFfi2Result {
    pub success: bool,
    pub data: Option<String>,
    pub error: Option<String>,
}

impl GooseFfi2Result {
    /// Data comes exactly with success, and an error exactly with failure.
    pub open spec fn well_formed(&self) -> bool {
        &&& self.success <==> self.data is Some
        &&& self.success <==> self.error is None
    }
}

/// A failed call with `message` as its error.
pub fn error_result(message: String) -> (r: GooseFfi2Result)
    ensures
        r.well_formed(),
        !r.success,
        r.error matches Some(e) && e@ == message@,
{
    GooseFfi2Result { success: false, data: None, error: Some(message) }
}

/// How a completion ended once it was started: its response serialized as JSON,
/// a response that could not be serialized, or a failed completion.
pub enum CompletionOutcome {
    Serialized(String),
    SerializationFailed(String),
    CompletionFailed(String),
}

/// What a completion that ended with `outcome` hands back.
pub open spec fn spec_completion_result(outcome: CompletionOutcome) -> (bool, Option<Seq<char>>, Option<Seq<char>>) {
    match outcome {
        CompletionOutcome::Serialized(json) => (true, Some(json@), None),
        CompletionOutcome::SerializationFailed(e) => (
            false,
            None,
            Some("Failed to serialize response: "@ + e@),
        ),
        CompletionOutcome::CompletionFailed(e) => (false, None, Some("Completion error: "@ + e@)),
    }
}

pub fn completion_result(outcome: CompletionOutcome) -> (r: GooseFfi2Result)
    ensures
        r.well_formed(),
        (r.success, r.data.deep_view(), r.error.deep_view()) == spec_completion_result(outcome),
{
    match outcome {
        CompletionOutcome::Serialized(json) => GooseFfi2Result {
            success: true,
            data: Some(json),
            error: None,
        },
        CompletionOutcome::SerializationFailed(e) => error_result(
            add_context("Failed to serialize response: ", e),
        ),
        CompletionOutcome::CompletionFailed(e) => error_result(add_context("Completion error: ", e)),
    }
}

/// The version of this package, as its manifest gives it.
pub const PACKAGE_VERSION: &'static str = "0.1.0";

/// The text the C side gets as the library's version.
pub fn version_text(package_version: &str) -> (r: String)
    ensures
        r@ == "goose-ffi2 version "@ + package_version@,
{
    let mut r = String::from_str("goose-ffi2 version ");
    r.append(package_version);
    r
}

} // verus!
