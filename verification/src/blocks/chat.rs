//! What a chat block decides when it runs: which model it asks and how, and
//! what the code of the block gave as messages and functions.

use vstd::prelude::*;
use vstd::string::*;

verus! {

/// What a configuration or an object holds under a key.
#[derive(Debug)]
pub enum ConfigValue {
    Missing,
    Text(String),
    Bool(bool),
    /// Anything else.
    Other,
}

/// What the configuration of a chat block holds under the keys that the
/// block reads.
#[derive(Debug)]
pub struct BlockConfig {
    pub provider_id: ConfigValue,
    pub model_id: ConfigValue,
    pub use_cache: ConfigValue,
    pub use_stream: ConfigValue,
    pub openai_user: ConfigValue,
}

/// How a chat block asks its model.
#[derive(Debug)]
pub struct ChatConfig {
    pub provider_id: String,
    pub model_id: String,
    pub use_cache: bool,
    pub use_stream: bool,
    /// The user to name to the provider.
    pub openai_user: Option<String>,
}

#[derive(Clone, Copy, PartialEq, Eq, Structural, Debug)]
pub enum ChatError {
    MissingConfiguration,
    MissingProviderId,
    /// The provider is not given as a text.
    InvalidProviderId,
    MissingModelId,
    /// The model is not given as a text.
    InvalidModelId,
    /// The code did not give a list of messages, each an object with a role
    /// and a content.
    InvalidMessages,
    /// A message has a role that is none.
    InvalidRole,
    /// The code did not give a list of functions, each an object with a
    /// name, a description and parameters.
    InvalidFunctions,
}

/// The cache is used unless the configuration says no.
pub open spec fn use_cache_spec(value: ConfigValue) -> bool {
    match value {
        ConfigValue::Bool(b) => b,
        _ => true,
    }
}

/// The answer is streamed only to a listener, and only where the
/// configuration asks for it: by `true`, or by anything that is no truth
/// value.
pub open spec fn use_stream_spec(value: ConfigValue, has_listener: bool) -> bool {
    has_listener && match value {
        ConfigValue::Bool(b) => b,
        ConfigValue::Missing => false,
        _ => true,
    }
}

pub open spec fn text_of(value: ConfigValue) -> Option<Seq<char>> {
    match value {
        ConfigValue::Text(text) => Some(text@),
        _ => None,
    }
}

pub struct ChatConfigView {
    pub provider_id: Seq<char>,
    pub model_id: Seq<char>,
    pub use_cache: bool,
    pub use_stream: bool,
    pub openai_user: Option<Seq<char>>,
}

/// How a chat block asks its model, or what its configuration lacks. The
/// provider is looked at before the model.
pub open spec fn chat_config_spec(config: Option<BlockConfig>, has_listener: bool) -> Result<
    ChatConfigView,
    ChatError,
> {
    match config {
        None => Err(ChatError::MissingConfiguration),
        Some(config) => match config.provider_id {
            ConfigValue::Missing => Err(ChatError::MissingProviderId),
            ConfigValue::Text(provider_id) => match config.model_id {
                ConfigValue::Missing => Err(ChatError::MissingModelId),
                ConfigValue::Text(model_id) => Ok(
                    ChatConfigView {
                        provider_id: provider_id@,
                        model_id: model_id@,
                        use_cache: use_cache_spec(config.use_cache),
                        use_stream: use_stream_spec(config.use_stream, has_listener),
                        openai_user: text_of(config.openai_user),
                    },
                ),
                _ => Err(ChatError::InvalidModelId),
            },
            _ => Err(ChatError::InvalidProviderId),
        },
    }
}

pub open spec fn chat_config_view(result: Result<ChatConfig, ChatError>) -> Result<
    ChatConfigView,
    ChatError,
> {
    match result {
        Ok(config) => Ok(
            ChatConfigView {
                provider_id: config.provider_id@,
                model_id: config.model_id@,
                use_cache: config.use_cache,
                use_stream: config.use_stream,
                openai_user: match config.openai_user {
                    Some(user) => Some(user@),
                    None => None,
                },
            },
        ),
        Err(e) => Err(e),
    }
}

/// Reads how a chat block asks its model from its configuration.
pub fn chat_config(config: Option<BlockConfig>, has_listener: bool) -> (result: Result<
    ChatConfig,
    ChatError,
>)
    ensures
        chat_config_view(result) == chat_config_spec(config, has_listener),
{
    let config = match config {
        Some(config) => config,
        None => {
            return Err(ChatError::MissingConfiguration);
        },
    };
    let provider_id = match config.provider_id {
        ConfigValue::Text(provider_id) => provider_id,
        ConfigValue::Missing => {
            return Err(ChatError::MissingProviderId);
        },
        _ => {
            return Err(ChatError::InvalidProviderId);
        },
    };
    let model_id = match config.model_id {
        ConfigValue::Text(model_id) => model_id,
        ConfigValue::Missing => {
            return Err(ChatError::MissingModelId);
        },
        _ => {
            return Err(ChatError::InvalidModelId);
        },
    };
    let use_cache = match config.use_cache {
        ConfigValue::Bool(b) => b,
        _ => true,
    };
    let asked = match config.use_stream {
        ConfigValue::Bool(b) => b,
        ConfigValue::Missing => false,
        _ => true,
    };
    let openai_user = match config.openai_user {
        ConfigValue::Text(user) => Some(user),
        _ => None,
    };
    Ok(ChatConfig { provider_id, model_id, use_cache, use_stream: has_listener && asked, openai_user })
}

#[derive(Clone, Copy, PartialEq, Eq, Structural, Debug)]
pub enum ChatMessageRole {
    Assistant,
    Function,
    System,
    User,
}

impl ChatMessageRole {
    pub open spec fn name(self) -> Seq<char> {
        match self {
            ChatMessageRole::Assistant => "assistant"@,
            ChatMessageRole::Function => "function"@,
            ChatMessageRole::System => "system"@,
            ChatMessageRole::User => "user"@,
        }
    }

    /// The role that a text names, if it names one.
    pub open spec fn named(text: Seq<char>) -> Option<ChatMessageRole> {
        if text == "assistant"@ {
            Some(ChatMessageRole::Assistant)
        } else if text == "function"@ {
            Some(ChatMessageRole::Function)
        } else if text == "system"@ {
            Some(ChatMessageRole::System)
        } else if text == "user"@ {
            Some(ChatMessageRole::User)
        } else {
            None
        }
    }

    pub fn to_string(&self) -> (name: String)
        ensures
            name@ == self.name(),
    {
        match self {
            ChatMessageRole::Assistant => "assistant".to_owned(),
            ChatMessageRole::Function => "function".to_owned(),
            ChatMessageRole::System => "system".to_owned(),
            ChatMessageRole::User => "user".to_owned(),
        }
    }

    /// Reads a role from its name.
    pub fn from_str(text: &str) -> (role: Option<ChatMessageRole>)
        ensures
            role == ChatMessageRole::named(text@),
    {
        let owned = text.to_owned();
        if owned == "assistant".to_owned() {
            Some(ChatMessageRole::Assistant)
        } else if owned == "function".to_owned() {
            Some(ChatMessageRole::Function)
        } else if owned == "system".to_owned() {
            Some(ChatMessageRole::System)
        } else if owned == "user".to_owned() {
            Some(ChatMessageRole::User)
        } else {
            None
        }
    }
}

/// A message of a chat.
#[derive(Debug)]
pub struct ChatMessage {
    pub role: ChatMessageRole,
    pub name: Option<String>,
    pub content: Option<String>,
}

/// A value that the code gave in place of a message: whether it is an
/// object, and what it holds under the keys of a message.
#[derive(Debug)]
pub struct MessageValue {
    pub is_object: bool,
    pub role: ConfigValue,
    pub content: ConfigValue,
    pub name: ConfigValue,
}

pub struct ChatMessageView {
    pub role: ChatMessageRole,
    pub name: Option<Seq<char>>,
    pub content: Option<Seq<char>>,
}

impl View for ChatMessage {
    type V = ChatMessageView;

    open spec fn view(&self) -> ChatMessageView {
        ChatMessageView {
            role: self.role,
            name: match self.name {
                Some(name) => Some(name@),
                None => None,
            },
            content: match self.content {
                Some(content) => Some(content@),
                None => None,
            },
        }
    }
}

/// The message that a value stands for: it must be an object whose role
/// and content are texts, and its role must be one. Its name counts only if
/// it is a text.
pub open spec fn chat_message_spec(value: MessageValue) -> Result<ChatMessageView, ChatError> {
    if !value.is_object {
        Err(ChatError::InvalidMessages)
    } else {
        match (value.role, value.content) {
            (ConfigValue::Text(role), ConfigValue::Text(content)) => match ChatMessageRole::named(
                role@,
            ) {
                Some(role) => Ok(
                    ChatMessageView { role, name: text_of(value.name), content: Some(content@) },
                ),
                None => Err(ChatError::InvalidRole),
            },
            _ => Err(ChatError::InvalidMessages),
        }
    }
}

pub open spec fn message_result_view(result: Result<ChatMessage, ChatError>) -> Result<
    ChatMessageView,
    ChatError,
> {
    match result {
        Ok(message) => Ok(message@),
        Err(e) => Err(e),
    }
}

/// Reads a message from the value that stands for it.
pub fn chat_message(value: MessageValue) -> (result: Result<ChatMessage, ChatError>)
    ensures
        message_result_view(result) == chat_message_spec(value),
{
    if !value.is_object {
        return Err(ChatError::InvalidMessages);
    }
    match (value.role, value.content) {
        (ConfigValue::Text(role), ConfigValue::Text(content)) => {
            match ChatMessageRole::from_str(role.as_str()) {
                Some(role) => {
                    let name = match value.name {
                        ConfigValue::Text(name) => Some(name),
                        _ => None,
                    };
                    Ok(ChatMessage { role, name, content: Some(content) })
                },
                None => Err(ChatError::InvalidRole),
            }
        },
        _ => Err(ChatError::InvalidMessages),
    }
}

/// The messages that the values stand for, or the failure of the first
/// value that stands for none.
pub open spec fn chat_messages_spec(values: Seq<MessageValue>) -> Result<
    Seq<ChatMessageView>,
    ChatError,
>
    decreases values.len(),
{
    if values.len() == 0 {
        Ok(Seq::empty())
    } else {
        match chat_messages_spec(values.drop_last()) {
            Err(e) => Err(e),
            Ok(messages) => match chat_message_spec(values.last()) {
                Ok(message) => Ok(messages.push(message)),
                Err(e) => Err(e),
            },
        }
    }
}

pub open spec fn messages_view(messages: Seq<ChatMessage>) -> Seq<ChatMessageView> {
    messages.map_values(|message: ChatMessage| message@)
}

pub open spec fn messages_result_view(result: Result<Vec<ChatMessage>, ChatError>) -> Result<
    Seq<ChatMessageView>,
    ChatError,
> {
    match result {
        Ok(messages) => Ok(messages_view(messages@)),
        Err(e) => Err(e),
    }
}

proof fn lemma_messages_failure_stays(values: Seq<MessageValue>, n: int)
    requires
        0 <= n <= values.len(),
        chat_messages_spec(values.take(n)) is Err,
    ensures
        chat_messages_spec(values) == chat_messages_spec(values.take(n)),
    decreases values.len(),
{
    if n == values.len() {
        assert(values.take(n) =~= values);
    } else {
        assert(values.drop_last().take(n) =~= values.take(n));
        lemma_messages_failure_stays(values.drop_last(), n);
    }
}

/// Reads the messages of a chat from what the code gave: a list, where it
/// gave one.
pub fn chat_messages(output: Option<Vec<MessageValue>>) -> (result: Result<
    Vec<ChatMessage>,
    ChatError,
>)
    ensures
        messages_result_view(result) == match output {
            Some(values) => chat_messages_spec(values@),
            None => Err(ChatError::InvalidMessages),
        },
{
    let values = match output {
        Some(values) => values,
        None => {
            return Err(ChatError::InvalidMessages);
        },
    };
    let ghost all = values@;
    let mut rest = values;
    let mut reversed: Vec<MessageValue> = Vec::new();
    while rest.len() > 0
        invariant
            rest@.len() + reversed@.len() == all.len(),
            rest@ == all.take(rest@.len() as int),
            forall|k: int| 0 <= k < reversed@.len() ==> (#[trigger] reversed@[k]) == all[all.len() - 1 - k],
        decreases rest@.len(),
    {
        let ghost before = rest@;
        let value = rest.pop().unwrap();
        assert(value == all[before.len() - 1]);
        assert(rest@ =~= all.take(rest@.len() as int));
        reversed.push(value);
    }
    let ghost backwards = reversed@;
    let mut messages: Vec<ChatMessage> = Vec::new();
    assert(all.take(0) =~= Seq::<MessageValue>::empty());
    assert(messages_view(messages@) =~= Seq::<ChatMessageView>::empty());
    while reversed.len() > 0
        invariant
            output is Some,
            all == output->Some_0@,
            backwards.len() == all.len(),
            reversed@.len() + messages@.len() == all.len(),
            reversed@ == backwards.take(reversed@.len() as int),
            forall|k: int| 0 <= k < backwards.len() ==> (#[trigger] backwards[k]) == all[all.len() - 1 - k],
            chat_messages_spec(all.take(messages@.len() as int)) == Ok::<
                Seq<ChatMessageView>,
                ChatError,
            >(messages_view(messages@)),
        decreases reversed@.len(),
    {
        let ghost before = reversed@;
        let ghost done = messages@.len() as int;
        let ghost sofar = messages_view(messages@);
        let value = reversed.pop().unwrap();
        proof {
            assert(value == backwards[before.len() - 1]);
            assert(reversed@ =~= backwards.take(reversed@.len() as int));
            assert(value == all[done]);
            assert(all.take(done + 1).drop_last() =~= all.take(done));
            assert(all.take(done + 1).last() == value);
        }
        match chat_message(value) {
            Ok(message) => {
                messages.push(message);
                assert(messages_view(messages@) =~= sofar.push(message@));
            },
            Err(e) => {
                proof {
                    assert(chat_messages_spec(all.take(done + 1)) == Err::<
                        Seq<ChatMessageView>,
                        ChatError,
                    >(e));
                    lemma_messages_failure_stays(all, done + 1);
                }
                return Err(e);
            },
        }
    }
    assert(all.take(messages@.len() as int) =~= all);
    Ok(messages)
}

/// The messages with the instructions before them as a message of the
/// system; without instructions, the messages as they are.
pub open spec fn with_instructions_spec(
    messages: Seq<ChatMessageView>,
    instructions: Seq<char>,
) -> Seq<ChatMessageView> {
    if instructions.len() > 0 {
        messages.insert(
            0,
            ChatMessageView { role: ChatMessageRole::System, name: None, content: Some(instructions) },
        )
    } else {
        messages
    }
}

/// Puts the instructions before the messages.
pub fn with_instructions(messages: Vec<ChatMessage>, instructions: String) -> (result: Vec<
    ChatMessage,
>)
    ensures
        messages_view(result@) == with_instructions_spec(messages_view(messages@), instructions@),
{
    let mut result = messages;
    if instructions.as_str().unicode_len() > 0 {
        let ghost before = messages_view(result@);
        let message = ChatMessage {
            role: ChatMessageRole::System,
            name: None,
            content: Some(instructions),
        };
        result.insert(0, message);
        assert(messages_view(result@) =~= before.insert(0, message@));
    }
    result
}

/// A function that a chat may call.
#[derive(Debug)]
pub struct ChatFunction {
    pub name: String,
    pub description: Option<String>,
    pub parameters: Option<serde_json::Value>,
}

/// A value that the code gave in place of a function: whether it is an
/// object, and what it holds under the keys of a function.
#[derive(Debug)]
pub struct FunctionValue {
    pub is_object: bool,
    pub name: ConfigValue,
    pub description: ConfigValue,
    pub parameters: Option<serde_json::Value>,
}

/// What the code gave in place of the functions.
#[derive(Debug)]
pub enum FunctionsOutput {
    /// Nothing.
    Null,
    /// A list.
    Items(Vec<FunctionValue>),
    /// Anything else.
    Other,
}

pub struct ChatFunctionView {
    pub name: Seq<char>,
    pub description: Option<Seq<char>>,
    pub parameters: Option<serde_json::Value>,
}

impl View for ChatFunction {
    type V = ChatFunctionView;

    open spec fn view(&self) -> ChatFunctionView {
        ChatFunctionView {
            name: self.name@,
            description: match self.description {
                Some(description) => Some(description@),
                None => None,
            },
            parameters: self.parameters,
        }
    }
}

/// The function that a value stands for: it must be an object with a name
/// and a description that are texts, and with parameters.
pub open spec fn chat_function_spec(value: FunctionValue) -> Result<ChatFunctionView, ChatError> {
    if !value.is_object {
        Err(ChatError::InvalidFunctions)
    } else {
        match (value.name, value.description, value.parameters) {
            (ConfigValue::Text(name), ConfigValue::Text(description), Some(parameters)) => Ok(
                ChatFunctionView {
                    name: name@,
                    description: Some(description@),
                    parameters: Some(parameters),
                },
            ),
            _ => Err(ChatError::InvalidFunctions),
        }
    }
}

pub open spec fn function_result_view(result: Result<ChatFunction, ChatError>) -> Result<
    ChatFunctionView,
    ChatError,
> {
    match result {
        Ok(function) => Ok(function@),
        Err(e) => Err(e),
    }
}

/// Reads a function from the value that stands for it.
pub fn chat_function(value: FunctionValue) -> (result: Result<ChatFunction, ChatError>)
    ensures
        function_result_view(result) == chat_function_spec(value),
{
    if !value.is_object {
        return Err(ChatError::InvalidFunctions);
    }
    match (value.name, value.description, value.parameters) {
        (ConfigValue::Text(name), ConfigValue::Text(description), Some(parameters)) => Ok(
            ChatFunction { name, description: Some(description), parameters: Some(parameters) },
        ),
        _ => Err(ChatError::InvalidFunctions),
    }
}

/// Every value stands for a function.
pub open spec fn all_functions(values: Seq<FunctionValue>) -> bool {
    forall|i: int| 0 <= i < values.len() ==> chat_function_spec(#[trigger] values[i]) is Ok
}

pub open spec fn functions_view(functions: Seq<ChatFunction>) -> Seq<ChatFunctionView> {
    functions.map_values(|function: ChatFunction| function@)
}

/// Reads the functions of a chat from what the code gave: none where it
/// gave nothing, and each function of the list where it gave a list of
/// functions. Anything else is refused.
pub fn chat_functions(output: FunctionsOutput) -> (result: Result<Vec<ChatFunction>, ChatError>)
    ensures
        match output {
            FunctionsOutput::Null => result is Ok && result->Ok_0@.len() == 0,
            FunctionsOutput::Other => result == Err::<Vec<ChatFunction>, ChatError>(
                ChatError::InvalidFunctions,
            ),
            FunctionsOutput::Items(values) => if all_functions(values@) {
                &&& result is Ok
                &&& result->Ok_0@.len() == values@.len()
                &&& forall|i: int|
                    0 <= i < values@.len() ==> Ok::<ChatFunctionView, ChatError>(
                        (#[trigger] result->Ok_0@[i])@,
                    ) == chat_function_spec(values@[i])
            } else {
                result == Err::<Vec<ChatFunction>, ChatError>(ChatError::InvalidFunctions)
            },
        },
{
    let values = match output {
        FunctionsOutput::Null => {
            return Ok(Vec::new());
        },
        FunctionsOutput::Other => {
            return Err(ChatError::InvalidFunctions);
        },
        FunctionsOutput::Items(values) => values,
    };
    let ghost all = values@;
    let mut rest = values;
    let mut reversed: Vec<ChatFunction> = Vec::new();
    while rest.len() > 0
        invariant
            output is Items,
            output->Items_0@ == all,
            rest@.len() + reversed@.len() == all.len(),
            rest@ == all.take(rest@.len() as int),
            forall|k: int|
                0 <= k < reversed@.len() ==> Ok::<ChatFunctionView, ChatError>(
                    (#[trigger] reversed@[k])@,
                ) == chat_function_spec(all[all.len() - 1 - k]),
        decreases rest@.len(),
    {
        let ghost before = rest@;
        let value = rest.pop().unwrap();
        assert(value == all[before.len() - 1]);
        assert(rest@ =~= all.take(rest@.len() as int));
        match chat_function(value) {
            Ok(function) => {
                reversed.push(function);
            },
            Err(e) => {
                assert(chat_function_spec(all[before.len() - 1]) is Err);
                assert(!all_functions(all));
                return Err(ChatError::InvalidFunctions);
            },
        }
    }
    proof {
        assert forall|i: int| 0 <= i < all.len() implies chat_function_spec(
            #[trigger] all[i],
        ) is Ok by {
            let k = all.len() - 1 - i;
            assert(Ok::<ChatFunctionView, ChatError>(reversed@[k]@) == chat_function_spec(all[i]));
        }
    }
    let ghost backwards = reversed@;
    let mut functions: Vec<ChatFunction> = Vec::new();
    while reversed.len() > 0
        invariant
            backwards.len() == all.len(),
            reversed@.len() + functions@.len() == all.len(),
            reversed@ == backwards.take(reversed@.len() as int),
            forall|k: int| 0 <= k < functions@.len() ==> (#[trigger] functions@[k]) == backwards[all.len() - 1 - k],
        decreases reversed@.len(),
    {
        let ghost before = reversed@;
        let function = reversed.pop().unwrap();
        assert(function == backwards[before.len() - 1]);
        assert(reversed@ =~= backwards.take(reversed@.len() as int));
        functions.push(function);
    }
    Ok(functions)
}

} // verus!
