use vstd::prelude::*;

verus! {

/// The chat-completions endpoint that the request body is sent to.
pub const CHAT_COMPLETIONS_URL: &'static str = "https://api.openai.com/v1/chat/completions";

/// The text before the model name in a request body.
pub open spec fn body_head() -> Seq<char> {
    "{\n            \"model\": \""@
}

/// The text between the model name and the system prompt.
pub open spec fn body_after_model() -> Seq<char> {
    "\",\n            \"messages\": [\n                {\"role\": \"system\", \"content\": \""@
}

/// The text between the system prompt and the user's task.
pub open spec fn body_after_system() -> Seq<char> {
    "\"},\n                {\"role\": \"user\", \"content\": \""@
}

/// The text after the user's task.
pub open spec fn body_tail() -> Seq<char> {
    "\"}\n            ]\n        }"@
}

/// The chat-completions request: the three texts are placed, as they are,
/// into a fixed JSON template with a system message and a user message.
pub open spec fn request_text(model: Seq<char>, system_prompt: Seq<char>, user_task: Seq<char>) -> Seq<
    char,
> {
    body_head() + model + body_after_model() + system_prompt + body_after_system() + user_task
        + body_tail()
}

/// Builds the body of a chat-completions request for `model`, with
/// `system_prompt` as the system message and `user_task` as the user message.
pub fn request_body(model: &str, system_prompt: &str, user_task: &str) -> (r: String)
    ensures
        r@ == request_text(model@, system_prompt@, user_task@),
{
    let mut body = String::from_str("{\n            \"model\": \"");
    body.append(model);
    body.append("\",\n            \"messages\": [\n                {\"role\": \"system\", \"content\": \"");
    body.append(system_prompt);
    body.append("\"},\n                {\"role\": \"user\", \"content\": \"");
    body.append(user_task);
    body.append("\"}\n            ]\n        }");
    body
}

/// The value of the `Authorization` header that carries `api_key`.
pub fn bearer(api_key: &str) -> (r: String)
    ensures
        r@ == "Bearer "@ + api_key@,
{
    let mut value = String::from_str("Bearer ");
    value.append(api_key);
    value
}

} // verus!
