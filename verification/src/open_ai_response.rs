use vstd::prelude::*;

verus! {

/// The annotation the endpoint may attach to a choice. The pipeline carries
/// it through without reading it.
#[verifier::external_type_specification]
#[verifier::external_body]
pub struct ExValue(serde_json::Value);

/// The chat-completion envelope that the endpoint answers with.
#[derive(Debug)]
pub struct OpenAIResponse {
    pub id: String,
    pub object: String,
    pub created: u64,
    pub model: String,
    pub choices: Vec<Choice>,
    pub usage: Usage,
    pub system_fingerprint: String,
}

/// One returned choice.
#[derive(Debug)]
pub struct Choice {
    pub index: u32,
    pub message: Message,
    pub logprobs: Option<serde_json::Value>,
    pub finish_reason: String,
}

/// One returned message.
#[derive(Debug)]
pub struct Message {
    pub role: String,
    pub content: String,
}

/// Token accounting for the call.
#[derive(Debug)]
pub struct Usage {
    pub prompt_tokens: u32,
    pub completion_tokens: u32,
    pub total_tokens: u32,
}

/// The reply text of the first returned choice; nothing exactly when the
/// reply holds no choices at all.
pub fn get_first_message_content(response: &OpenAIResponse) -> (r: Option<&String>)
    ensures
        match r {
            Some(s) => response.choices@.len() > 0 && s@ == response.choices@[0].message.content@,
            None => response.choices@.len() == 0,
        },
{
    if response.choices.len() > 0 {
        Some(&response.choices[0].message.content)
    } else {
        None
    }
}

} // verus!
