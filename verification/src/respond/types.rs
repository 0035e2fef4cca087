//! Requests and responses.
use vstd::prelude::*;
use vstd::string::*;

use crate::text;

verus! {

/// What a request is for.
#[derive(Debug, Clone, Copy, PartialEq, Eq, Structural)]
pub enum RespondPurpose {
    Chat,
    MemoryDraft,
    TodoParse,
    Compact,
}

impl Default for RespondPurpose {
    fn default() -> (r: Self)
        ensures
            r == RespondPurpose::Chat,
    {
        RespondPurpose::Chat
    }
}

/// One part of a message, in the order of the message.
#[derive(Debug)]
pub enum MessageInputPart {
    Text { text: String },
    /// An image or another attachment, by its address.
    Media { url: String },
}

impl Clone for MessageInputPart {
    fn clone(&self) -> (r: Self)
        ensures
            r == *self,
    {
        match self {
            MessageInputPart::Text { text } => MessageInputPart::Text { text: text.clone() },
            MessageInputPart::Media { url } => MessageInputPart::Media { url: url.clone() },
        }
    }
}

impl MessageInputPart {
    pub fn is_non_text(&self) -> (r: bool)
        ensures
            r == (self is Media),
    {
        match self {
            MessageInputPart::Text { .. } => false,
            MessageInputPart::Media { .. } => true,
        }
    }
}

/// A message as it comes in.
#[derive(Debug)]
pub struct RespondRequest {
    pub session_id: String,
    pub model: Option<String>,
    pub max_output_tokens: Option<u64>,
    pub purpose: RespondPurpose,
    /// The user's words; they go before `content`.
    pub user_text: String,
    pub content: String,
    pub input_parts: Vec<MessageInputPart>,
    pub scope_key: String,
    pub user_id: Option<String>,
    /// The role of the sender in a group; without one nothing of the group can be managed.
    pub group_member_role: Option<String>,
    pub group_id: Option<String>,
    pub guild_id: Option<String>,
    pub channel_id: Option<String>,
    pub message_id: Option<String>,
    pub timestamp: Option<String>,
    pub platform: String,
    pub account_id: Option<String>,
    pub event_type: String,
    pub system_prompts: Vec<String>,
    pub memory_context: String,
    pub knowledge_context: String,
    pub session_context: String,
}

impl RespondRequest {
    /// The words of the user: `user_text`, or `content` where that is blank.
    pub open spec fn user_words(self) -> Seq<char> {
        if text::blank(self.user_text@) {
            self.content@
        } else {
            self.user_text@
        }
    }

    /// Whether any part of the message is no text.
    pub open spec fn holds_other_than_text(self) -> bool {
        exists|i: int| 0 <= i < self.input_parts@.len() && (#[trigger] self.input_parts@[i]) is Media
    }

    pub fn effective_user_text(&self) -> (r: String)
        ensures
            r@ == self.user_words(),
    {
        if !text::is_blank(self.user_text.as_str()) {
            return self.user_text.clone();
        }
        self.content.clone()
    }

    /// The parts of the message; a message without parts has its words as the only one.
    pub fn effective_input_parts(&self) -> (r: Vec<MessageInputPart>)
        ensures
            self.input_parts@.len() > 0 ==> r@ == self.input_parts@,
            self.input_parts@.len() == 0 && text::blank(self.user_words()) ==> r@.len() == 0,
            self.input_parts@.len() == 0 && !text::blank(self.user_words()) ==> r@.len() == 1 && (
            r@[0] matches MessageInputPart::Text { text } && text@ == self.user_words()),
    {
        let mut out: Vec<MessageInputPart> = Vec::new();
        if self.input_parts.len() > 0 {
            let mut i: usize = 0;
            while i < self.input_parts.len()
                invariant
                    0 <= i <= self.input_parts@.len(),
                    out@ == self.input_parts@.take(i as int),
                decreases self.input_parts@.len() - i,
            {
                out.push(self.input_parts[i].clone());
                i += 1;
                assert(out@ =~= self.input_parts@.take(i as int));
            }
            assert(out@ =~= self.input_parts@);
            return out;
        }
        let words = self.effective_user_text();
        if !text::is_blank(words.as_str()) {
            out.push(MessageInputPart::Text { text: words });
        }
        out
    }

    pub fn has_non_text_input_parts(&self) -> (r: bool)
        ensures
            r == self.holds_other_than_text(),
    {
        let mut i: usize = 0;
        while i < self.input_parts.len()
            invariant
                0 <= i <= self.input_parts@.len(),
                forall|k: int| 0 <= k < i ==> !((#[trigger] self.input_parts@[k]) is Media),
            decreases self.input_parts@.len() - i,
        {
            if self.input_parts[i].is_non_text() {
                assert(self.input_parts@[i as int] is Media);
                return true;
            }
            i += 1;
        }
        false
    }

    /// Whether the request is a message of a conversation.
    pub fn is_standard_message(&self) -> (r: bool)
        ensures
            r == (!text::blank(self.scope_key@) || !text::blank(self.content@)),
    {
        !text::is_blank(self.scope_key.as_str()) || !text::is_blank(self.content.as_str())
    }
}

impl Default for RespondRequest {
    fn default() -> (r: Self)
        ensures
            r.session_id@.len() == 0,
            r.model is None,
            r.max_output_tokens is None,
            r.purpose == RespondPurpose::Chat,
            r.user_text@.len() == 0,
            r.content@.len() == 0,
            r.input_parts@.len() == 0,
            r.scope_key@.len() == 0,
            r.user_id is None,
            r.group_member_role is None,
            r.group_id is None,
            r.guild_id is None,
            r.channel_id is None,
            r.message_id is None,
            r.timestamp is None,
            r.platform@.len() == 0,
            r.account_id is None,
            r.event_type@.len() == 0,
            r.system_prompts@.len() == 0,
            r.memory_context@.len() == 0,
            r.knowledge_context@.len() == 0,
            r.session_context@.len() == 0,
    {
        RespondRequest {
            session_id: String::new(),
            model: None,
            max_output_tokens: None,
            purpose: RespondPurpose::Chat,
            user_text: String::new(),
            content: String::new(),
            input_parts: Vec::new(),
            scope_key: String::new(),
            user_id: None,
            group_member_role: None,
            group_id: None,
            guild_id: None,
            channel_id: None,
            message_id: None,
            timestamp: None,
            platform: String::new(),
            account_id: None,
            event_type: String::new(),
            system_prompts: Vec::new(),
            memory_context: String::new(),
            knowledge_context: String::new(),
            session_context: String::new(),
        }
    }
}

/// How a model call went.
#[derive(Debug)]
pub struct LlmMetrics {
    pub provider: String,
    pub model: String,
    pub stream: bool,
    pub ttfe_ms: Option<u64>,
    pub ttft_ms: Option<u64>,
    pub total_latency_ms: u64,
}

#[derive(Debug, Clone, Copy, PartialEq, Eq, Structural)]
pub struct TokenUsage {
    pub input_tokens: Option<u64>,
    pub cached_input_tokens: Option<u64>,
    pub output_tokens: Option<u64>,
    pub total_tokens: Option<u64>,
}

#[derive(Debug)]
pub struct ErrorInfo {
    pub code: String,
    pub message: String,
    pub stage: String,
}

/// What a model returned.
#[derive(Debug)]
pub struct ChatResponse {
    pub ok: bool,
    pub reply: Option<String>,
    pub metrics: LlmMetrics,
    pub usage: Option<TokenUsage>,
    pub error: Option<ErrorInfo>,
}

/// What the user gets.
#[derive(Debug)]
pub struct RespondResponse {
    pub ok: bool,
    pub text: Option<String>,
    pub markdown: Option<String>,
    pub handled: Option<bool>,
    pub session_id: Option<String>,
    pub command: Option<String>,
    pub diagnostics: Option<String>,
    pub metrics: LlmMetrics,
    pub usage: Option<TokenUsage>,
    pub error: Option<ErrorInfo>,
}

impl ChatResponse {
    pub fn ok(reply: String, metrics: LlmMetrics, usage: Option<TokenUsage>) -> (r: Self)
        ensures
            r == (ChatResponse { ok: true, reply: Some(reply), metrics, usage, error: None }),
    {
        ChatResponse { ok: true, reply: Some(reply), metrics, usage, error: None }
    }

    pub fn error(metrics: LlmMetrics, error: ErrorInfo) -> (r: Self)
        ensures
            r == (ChatResponse { ok: false, reply: None, metrics, usage: None, error: Some(error) }),
    {
        ChatResponse { ok: false, reply: None, metrics, usage: None, error: Some(error) }
    }
}

impl RespondResponse {
    pub fn from_chat(chat: ChatResponse, text: Option<String>, markdown: Option<String>) -> (r: Self)
        ensures
            r == (RespondResponse {
                ok: chat.ok,
                text,
                markdown,
                handled: Some(chat.ok),
                session_id: None,
                command: None,
                diagnostics: None,
                metrics: chat.metrics,
                usage: chat.usage,
                error: chat.error,
            }),
    {
        RespondResponse {
            ok: chat.ok,
            text,
            markdown,
            handled: Some(chat.ok),
            session_id: None,
            command: None,
            diagnostics: None,
            metrics: chat.metrics,
            usage: chat.usage,
            error: chat.error,
        }
    }
}

} // verus!
