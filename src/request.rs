//! Chat completion requests and the text they carry.

use vstd::prelude::*;
use crate::text::{copy_string, opt_view, text_eq};

verus! {

/// A single message of a chat.
#[derive(Debug, Clone)]
pub struct Message {
    /// Role: system, user or assistant.
    pub role: String,
    /// Message content.
    pub content: String,
}

/// Chat completion request; the text may come in any of several fields.
#[derive(Debug, Clone)]
pub struct ChatCompletionRequest {
    /// Chat messages.
    pub messages: Option<Vec<Message>>,
    /// A raw prompt.
    pub prompt: Option<String>,
    /// An input field.
    pub input: Option<String>,
    /// A text field.
    pub text: Option<String>,
}

/// Content of the last message whose role is `user`.
pub open spec fn last_user_content(ms: Seq<Message>) -> Option<Seq<char>>
    decreases ms.len(),
{
    if ms.len() == 0 {
        None
    } else if ms.last().role@ == "user"@ {
        Some(ms.last().content@)
    } else {
        last_user_content(ms.drop_last())
    }
}

/// The field's text when it is present and not empty.
pub open spec fn non_empty(s: Option<String>) -> Option<Seq<char>> {
    match opt_view(s) {
        Some(t) => if t.len() > 0 { Some(t) } else { None },
        None => None,
    }
}

impl ChatCompletionRequest {
    /// The text to process: the last user message; else the first non-empty
    /// of `prompt`, `input` and `text`. Other roles are never taken.
    pub open spec fn user_content(&self) -> Option<Seq<char>> {
        let from_messages = match self.messages {
            Some(ms) => last_user_content(ms@),
            None => None,
        };
        if from_messages is Some {
            from_messages
        } else if non_empty(self.prompt) is Some {
            non_empty(self.prompt)
        } else if non_empty(self.input) is Some {
            non_empty(self.input)
        } else {
            non_empty(self.text)
        }
    }

    /// Extracts the text to process from the request.
    pub fn extract_user_content(&self) -> (r: Option<String>)
        ensures
            opt_view(r) == self.user_content(),
    {
        if let Some(messages) = &self.messages {
            let mut i: usize = messages.len();
            assert(messages@.subrange(0, i as int) =~= messages@);
            while i > 0
                invariant
                    i <= messages@.len(),
                    self.messages == Some(*messages),
                    last_user_content(messages@) == last_user_content(messages@.subrange(0, i as int)),
                decreases i,
            {
                assert(messages@.subrange(0, i as int).drop_last() =~= messages@.subrange(0, i - 1));
                assert(messages@.subrange(0, i as int).last() == messages@[i - 1]);
                if text_eq(messages[i - 1].role.as_str(), "user") {
                    let c = copy_string(&messages[i - 1].content);
                    assert(last_user_content(messages@.subrange(0, i as int)) == Some(c@));
                    return Some(c);
                }
                i = i - 1;
            }
        }
        if let Some(p) = &self.prompt {
            if !p.as_str().is_empty() {
                return Some(copy_string(p));
            }
        }
        if let Some(t) = &self.input {
            if !t.as_str().is_empty() {
                return Some(copy_string(t));
            }
        }
        if let Some(t) = &self.text {
            if !t.as_str().is_empty() {
                return Some(copy_string(t));
            }
        }
        None
    }
}

} // verus!
