//! The request and response shapes exchanged with the remote API.
//!
//! Each executable type has a mathematical view, a struct of sequences and
//! naturals, which the JSON contracts in the rest of the crate speak of.
//! The sampling temperature is held in tenths as an unsigned integer, so
//! that a value such as one point zero is represented exactly; its JSON
//! rendering carries one fractional digit.

use vstd::prelude::*;

verus! {

/// One role-tagged entry of a conversation.
#[derive(Debug, Clone, PartialEq, Eq)]
pub struct Message {
    pub role: String,
    pub content: String,
}

/// The mathematical value of a [`Message`].
pub struct MessageView {
    pub role: Seq<char>,
    pub content: Seq<char>,
}

impl View for Message {
    type V = MessageView;

    open spec fn view(&self) -> MessageView {
        MessageView { role: self.role@, content: self.content@ }
    }
}

/// The views of a message sequence.
pub open spec fn msgs_view(ms: Seq<Message>) -> Seq<MessageView> {
    ms.map_values(|m: Message| m@)
}

/// The outbound body of the chat-completion flow.
#[derive(Debug, Clone, PartialEq, Eq)]
pub struct ChatCompletion {
    pub model: String,
    pub messages: Vec<Message>,
    /// Sampling temperature, in tenths: a value of 10 renders as `1.0`.
    pub temperature_tenths: u32,
}

/// The mathematical value of a [`ChatCompletion`].
pub struct ChatCompletionView {
    pub model: Seq<char>,
    pub messages: Seq<MessageView>,
    pub temperature_tenths: nat,
}

impl View for ChatCompletion {
    type V = ChatCompletionView;

    open spec fn view(&self) -> ChatCompletionView {
        ChatCompletionView {
            model: self.model@,
            messages: msgs_view(self.messages@),
            temperature_tenths: self.temperature_tenths as nat,
        }
    }
}

/// The outbound body of the image-generation flow.
#[derive(Debug, Clone, PartialEq, Eq)]
pub struct ImgaeGen {
    pub model: String,
    pub prompt: String,
    pub n: u32,
    pub size: String,
}

/// The mathematical value of an [`ImgaeGen`].
pub struct ImgaeGenView {
    pub model: Seq<char>,
    pub prompt: Seq<char>,
    pub n: nat,
    pub size: Seq<char>,
}

impl View for ImgaeGen {
    type V = ImgaeGenView;

    open spec fn view(&self) -> ImgaeGenView {
        ImgaeGenView {
            model: self.model@,
            prompt: self.prompt@,
            n: self.n as nat,
            size: self.size@,
        }
    }
}

/// The message object inside one choice of a chat response.
#[derive(Debug, Clone, PartialEq, Eq)]
pub struct APIMessage {
    pub content: String,
}

/// The mathematical value of an [`APIMessage`].
pub struct APIMessageView {
    pub content: Seq<char>,
}

impl View for APIMessage {
    type V = APIMessageView;

    open spec fn view(&self) -> APIMessageView {
        APIMessageView { content: self.content@ }
    }
}

/// One candidate completion of a chat response.
#[derive(Debug, Clone, PartialEq, Eq)]
pub struct APIChoice {
    pub message: APIMessage,
}

/// The mathematical value of an [`APIChoice`].
pub struct APIChoiceView {
    pub message: APIMessageView,
}

impl View for APIChoice {
    type V = APIChoiceView;

    open spec fn view(&self) -> APIChoiceView {
        APIChoiceView { message: self.message@ }
    }
}

/// The views of a choice sequence.
pub open spec fn choices_view(cs: Seq<APIChoice>) -> Seq<APIChoiceView> {
    cs.map_values(|c: APIChoice| c@)
}

/// The inbound body of the chat-completion flow.
#[derive(Debug, Clone, PartialEq, Eq)]
pub struct APIResponse {
    pub choices: Vec<APIChoice>,
}

/// The mathematical value of an [`APIResponse`].
pub struct APIResponseView {
    pub choices: Seq<APIChoiceView>,
}

impl View for APIResponse {
    type V = APIResponseView;

    open spec fn view(&self) -> APIResponseView {
        APIResponseView { choices: choices_view(self.choices@) }
    }
}

/// One result of an image response.
#[derive(Debug, Clone, PartialEq, Eq)]
pub struct IMGData {
    pub revised_prompt: String,
    pub url: String,
}

/// The mathematical value of an [`IMGData`].
pub struct IMGDataView {
    pub revised_prompt: Seq<char>,
    pub url: Seq<char>,
}

impl View for IMGData {
    type V = IMGDataView;

    open spec fn view(&self) -> IMGDataView {
        IMGDataView { revised_prompt: self.revised_prompt@, url: self.url@ }
    }
}

/// The views of an image-result sequence.
pub open spec fn datas_view(ds: Seq<IMGData>) -> Seq<IMGDataView> {
    ds.map_values(|d: IMGData| d@)
}

/// The inbound body of the image-generation flow.
#[derive(Debug, Clone, PartialEq, Eq)]
pub struct IMGResponse {
    pub data: Vec<IMGData>,
}

/// The mathematical value of an [`IMGResponse`].
pub struct IMGResponseView {
    pub data: Seq<IMGDataView>,
}

impl View for IMGResponse {
    type V = IMGResponseView;

    open spec fn view(&self) -> IMGResponseView {
        IMGResponseView { data: datas_view(self.data@) }
    }
}

} // verus!
