//! The messages that pass between the module and the engine.

use vstd::prelude::*;

verus! {

/// Who sends a message: what the engine needs to accept it.
#[derive(Debug)]
pub struct Sender {
    pub auth_token: String,
    pub module_name: String,
    pub instance_uuid: String,
}

/// What a `Sender` holds.
pub struct SenderView {
    pub auth_token: Seq<char>,
    pub module_name: Seq<char>,
    pub instance_uuid: Seq<char>,
}

impl View for Sender {
    type V = SenderView;

    open spec fn view(&self) -> SenderView {
        SenderView {
            auth_token: self.auth_token@,
            module_name: self.module_name@,
            instance_uuid: self.instance_uuid@,
        }
    }
}

/// What kind of answer a prompt asks for.
#[derive(Debug, Clone, Copy, PartialEq, Eq, Structural)]
pub enum PromptKind {
    Boolean,
    String,
    Credential,
}

/// What kind of answer a prompt asks for, as the engine names it.
#[derive(Debug, Clone, Copy, PartialEq, Eq, Structural)]
pub enum PromptType {
    Boolean,
    String,
    Credential,
}

/// A question that the engine forwards to an operator.
#[derive(Debug)]
pub struct Prompt {
    pub prompt_id_uuid7: String,
    pub prompt: String,
    pub details: String,
    pub yes_dialog: String,
    pub no_dialog: String,
    pub timeout: u32,
    pub origin: String,
    pub origin_uuid7: String,
    pub instructions: String,
    pub link: String,
    pub input_label: String,
    pub prompt_type: PromptType,
}

/// What a `Prompt` holds.
pub struct PromptView {
    pub prompt_id_uuid7: Seq<char>,
    pub prompt: Seq<char>,
    pub details: Seq<char>,
    pub yes_dialog: Seq<char>,
    pub no_dialog: Seq<char>,
    pub timeout: u32,
    pub origin: Seq<char>,
    pub origin_uuid7: Seq<char>,
    pub instructions: Seq<char>,
    pub link: Seq<char>,
    pub input_label: Seq<char>,
    pub prompt_type: PromptType,
}

impl View for Prompt {
    type V = PromptView;

    open spec fn view(&self) -> PromptView {
        PromptView {
            prompt_id_uuid7: self.prompt_id_uuid7@,
            prompt: self.prompt@,
            details: self.details@,
            yes_dialog: self.yes_dialog@,
            no_dialog: self.no_dialog@,
            timeout: self.timeout,
            origin: self.origin@,
            origin_uuid7: self.origin_uuid7@,
            instructions: self.instructions@,
            link: self.link@,
            input_label: self.input_label@,
            prompt_type: self.prompt_type,
        }
    }
}

/// A query for the engine's database.
#[derive(Debug)]
pub struct DatabaseQuery {
    pub query_id: String,
    pub sql: String,
    pub params: Vec<String>,
}

/// What a `DatabaseQuery` holds.
pub struct DatabaseQueryView {
    pub query_id: Seq<char>,
    pub sql: Seq<char>,
    pub params: Seq<Seq<char>>,
}

impl View for DatabaseQuery {
    type V = DatabaseQueryView;

    open spec fn view(&self) -> DatabaseQueryView {
        DatabaseQueryView {
            query_id: self.query_id@,
            sql: self.sql@,
            params: self.params@.map_values(|p: String| p@),
        }
    }
}

/// What the module sends.
#[derive(Debug)]
pub enum Payload {
    Prompt(Prompt),
    DatabaseQuery(DatabaseQuery),
}

/// What a `Payload` holds.
pub enum PayloadView {
    Prompt(PromptView),
    DatabaseQuery(DatabaseQueryView),
}

impl View for Payload {
    type V = PayloadView;

    open spec fn view(&self) -> PayloadView {
        match *self {
            Payload::Prompt(p) => PayloadView::Prompt(p@),
            Payload::DatabaseQuery(q) => PayloadView::DatabaseQuery(q@),
        }
    }
}

/// A message to the engine.
#[derive(Debug)]
pub struct Container {
    pub version: u32,
    pub auth_token: String,
    pub module_name: String,
    pub module_instance_uuid7: String,
    pub payload: Payload,
}

/// What a `Container` holds.
pub struct ContainerView {
    pub version: u32,
    pub auth_token: Seq<char>,
    pub module_name: Seq<char>,
    pub module_instance_uuid7: Seq<char>,
    pub payload: PayloadView,
}

impl View for Container {
    type V = ContainerView;

    open spec fn view(&self) -> ContainerView {
        ContainerView {
            version: self.version,
            auth_token: self.auth_token@,
            module_name: self.module_name@,
            module_instance_uuid7: self.module_instance_uuid7@,
            payload: self.payload@,
        }
    }
}

/// `payload` in a message of `sender`, in version 1 of the protocol.
pub open spec fn contained(sender: SenderView, payload: PayloadView) -> ContainerView {
    ContainerView {
        version: 1,
        auth_token: sender.auth_token,
        module_name: sender.module_name,
        module_instance_uuid7: sender.instance_uuid,
        payload,
    }
}

/// `payload` in a message of `sender`.
pub fn contain(sender: &Sender, payload: Payload) -> (r: Container)
    ensures
        r@ == contained(sender@, payload@),
{
    Container {
        version: 1,
        auth_token: sender.auth_token.clone(),
        module_name: sender.module_name.clone(),
        module_instance_uuid7: sender.instance_uuid.clone(),
        payload,
    }
}

/// An operator's answer to a prompt.
#[derive(Debug)]
pub struct PromptResponse {
    pub prompt_id_uuid7: String,
    pub accepted: bool,
    pub reason: String,
}

/// What a `PromptResponse` holds.
pub struct PromptResponseView {
    pub prompt_id_uuid7: Seq<char>,
    pub accepted: bool,
    pub reason: Seq<char>,
}

impl View for PromptResponse {
    type V = PromptResponseView;

    open spec fn view(&self) -> PromptResponseView {
        PromptResponseView {
            prompt_id_uuid7: self.prompt_id_uuid7@,
            accepted: self.accepted,
            reason: self.reason@,
        }
    }
}

/// A chat message as its platform gave it.
#[derive(Debug)]
pub struct ChatMessage {
    pub raw_message: String,
    pub user_uuid7: String,
    pub platform: String,
}

/// What a `ChatMessage` holds.
pub struct ChatMessageView {
    pub raw_message: Seq<char>,
    pub user_uuid7: Seq<char>,
    pub platform: Seq<char>,
}

impl View for ChatMessage {
    type V = ChatMessageView;

    open spec fn view(&self) -> ChatMessageView {
        ChatMessageView {
            raw_message: self.raw_message@,
            user_uuid7: self.user_uuid7@,
            platform: self.platform@,
        }
    }
}

/// A chat message on its way through the engine.
#[derive(Debug)]
pub struct MessagePreProcess {
    pub message_uuid7: String,
    pub raw_message: Option<ChatMessage>,
}

/// What a `MessagePreProcess` holds.
pub struct MessagePreProcessView {
    pub message_uuid7: Seq<char>,
    pub raw_message: Option<ChatMessageView>,
}

impl View for MessagePreProcess {
    type V = MessagePreProcessView;

    open spec fn view(&self) -> MessagePreProcessView {
        MessagePreProcessView {
            message_uuid7: self.message_uuid7@,
            raw_message: match self.raw_message {
                Some(chat) => Some(chat@),
                None => None,
            },
        }
    }
}

/// What the module receives.
#[derive(Debug)]
pub enum Incoming {
    PromptResponse(PromptResponse),
    MessagePreProcess(MessagePreProcess),
    Other,
}

/// What an `Incoming` holds.
pub enum IncomingView {
    PromptResponse(PromptResponseView),
    MessagePreProcess(MessagePreProcessView),
    Other,
}

impl View for Incoming {
    type V = IncomingView;

    open spec fn view(&self) -> IncomingView {
        match *self {
            Incoming::PromptResponse(resp) => IncomingView::PromptResponse(resp@),
            Incoming::MessagePreProcess(pre) => IncomingView::MessagePreProcess(pre@),
            Incoming::Other => IncomingView::Other,
        }
    }
}

/// A message carries its payload and its sender, each under its own name, in version 1 of the
/// protocol.
pub proof fn messages_carry_their_sender(sender: &Sender, payload: Payload, r: Container)
    requires
        call_ensures(contain, (sender, payload), r),
    ensures
        r.version == 1,
        r.auth_token@ == sender.auth_token@,
        r.module_name@ == sender.module_name@,
        r.module_instance_uuid7@ == sender.instance_uuid@,
        r.payload@ == payload@,
{
}

} // verus!
