//! Asking an operator through the engine, and waiting for the answer.

use crate::protocol::{
    contain, Container, ContainerView, Payload, PayloadView, Prompt, PromptKind, PromptResponse,
    PromptResponseView, PromptType, PromptView, Sender, SenderView,
};
use vstd::prelude::*;

verus! {

/// What an operator is asked, and for how many seconds.
#[derive(Debug)]
pub struct Question {
    pub title: String,
    pub details: String,
    pub input_label: String,
    pub kind: PromptKind,
    pub timeout: u32,
}

/// What a `Question` holds.
pub struct QuestionView {
    pub title: Seq<char>,
    pub details: Seq<char>,
    pub input_label: Seq<char>,
    pub kind: PromptKind,
    pub timeout: u32,
}

impl View for Question {
    type V = QuestionView;

    open spec fn view(&self) -> QuestionView {
        QuestionView {
            title: self.title@,
            details: self.details@,
            input_label: self.input_label@,
            kind: self.kind,
            timeout: self.timeout,
        }
    }
}

/// The engine's name for a kind of prompt.
pub open spec fn type_of(kind: PromptKind) -> PromptType {
    match kind {
        PromptKind::Boolean => PromptType::Boolean,
        PromptKind::String => PromptType::String,
        PromptKind::Credential => PromptType::Credential,
    }
}

/// The message of `sender` that asks `question` under the id `id`.
pub open spec fn asked(id: Seq<char>, sender: SenderView, question: QuestionView) -> ContainerView {
    crate::protocol::contained(
        sender,
        PayloadView::Prompt(
            PromptView {
                prompt_id_uuid7: id,
                prompt: question.title,
                details: question.details,
                yes_dialog: "Submit"@,
                no_dialog: "Cancel"@,
                timeout: question.timeout,
                origin: sender.module_name,
                origin_uuid7: Seq::empty(),
                instructions: Seq::empty(),
                link: Seq::empty(),
                input_label: question.input_label,
                prompt_type: type_of(question.kind),
            },
        ),
    )
}

/// The engine's name for a kind of prompt.
pub fn prompt_type(kind: PromptKind) -> (r: PromptType)
    ensures
        r == type_of(kind),
{
    match kind {
        PromptKind::Boolean => PromptType::Boolean,
        PromptKind::String => PromptType::String,
        PromptKind::Credential => PromptType::Credential,
    }
}

/// The message of `sender` that asks `question` under the id `id`.
pub fn prompt_container(id: &str, sender: &Sender, question: &Question) -> (r: Container)
    ensures
        r@ == asked(id@, sender@, question@),
{
    contain(
        sender,
        Payload::Prompt(
            Prompt {
                prompt_id_uuid7: id.to_owned(),
                prompt: question.title.clone(),
                details: question.details.clone(),
                yes_dialog: "Submit".to_owned(),
                no_dialog: "Cancel".to_owned(),
                timeout: question.timeout,
                origin: sender.module_name.clone(),
                origin_uuid7: String::new(),
                instructions: String::new(),
                link: String::new(),
                input_label: question.input_label.clone(),
                prompt_type: prompt_type(question.kind),
            },
        ),
    )
}

/// Whether `s` writes a version 7 UUID: hexadecimal digits in lower case, in groups of 8, 4, 4, 4
/// and 12 with hyphens between them, with the version and the variant in their places.
pub open spec fn uuid7_text(s: Seq<char>) -> bool {
    &&& s.len() == 36
    &&& forall|i: int|
        0 <= i < 36 ==> if i == 8 || i == 13 || i == 18 || i == 23 {
            #[trigger] s[i] == '-'
        } else {
            ('0' <= s[i] <= '9') || ('a' <= s[i] <= 'f')
        }
    &&& s[14] == '7'
    &&& s[19] == '8' || s[19] == '9' || s[19] == 'a' || s[19] == 'b'
}

/// `uuid::Uuid::now_v7` and its text: a version 7 UUID. It rests on the clock and on chance, so
/// nothing is said of which one, nor that two calls differ.
#[verifier::external_body]
fn fresh_uuid7() -> (r: String)
    ensures
        uuid7_text(r@),
{
    uuid::Uuid::now_v7().to_string()
}

/// The message of `sender` that asks `question`, with the fresh id that it is asked under.
pub fn new_prompt(sender: &Sender, question: &Question) -> (r: (String, Container))
    ensures
        uuid7_text(r.0@),
        r.1@ == asked(r.0@, sender@, question@),
{
    let id = fresh_uuid7();
    let container = prompt_container(id.as_str(), sender, question);
    (id, container)
}

/// How many seconds one poll for an answer lasts.
pub const POLL_SECS: u64 = 10;

/// How many seconds past its own timeout a prompt is waited for.
pub const GRACE_SECS: u64 = 10;

/// A prompt that waits for its answer.
#[derive(Debug)]
pub struct PromptWait {
    pub prompt_id: String,
    pub timeout: u32,
}

/// The message of `sender` that asks `question`, with the wait for the answer to it.
pub fn start_prompt(sender: &Sender, question: &Question) -> (r: (PromptWait, Container))
    ensures
        uuid7_text(r.0.prompt_id@),
        r.0.timeout == question.timeout,
        r.1@ == asked(r.0.prompt_id@, sender@, question@),
{
    let (prompt_id, container) = new_prompt(sender, question);
    (PromptWait { prompt_id, timeout: question.timeout }, container)
}

/// What happens while a prompt waits.
#[derive(Debug)]
pub enum PromptEvent {
    /// The prompt was sent.
    Sent,
    /// The prompt could not be sent.
    Unsent,
    /// An answer came, to this prompt or another.
    Response(PromptResponse),
    /// No answer can come any more.
    Closed,
    /// A poll ended without an answer.
    Idle,
}

/// What a `PromptEvent` holds.
pub enum PromptEventView {
    Sent,
    Unsent,
    Response(PromptResponseView),
    Closed,
    Idle,
}

impl View for PromptEvent {
    type V = PromptEventView;

    open spec fn view(&self) -> PromptEventView {
        match *self {
            PromptEvent::Sent => PromptEventView::Sent,
            PromptEvent::Unsent => PromptEventView::Unsent,
            PromptEvent::Response(resp) => PromptEventView::Response(resp@),
            PromptEvent::Closed => PromptEventView::Closed,
            PromptEvent::Idle => PromptEventView::Idle,
        }
    }
}

/// What is to be done next.
#[derive(Debug)]
pub enum PromptAction {
    /// Poll once more for an answer.
    Poll,
    /// Stop: the operator gave this answer, or none.
    Done(Option<String>),
}

/// What a `PromptAction` holds.
pub enum PromptActionView {
    Poll,
    Done(Option<Seq<char>>),
}

impl View for PromptAction {
    type V = PromptActionView;

    open spec fn view(&self) -> PromptActionView {
        match *self {
            PromptAction::Poll => PromptActionView::Poll,
            PromptAction::Done(answer) => PromptActionView::Done(
                match answer {
                    Some(reason) => Some(reason@),
                    None => None,
                },
            ),
        }
    }
}

/// Whether a prompt is still waited for, `elapsed_secs` full seconds after it was sent.
pub open spec fn in_time(timeout: u32, elapsed_secs: u64) -> bool {
    elapsed_secs < timeout + GRACE_SECS
}

/// What an answer to the prompt says: its reason, or nothing where the operator cancelled.
pub open spec fn said(resp: PromptResponseView) -> Option<Seq<char>> {
    if resp.accepted {
        Some(resp.reason)
    } else {
        None
    }
}

/// Whether `event` leaves the prompt `id` without an answer, and with the prospect of one.
pub open spec fn undecided(id: Seq<char>, event: PromptEventView) -> bool {
    match event {
        PromptEventView::Sent | PromptEventView::Idle => true,
        PromptEventView::Response(resp) => resp.prompt_id_uuid7 != id,
        PromptEventView::Unsent | PromptEventView::Closed => false,
    }
}

/// What is to be done on `event`.
pub open spec fn next_action(
    id: Seq<char>,
    timeout: u32,
    event: PromptEventView,
    elapsed_secs: u64,
) -> PromptActionView {
    if undecided(id, event) {
        if in_time(timeout, elapsed_secs) {
            PromptActionView::Poll
        } else {
            PromptActionView::Done(None)
        }
    } else {
        match event {
            PromptEventView::Response(resp) => PromptActionView::Done(said(resp)),
            _ => PromptActionView::Done(None),
        }
    }
}

impl PromptWait {
    /// What is to be done on `event`, `elapsed_secs` full seconds after the prompt was sent.
    pub fn next(&self, event: PromptEvent, elapsed_secs: u64) -> (r: PromptAction)
        ensures
            r@ == next_action(self.prompt_id@, self.timeout, event@, elapsed_secs),
    {
        match event {
            PromptEvent::Unsent => PromptAction::Done(None),
            PromptEvent::Closed => PromptAction::Done(None),
            PromptEvent::Response(resp) => if resp.prompt_id_uuid7 == self.prompt_id {
                if resp.accepted {
                    PromptAction::Done(Some(resp.reason))
                } else {
                    PromptAction::Done(None)
                }
            } else {
                self.wait(elapsed_secs)
            },
            PromptEvent::Sent => self.wait(elapsed_secs),
            PromptEvent::Idle => self.wait(elapsed_secs),
        }
    }

    /// Waits on, until the time of the prompt is over.
    fn wait(&self, elapsed_secs: u64) -> (r: PromptAction)
        ensures
            r@ == if in_time(self.timeout, elapsed_secs) {
                PromptActionView::Poll
            } else {
                PromptActionView::Done(None)
            },
    {
        if elapsed_secs < self.timeout as u64 + GRACE_SECS {
            PromptAction::Poll
        } else {
            PromptAction::Done(None)
        }
    }
}

/// How the wait for the prompt `id` ends over `trace`, the events with the full seconds after
/// which each came; nothing while it goes on.
pub open spec fn outcome(id: Seq<char>, timeout: u32, trace: Seq<(PromptEventView, u64)>) -> Option<
    Option<Seq<char>>,
>
    decreases trace.len(),
{
    if trace.len() == 0 {
        None
    } else {
        match next_action(id, timeout, trace[0].0, trace[0].1) {
            PromptActionView::Done(answer) => Some(answer),
            PromptActionView::Poll => outcome(id, timeout, trace.drop_first()),
        }
    }
}

/// Whether every event of `trace` came in time and left the prompt `id` undecided.
pub open spec fn quiet(id: Seq<char>, timeout: u32, trace: Seq<(PromptEventView, u64)>) -> bool {
    forall|i: int|
        0 <= i < trace.len() ==> undecided(id, (#[trigger] trace[i]).0) && in_time(
            timeout,
            trace[i].1,
        )
}

/// Polls that end without an answer, and answers to other prompts, cancel nothing before the
/// time of the prompt is over.
pub proof fn quiet_waits_go_on(id: Seq<char>, timeout: u32, trace: Seq<(PromptEventView, u64)>)
    requires
        quiet(id, timeout, trace),
    ensures
        outcome(id, timeout, trace) is None,
    decreases trace.len(),
{
    if trace.len() > 0 {
        assert(undecided(id, trace[0].0));
        assert forall|i: int| 0 <= i < trace.drop_first().len() implies undecided(
            id,
            (#[trigger] trace.drop_first()[i]).0,
        ) && in_time(timeout, trace.drop_first()[i].1) by {
            assert(trace.drop_first()[i] == trace[i + 1]);
        }
        quiet_waits_go_on(id, timeout, trace.drop_first());
    }
}

/// After a quiet wait of any length, the operator's answer to the prompt is what comes back.
pub proof fn answer_ends_the_wait(
    id: Seq<char>,
    timeout: u32,
    trace: Seq<(PromptEventView, u64)>,
    resp: PromptResponseView,
    elapsed_secs: u64,
)
    requires
        quiet(id, timeout, trace),
        resp.prompt_id_uuid7 == id,
    ensures
        outcome(
            id,
            timeout,
            trace.push((PromptEventView::Response(resp), elapsed_secs)),
        ) == Some(said(resp)),
    decreases trace.len(),
{
    let last = (PromptEventView::Response(resp), elapsed_secs);
    let whole = trace.push(last);
    if trace.len() > 0 {
        assert(undecided(id, trace[0].0));
        assert(whole[0] == trace[0]);
        assert(whole.drop_first() =~= trace.drop_first().push(last));
        assert forall|i: int| 0 <= i < trace.drop_first().len() implies undecided(
            id,
            (#[trigger] trace.drop_first()[i]).0,
        ) && in_time(timeout, trace.drop_first()[i].1) by {
            assert(trace.drop_first()[i] == trace[i + 1]);
        }
        answer_ends_the_wait(id, timeout, trace.drop_first(), resp, elapsed_secs);
    }
}

/// Once the time of the prompt is over, the next event ends the wait.
pub proof fn late_events_end_the_wait(
    id: Seq<char>,
    timeout: u32,
    event: PromptEventView,
    elapsed_secs: u64,
)
    requires
        !in_time(timeout, elapsed_secs),
    ensures
        next_action(id, timeout, event, elapsed_secs) is Done,
{
}

/// An answer to this prompt ends the wait, whenever it comes, with what the operator wrote if they
/// accepted and with nothing if they cancelled. So does, with nothing, a prompt that cannot be sent
/// or answered.
pub proof fn own_answers_end_the_wait(
    wait: &PromptWait,
    event: PromptEvent,
    elapsed_secs: u64,
    r: PromptAction,
)
    requires
        call_ensures(PromptWait::next, (wait, event, elapsed_secs), r),
    ensures
        event matches PromptEvent::Response(resp) ==> (resp.prompt_id_uuid7@
            == wait.prompt_id@ ==> {
            &&& resp.accepted ==> (r matches PromptAction::Done(Some(answer)) && answer@
                == resp.reason@)
            &&& !resp.accepted ==> (r matches PromptAction::Done(answer) && answer is None)
        }),
        event is Unsent || event is Closed ==> (r matches PromptAction::Done(answer)
            && answer is None),
{
}

/// Answers to other prompts, polls without an answer and the sending itself leave the wait going
/// until ten seconds past the time of the prompt, and end it with nothing then.
pub proof fn the_wait_is_ten_seconds_longer(
    wait: &PromptWait,
    event: PromptEvent,
    elapsed_secs: u64,
    r: PromptAction,
)
    requires
        call_ensures(PromptWait::next, (wait, event, elapsed_secs), r),
        event matches PromptEvent::Response(resp) ==> resp.prompt_id_uuid7@ != wait.prompt_id@,
        !(event is Unsent || event is Closed),
    ensures
        r is Poll <==> elapsed_secs - wait.timeout < 10,
        r matches PromptAction::Done(answer) ==> answer is None,
{
}

/// A prompt says what the question does, each part in its own place, and is asked in the name of
/// its sender under the id that is waited for.
pub proof fn prompts_say_what_is_asked(
    sender: &Sender,
    question: &Question,
    r: (PromptWait, Container),
)
    requires
        call_ensures(start_prompt, (sender, question), r),
    ensures
        r.0.timeout == question.timeout,
        r.1.version == 1,
        r.1.auth_token@ == sender.auth_token@,
        r.1.module_name@ == sender.module_name@,
        r.1.module_instance_uuid7@ == sender.instance_uuid@,
        r.1.payload matches Payload::Prompt(prompt) && {
            &&& prompt.prompt_id_uuid7@ == r.0.prompt_id@
            &&& prompt.prompt@ == question.title@
            &&& prompt.details@ == question.details@
            &&& prompt.input_label@ == question.input_label@
            &&& prompt.timeout == question.timeout
            &&& prompt.origin@ == sender.module_name@
            &&& prompt.yes_dialog@ == "Submit"@
            &&& prompt.no_dialog@ == "Cancel"@
            &&& prompt.origin_uuid7@.len() == 0
            &&& prompt.instructions@.len() == 0
            &&& prompt.link@.len() == 0
            &&& prompt.prompt_type is Boolean <==> question.kind is Boolean
            &&& prompt.prompt_type is String <==> question.kind is String
            &&& prompt.prompt_type is Credential <==> question.kind is Credential
        },
{
    assert(r.1@.payload is Prompt);
}

/// The same question under the same id is asked in the same words, however the id was made.
pub proof fn ids_do_not_change_the_question(
    id: &str,
    sender: &Sender,
    question: &Question,
    r: Container,
    fresh: (String, Container),
    started: (PromptWait, Container),
)
    requires
        call_ensures(prompt_container, (id, sender, question), r),
        call_ensures(new_prompt, (sender, question), fresh),
        call_ensures(start_prompt, (sender, question), started),
    ensures
        fresh.0@ == id@ ==> fresh.1@ == r@,
        started.0.prompt_id@ == id@ ==> started.1@ == r@,
{
}

} // verus!
