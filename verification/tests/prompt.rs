use score_messages::moderation::is_uuid_shaped;
use score_messages::prompt::{
    new_prompt, prompt_container, prompt_type, start_prompt, PromptAction, PromptEvent, PromptWait,
    Question, GRACE_SECS, POLL_SECS,
};
use score_messages::protocol::{Payload, PromptKind, PromptResponse, PromptType, Sender};

fn sender() -> Sender {
    Sender {
        auth_token: String::from("token"),
        module_name: String::from("score-messages"),
        instance_uuid: String::from("instance"),
    }
}

fn question() -> Question {
    Question {
        title: String::from("title"),
        details: String::from("details"),
        input_label: String::from("label"),
        kind: PromptKind::Credential,
        timeout: 60,
    }
}

fn response(id: &str, accepted: bool) -> PromptEvent {
    PromptEvent::Response(PromptResponse {
        prompt_id_uuid7: String::from(id),
        accepted,
        reason: String::from("because"),
    })
}

fn wait() -> PromptWait {
    PromptWait { prompt_id: String::from("mine"), timeout: 60 }
}

#[test]
fn prompt_types() {
    assert_eq!(prompt_type(PromptKind::Boolean), PromptType::Boolean);
    assert_eq!(prompt_type(PromptKind::String), PromptType::String);
    assert_eq!(prompt_type(PromptKind::Credential), PromptType::Credential);
}

#[test]
fn prompts_hold_the_question() {
    let container = prompt_container("id", &sender(), &question());
    assert_eq!(container.version, 1);
    assert_eq!(container.auth_token, "token");
    assert_eq!(container.module_name, "score-messages");
    assert_eq!(container.module_instance_uuid7, "instance");
    let prompt = match container.payload {
        Payload::Prompt(prompt) => prompt,
        Payload::DatabaseQuery(_) => panic!("no prompt"),
    };
    assert_eq!(prompt.prompt_id_uuid7, "id");
    assert_eq!(prompt.prompt, "title");
    assert_eq!(prompt.details, "details");
    assert_eq!(prompt.yes_dialog, "Submit");
    assert_eq!(prompt.no_dialog, "Cancel");
    assert_eq!(prompt.timeout, 60);
    assert_eq!(prompt.origin, "score-messages");
    assert_eq!(prompt.origin_uuid7, "");
    assert_eq!(prompt.instructions, "");
    assert_eq!(prompt.link, "");
    assert_eq!(prompt.input_label, "label");
    assert_eq!(prompt.prompt_type, PromptType::Credential);
}

#[test]
fn fresh_ids_are_version_seven() {
    let (first, container) = new_prompt(&sender(), &question());
    let (second, _) = new_prompt(&sender(), &question());
    assert_ne!(first, second);
    let parsed: uuid::Uuid = first.parse().unwrap();
    assert_eq!(parsed.get_version_num(), 7);
    assert_eq!(parsed.to_string(), first);
    assert!(is_uuid_shaped(&first));
    match container.payload {
        Payload::Prompt(prompt) => assert_eq!(prompt.prompt_id_uuid7, first),
        Payload::DatabaseQuery(_) => panic!("no prompt"),
    }
}

#[test]
fn the_wait_is_for_the_prompt_that_was_asked() {
    let (wait, container) = start_prompt(&sender(), &question());
    assert_eq!(wait.timeout, 60);
    let parsed: uuid::Uuid = wait.prompt_id.parse().unwrap();
    assert_eq!(parsed.get_version_num(), 7);
    match container.payload {
        Payload::Prompt(prompt) => {
            assert_eq!(prompt.prompt_id_uuid7, wait.prompt_id);
            assert_eq!(prompt.timeout, wait.timeout);
            assert_eq!(prompt.prompt, "title");
            let answer = response(&prompt.prompt_id_uuid7, true);
            assert!(matches!(wait.next(answer, 1), PromptAction::Done(Some(_))));
        }
        Payload::DatabaseQuery(_) => panic!("no prompt"),
    }
}

#[test]
fn answers_to_the_prompt() {
    match wait().next(response("mine", true), 3) {
        PromptAction::Done(answer) => assert_eq!(answer, Some(String::from("because"))),
        PromptAction::Poll => panic!("still waiting"),
    }
    assert!(matches!(wait().next(response("mine", false), 3), PromptAction::Done(None)));
    // An answer that was awaited is taken even if it came late.
    assert!(matches!(wait().next(response("mine", true), 71), PromptAction::Done(Some(_))));
}

#[test]
fn waiting_goes_on_until_the_deadline() {
    assert_eq!(POLL_SECS, 10);
    assert_eq!(GRACE_SECS, 10);
    assert!(matches!(wait().next(PromptEvent::Sent, 0), PromptAction::Poll));
    for elapsed in [10, 20, 30, 40, 50, 60, 69] {
        assert!(matches!(wait().next(PromptEvent::Idle, elapsed), PromptAction::Poll));
        assert!(matches!(wait().next(response("other", true), elapsed), PromptAction::Poll));
    }
    assert!(matches!(wait().next(PromptEvent::Idle, 70), PromptAction::Done(None)));
    assert!(matches!(wait().next(response("other", true), 70), PromptAction::Done(None)));
    let longest = PromptWait { prompt_id: String::new(), timeout: u32::MAX };
    assert!(matches!(longest.next(PromptEvent::Idle, u32::MAX as u64 + 9), PromptAction::Poll));
    assert!(matches!(
        longest.next(PromptEvent::Idle, u32::MAX as u64 + 10),
        PromptAction::Done(None)
    ));
}

#[test]
fn no_answer_can_come() {
    assert!(matches!(wait().next(PromptEvent::Unsent, 0), PromptAction::Done(None)));
    assert!(matches!(wait().next(PromptEvent::Closed, 0), PromptAction::Done(None)));
}
