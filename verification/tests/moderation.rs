use score_messages::config::{default_config, Config};
use score_messages::moderation::{
    is_uuid_shaped, query_arguments, score_query, Reaction, Tracker,
};
use score_messages::protocol::{
    ChatMessage, DatabaseQuery, Incoming, MessagePreProcess, Payload, PromptResponse, Sender,
};

const SECOND: u128 = 1_000_000_000;

const USER: &str = "0190a0b1-c2d3-7e4f-8a5b-6c7d8e9f0a1b";

fn sender() -> Sender {
    Sender {
        auth_token: String::from("token"),
        module_name: String::from("score-messages"),
        instance_uuid: String::from("instance"),
    }
}

fn chat(id: &str, user: &str, message: &str) -> Incoming {
    Incoming::MessagePreProcess(MessagePreProcess {
        message_uuid7: String::from(id),
        raw_message: Some(ChatMessage {
            raw_message: String::from(message),
            user_uuid7: String::from(user),
            platform: String::from("irc"),
        }),
    })
}

fn applied(reaction: Reaction) -> (i64, Vec<String>, DatabaseQuery) {
    match reaction {
        Reaction::Apply { query, delta, notes } => {
            assert_eq!(query.version, 1);
            assert_eq!(query.auth_token, "token");
            assert_eq!(query.module_name, "score-messages");
            assert_eq!(query.module_instance_uuid7, "instance");
            match query.payload {
                Payload::DatabaseQuery(q) => (delta, notes, q),
                Payload::Prompt(_) => panic!("no query"),
            }
        }
        other => panic!("not applied: {:?}", other),
    }
}

fn react(tracker: &mut Tracker, user: &str, message: &str, cfg: &Config, now: u128) -> Reaction {
    tracker.handle(chat("id", user, message), cfg, &sender(), now)
}

#[test]
fn uuid_shapes() {
    assert!(is_uuid_shaped(USER));
    assert!(is_uuid_shaped("----zzzzzzzzzzzzzzzzzzzzzzzzzzzzzzzz"));
    assert!(!is_uuid_shaped("0190a0b1-c2d3-7e4f-8a5b-6c7d8e9f0a1"));
    assert!(!is_uuid_shaped("0190a0b1-c2d3-7e4f-8a5b06c7d8e9f0a1b"));
    assert!(!is_uuid_shaped("somebody"));
    // 35 characters, one of them of two bytes.
    assert!(is_uuid_shaped("0190a0b1-c2d3-7e4f-8a5b-6c7d8e9f0a\u{e9}"));
}

#[test]
fn arguments_by_uuid_or_handle() {
    let notes = vec![String::from("spam"), String::from("wordless")];
    assert_eq!(
        query_arguments(USER, "irc", &notes),
        format!("{{\"reason\":\"score-messages: spam,wordless\",\"uuid7\":\"{}\"}}", USER)
    );
    assert_eq!(
        query_arguments("some\"body", "irc", &notes),
        "{\"handle\":\"some\\\"body\",\"platform\":\"irc\",\
         \"reason\":\"score-messages: spam,wordless\"}"
    );
}

#[test]
fn commend_and_reprimand() {
    let notes = vec![String::from("question")];
    assert_eq!(score_query(1, USER, "irc", &notes).query_id, "mod_commend");
    let query = score_query(-1, USER, "irc", &notes);
    assert_eq!(query.query_id, "mod_reprimand");
    assert!(query.params.is_empty());
}

#[test]
fn a_rewarded_message() {
    let mut tracker = Tracker::new();
    let (delta, notes, query) =
        applied(react(&mut tracker, USER, "are you there?", &default_config(), 0));
    assert_eq!(delta, 3);
    assert_eq!(notes, ["punctuation", "question"]);
    assert_eq!(query.query_id, "mod_commend");
    assert_eq!(
        query.sql,
        format!("{{\"reason\":\"score-messages: punctuation,question\",\"uuid7\":\"{}\"}}", USER)
    );
}

#[test]
fn posting_again_too_soon() {
    let mut tracker = Tracker::new();
    let cfg = default_config();
    assert!(matches!(react(&mut tracker, "ann", "hello", &cfg, SECOND), Reaction::Ignore));
    let (delta, notes, query) =
        applied(react(&mut tracker, "ann", "hello", &cfg, 3 * SECOND - 1));
    assert_eq!(delta, -2);
    assert_eq!(notes, ["frequency"]);
    assert_eq!(query.query_id, "mod_reprimand");
    // The second message counts for the third.
    assert!(matches!(
        react(&mut tracker, "ann", "hello", &cfg, 5 * SECOND - 1),
        Reaction::Ignore
    ));
    assert!(tracker.is_too_soon(&cfg, "ann", 5 * SECOND));
    assert!(!tracker.is_too_soon(&cfg, "bob", 5 * SECOND));
    // Another user is not affected.
    assert!(matches!(react(&mut tracker, "bob", "hello", &cfg, 5 * SECOND), Reaction::Ignore));
}

#[test]
fn frequency_is_noted_last() {
    let mut tracker = Tracker::new();
    let cfg = default_config();
    applied(react(&mut tracker, "ann", "hello?", &cfg, 0));
    let (delta, notes, _) = applied(react(&mut tracker, "ann", "hello?", &cfg, 1));
    assert_eq!(delta, 1);
    assert_eq!(notes, ["punctuation", "question", "frequency"]);
}

#[test]
fn scores_that_cancel_out_are_not_applied() {
    let mut tracker = Tracker::new();
    let mut cfg = default_config();
    cfg.frequency.score = -3;
    applied(react(&mut tracker, "ann", "hello?", &cfg, 0));
    assert!(matches!(react(&mut tracker, "ann", "hello?", &cfg, 1), Reaction::Ignore));
}

#[test]
fn the_frequency_rule_can_be_off_or_blind() {
    let mut cfg = default_config();
    let mut tracker = Tracker::new();
    assert!(matches!(react(&mut tracker, "", "hello", &cfg, 0), Reaction::Ignore));
    assert!(matches!(react(&mut tracker, "", "hello", &cfg, 1), Reaction::Ignore));
    cfg.frequency.toggle = false;
    assert!(matches!(react(&mut tracker, "ann", "hello", &cfg, 0), Reaction::Ignore));
    assert!(!tracker.is_too_soon(&default_config(), "ann", 1));
    cfg.frequency.toggle = true;
    cfg.frequency.interval_secs = 0;
    assert!(matches!(react(&mut tracker, "ann", "hello", &cfg, 5), Reaction::Ignore));
    assert!(matches!(react(&mut tracker, "ann", "hello", &cfg, 5), Reaction::Ignore));
    cfg.frequency.interval_secs = u64::MAX;
    applied(react(&mut tracker, "ann", "hello", &cfg, u64::MAX as u128 * SECOND + 4));
}

#[test]
fn messages_without_an_id_are_not_applied_but_kept() {
    let mut tracker = Tracker::new();
    let cfg = default_config();
    assert!(matches!(
        tracker.handle(chat("", "ann", "hello?"), &cfg, &sender(), 0),
        Reaction::Ignore
    ));
    assert!(tracker.is_too_soon(&cfg, "ann", 1));
}

#[test]
fn other_messages() {
    let mut tracker = Tracker::new();
    let cfg = default_config();
    assert!(matches!(tracker.handle(Incoming::Other, &cfg, &sender(), 0), Reaction::Ignore));
    let empty = MessagePreProcess { message_uuid7: String::from("id"), raw_message: None };
    assert!(matches!(
        tracker.handle(Incoming::MessagePreProcess(empty), &cfg, &sender(), 0),
        Reaction::Ignore
    ));
    let answer = PromptResponse {
        prompt_id_uuid7: String::from("p"),
        accepted: true,
        reason: String::from("y"),
    };
    match tracker.handle(Incoming::PromptResponse(answer), &cfg, &sender(), 0) {
        Reaction::Forward(resp) => {
            assert_eq!(resp.prompt_id_uuid7, "p");
            assert!(resp.accepted);
            assert_eq!(resp.reason, "y");
        }
        other => panic!("not forwarded: {:?}", other),
    }
}

#[test]
fn overflow_leaves_the_tracker_alone() {
    let mut tracker = Tracker::new();
    let mut cfg = default_config();
    cfg.punctuation.score = i64::MAX;
    assert!(matches!(react(&mut tracker, "ann", "hello?", &cfg, 0), Reaction::Overflow));
    assert!(!tracker.is_too_soon(&cfg, "ann", 1));
    cfg.punctuation.score = i64::MIN;
    cfg.question.toggle = false;
    applied(react(&mut tracker, "ann", "hello?", &cfg, 0));
    assert!(matches!(react(&mut tracker, "ann", "hello?", &cfg, SECOND), Reaction::Overflow));
    assert!(tracker.is_too_soon(&cfg, "ann", 2 * SECOND - 1));
    assert!(!tracker.is_too_soon(&cfg, "ann", 2 * SECOND));
}
