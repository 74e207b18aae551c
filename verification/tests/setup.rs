use score_messages::config::{default_config, Config};
use score_messages::protocol::PromptKind;
use score_messages::setup::{
    answered_config, begin, emoji_question, frequency_question, is_yes, proceed, Pending, Step,
};
use score_messages::store::PerRule;

fn no_fractions() -> PerRule<Option<i64>> {
    PerRule {
        punctuation: None,
        question: None,
        length: None,
        spam: None,
        no_spacing: None,
        wordless: None,
        emoji: None,
        frequency: None,
    }
}

fn pending(step: Step) -> Pending {
    match step {
        Step::Ask { pending, .. } => pending,
        Step::Use(_) | Step::Save(_) => panic!("nothing is asked"),
    }
}

fn saved(step: Step) -> Config {
    match step {
        Step::Save(cfg) => cfg,
        Step::Use(_) | Step::Ask { .. } => panic!("nothing is saved"),
    }
}

#[test]
fn yes_and_no() {
    for yes in ["y", "Y", "yes", " YES \n", "yEs"] {
        assert!(is_yes(yes));
    }
    for no in ["", "n", "no", "true", "1", "ye", "yes!", "y es"] {
        assert!(!is_yes(no));
    }
}

#[test]
fn a_saved_configuration_is_used() {
    let text = "{\"module_specific\": {\"emoji_toggle\": false}}";
    let mut expected = default_config();
    expected.emoji.toggle = false;
    match begin(Some(text), None, &no_fractions()) {
        Step::Use(cfg) => assert_eq!(cfg, expected),
        Step::Ask { .. } | Step::Save(_) => panic!("not used"),
    }
}

#[test]
fn the_operator_is_asked_twice() {
    for text in [None, Some("{oops"), Some("{}")] {
        let first = begin(text, None, &no_fractions());
        match &first {
            Step::Ask { question, pending: Pending::Emoji } => {
                assert_eq!(question.title, "Configure score-messages module");
                assert_eq!(question.input_label, "Enable emoji rule? (y/n)");
            }
            _ => panic!("not asked"),
        }
        let second = proceed(pending(first), Some(String::from("no")));
        match &second {
            Step::Ask { question, pending: Pending::Frequency { emoji } } => {
                assert_eq!(question.input_label, "Enable frequency rule? (y/n)");
                assert_eq!(emoji.as_deref(), Some("no"));
            }
            _ => panic!("not asked"),
        }
        let cfg = saved(proceed(pending(second), Some(String::from("Yes"))));
        let mut expected = default_config();
        expected.emoji.toggle = false;
        assert_eq!(cfg, expected);
    }
}

#[test]
fn without_answers_the_default_is_saved() {
    assert_eq!(answered_config(None, None), default_config());
    let step = proceed(pending(begin(None, None, &no_fractions())), None);
    assert_eq!(saved(proceed(pending(step), None)), default_config());
}

#[test]
fn answers_set_their_own_toggle() {
    let mut expected = default_config();
    expected.frequency.toggle = false;
    assert_eq!(answered_config(Some("y"), Some("n")), expected);
    assert_eq!(answered_config(None, Some("whatever")), expected);
    let mut expected = default_config();
    expected.emoji.toggle = false;
    assert_eq!(answered_config(Some(""), None), expected);
}

#[test]
fn what_is_asked() {
    let emoji = emoji_question();
    assert_eq!(
        emoji.details,
        "No saved config was found. Enable the emoji rule (reward messages containing emoji)?"
    );
    assert_eq!(emoji.kind, PromptKind::Boolean);
    assert_eq!(emoji.timeout, 60);
    let frequency = frequency_question();
    assert_eq!(
        frequency.details,
        "Enable the frequency rule (punish users who post again too soon)?"
    );
    assert_eq!(frequency.kind, PromptKind::Boolean);
    assert_eq!(frequency.timeout, 60);
}
