use score_messages::config::{
    default_config, default_interval, Config, FrequencyRule, Rule, RuleName,
};
use score_messages::scoring::{
    checked_total, fired_rules, is_emoji, is_mashed, is_vowel, is_wordless,
    looks_like_spam_token, notes_of, score_message, try_score_message,
};

fn scored(message: &str) -> (i64, Vec<String>) {
    score_message(message, &default_config())
}

fn all_off() -> Config {
    let mut cfg = default_config();
    cfg.punctuation.toggle = false;
    cfg.question.toggle = false;
    cfg.length.toggle = false;
    cfg.spam.toggle = false;
    cfg.no_spacing.toggle = false;
    cfg.wordless.toggle = false;
    cfg.emoji.toggle = false;
    cfg.frequency.toggle = false;
    cfg
}

#[test]
fn defaults_are_as_documented() {
    assert_eq!(default_interval(), 2);
    assert_eq!(Rule::default(), Rule { toggle: true, score: 1 });
    let frequency = FrequencyRule { toggle: true, score: -2, interval_secs: 2 };
    assert_eq!(FrequencyRule::default(), frequency);
    let cfg = default_config();
    assert_eq!(cfg.question.score, 2);
    assert_eq!(cfg.spam.score, -5);
    assert_eq!(cfg.no_spacing.score, -2);
    assert_eq!(cfg.wordless.score, -3);
    assert_eq!(cfg.frequency, frequency);
    assert_eq!(Config::default().spam, Rule { toggle: true, score: 1 });
    assert_eq!(Config::default().frequency, frequency);
    assert_eq!(cfg.get(RuleName::Frequency), Rule { toggle: true, score: -2 });
}

#[test]
fn plain_words_score_nothing() {
    assert_eq!(scored("hello there"), (0, vec![]));
}

#[test]
fn blank_messages_score_zero() {
    assert_eq!(scored(""), (0, vec![]));
    assert_eq!(scored(" \t\n"), (0, vec![]));
}

#[test]
fn punctuation_and_questions() {
    assert_eq!(scored("hello there."), (1, vec![String::from("punctuation")]));
    assert_eq!(scored("hello there!  "), (1, vec![String::from("punctuation")]));
    assert_eq!(
        scored("are you there?"),
        (3, vec![String::from("punctuation"), String::from("question")])
    );
}

#[test]
fn length_counts_characters_not_bytes() {
    let forty = "aa bb cc dd ee ff gg hh ii jj kk ll mm \u{e9}";
    assert_eq!(forty.chars().count(), 40);
    assert_eq!(fired_rules(forty, &default_config()).contains(&RuleName::Length), true);
    let shorter: String = forty.chars().skip(1).collect();
    assert_eq!(fired_rules(&shorter, &default_config()).contains(&RuleName::Length), false);
}

#[test]
fn spam_tokens() {
    assert!(looks_like_spam_token("bbbbb"));
    assert!(looks_like_spam_token("asdlfkjsqaldkfja"));
    assert!(looks_like_spam_token("Asdlfkjsqaldkfja"));
    assert!(!looks_like_spam_token("asdlfkjsqaldkfjas"));
    assert!(looks_like_spam_token("aaaa"));
    assert!(looks_like_spam_token("AAaa"));
    assert!(looks_like_spam_token("xkcdq"));
    assert!(looks_like_spam_token("XKCDQ"));
    assert!(!looks_like_spam_token("xkcd"));
    assert!(!looks_like_spam_token("aaa"));
    assert!(!looks_like_spam_token("hello"));
    assert!(!looks_like_spam_token(""));
}

#[test]
fn spam_tokens_are_measured_in_bytes_of_their_lower_case() {
    // Two characters of two bytes each, equal in lower case only.
    assert!(looks_like_spam_token("\u{c9}\u{e9}"));
    assert!(!is_mashed("\u{c9}\u{e9}"));
    assert!(is_mashed("\u{e9}\u{e9}"));
    // The Kelvin sign has three bytes, its lower case one.
    assert!(!looks_like_spam_token("\u{212a}\u{212a}"));
    assert!(is_mashed("\u{212a}\u{212a}"));
}

#[test]
fn ascii_case_does_not_matter_to_spam() {
    for token in [
        "bbbbb", "xkcdq", "hello", "\u{c9}xkcd", "\u{e9}xkcd", "xx\u{3a3}xx", "xxxx\u{3a3}",
        "\u{212a}kkk", "\u{130}xyzw",
    ] {
        let shouted = token.to_ascii_uppercase();
        assert_eq!(looks_like_spam_token(&shouted), looks_like_spam_token(token), "{}", token);
    }
    assert!(looks_like_spam_token("\u{c9}XKCD"));
    assert!(looks_like_spam_token("\u{212a}KKk"));
}

#[test]
fn spam_message() {
    assert_eq!(
        scored("bbbbb"),
        (-8, vec![String::from("spam"), String::from("wordless")])
    );
    assert_eq!(scored("oooo no"), (-5, vec![String::from("spam")]));
}

#[test]
fn no_spacing_needs_twenty_characters() {
    assert_eq!(scored("abcdefghijklmnopqrst"), (-2, vec![String::from("no_spacing")]));
    assert_eq!(scored("abcdefghijklmnopqrs"), (0, vec![]));
    // A tab is white space but no space.
    assert_eq!(
        scored("abcdefghij\tklmnopqrst"),
        (-2, vec![String::from("no_spacing")])
    );
}

#[test]
fn wordless_needs_fewer_than_half() {
    assert!(!is_wordless(""));
    assert!(!is_wordless("  "));
    assert!(is_wordless("brb"));
    assert!(!is_wordless("brb OK"));
    assert!(is_wordless("brb OK gg"));
    assert!(is_wordless("  brb  "));
    assert!(!is_wordless("I see"));
    assert!(is_vowel('u'));
    assert!(!is_vowel('U'));
}

#[test]
fn emoji_ranges() {
    for c in [
        '\u{1F300}', '\u{1F5FF}', '\u{1F600}', '\u{1F64F}', '\u{1F680}', '\u{1F6FF}',
        '\u{1F900}', '\u{1F9FF}', '\u{1FA70}', '\u{1FAFF}', '\u{2600}', '\u{27BF}', '\u{FE00}',
        '\u{FE0F}', '\u{1F000}', '\u{1F0FF}',
    ] {
        assert!(is_emoji(c));
    }
    for c in [
        'a', '\u{25FF}', '\u{27C0}', '\u{FDFF}', '\u{FE10}', '\u{1EFFF}', '\u{1F100}',
        '\u{1F2FF}', '\u{1F650}', '\u{1F67F}', '\u{1F700}', '\u{1F8FF}', '\u{1FA00}',
        '\u{1FA6F}', '\u{1FB00}',
    ] {
        assert!(!is_emoji(c));
    }
    assert_eq!(scored("nice one\u{1F600}"), (1, vec![String::from("emoji")]));
    // Standing alone it is also a token of four bytes and one character.
    assert_eq!(
        scored("nice one \u{1F600}"),
        (-4, vec![String::from("spam"), String::from("emoji")])
    );
}

#[test]
fn every_rule_of_a_message_in_order() {
    let message = "bbbbbbbbbbbbbbbbbbbbbbbbbbbbbbbbbbbbbb\u{1F600}?";
    let (delta, notes) = scored(message);
    let expected = [
        "punctuation", "question", "length", "spam", "no_spacing", "wordless", "emoji",
    ];
    assert_eq!(notes, expected);
    assert_eq!(delta, 1 + 2 + 1 - 5 - 2 - 3 + 1);
}

#[test]
fn rules_that_are_off_do_not_score() {
    let message = "bbbbbbbbbbbbbbbbbbbbbbbbbbbbbbbbbbbbbb\u{1F600}?";
    assert_eq!(score_message(message, &all_off()), (0, vec![]));
    let mut cfg = all_off();
    cfg.spam.toggle = true;
    assert_eq!(score_message(message, &cfg), (-5, vec![String::from("spam")]));
}

#[test]
fn surrounding_white_space_does_not_matter() {
    for message in ["are you there?", "bbbbb", "abcdefghijklmnopqrst"] {
        let padded = format!("\u{3000} {}\r\n", message);
        assert_eq!(scored(&padded), scored(message));
    }
}

#[test]
fn scores_change_the_sum_but_not_what_fires() {
    let mut cfg = default_config();
    cfg.question.score = 100;
    cfg.frequency.toggle = false;
    let (delta, notes) = score_message("are you there?", &cfg);
    assert_eq!(delta, 101);
    assert_eq!(notes, scored("are you there?").1);
}

#[test]
fn sums_that_overflow_are_refused() {
    let mut cfg = default_config();
    cfg.punctuation.score = i64::MAX;
    cfg.question.score = 1;
    assert_eq!(try_score_message("are you there?", &cfg), None);
    let expected = (i64::MAX, vec![String::from("punctuation")]);
    assert_eq!(try_score_message("hello there.", &cfg), Some(expected));
    // The sum fits, but a running total does not.
    cfg.emoji.score = -5;
    cfg.length.score = -5;
    assert_eq!(try_score_message("\u{1F600} are you there?", &cfg), None);
    cfg.punctuation.score = i64::MIN;
    cfg.question.score = -1;
    assert_eq!(try_score_message("are you there?", &cfg), None);
}

#[test]
fn totals_and_notes_of_rules() {
    let rules = vec![RuleName::Question, RuleName::Frequency];
    assert_eq!(checked_total(&default_config(), &rules), Some(0));
    assert_eq!(notes_of(&rules), ["question", "frequency"]);
    assert_eq!(checked_total(&default_config(), &vec![]), Some(0));
}
