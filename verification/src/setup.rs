//! Finding the configuration to run with: the saved one, or one that the operator is asked for.

use crate::config::{default_config, Config};
use crate::json;
use crate::prompt::{Question, QuestionView};
use crate::protocol::PromptKind;
use crate::store::{saved_config, PerRule};
use crate::text;
use vstd::prelude::*;

verus! {

/// What an answer is still to be given for. `Frequency` keeps the answer that was given on the
/// emoji rule.
#[derive(Debug)]
pub enum Pending {
    Emoji,
    Frequency { emoji: Option<String> },
}

/// What a `Pending` holds.
pub enum PendingView {
    Emoji,
    Frequency { emoji: Option<Seq<char>> },
}

impl View for Pending {
    type V = PendingView;

    open spec fn view(&self) -> PendingView {
        match *self {
            Pending::Emoji => PendingView::Emoji,
            Pending::Frequency { emoji } => PendingView::Frequency {
                emoji: crate::store::string_in(emoji),
            },
        }
    }
}

/// What is to be done to get a configuration.
#[derive(Debug)]
pub enum Step {
    /// Run with this saved configuration.
    Use(Config),
    /// Ask this, and hand the answer back with `pending`.
    Ask { question: Question, pending: Pending },
    /// Save this configuration and run with it.
    Save(Config),
}

/// What a `Step` holds.
pub enum StepView {
    Use(Config),
    Ask { question: QuestionView, pending: PendingView },
    Save(Config),
}

impl View for Step {
    type V = StepView;

    open spec fn view(&self) -> StepView {
        match *self {
            Step::Use(cfg) => StepView::Use(cfg),
            Step::Ask { question, pending } => StepView::Ask {
                question: question@,
                pending: pending@,
            },
            Step::Save(cfg) => StepView::Save(cfg),
        }
    }
}

/// The question whether the emoji rule is to be on.
pub open spec fn emoji_asked() -> QuestionView {
    QuestionView {
        title: "Configure score-messages module"@,
        details:
            "No saved config was found. Enable the emoji rule (reward messages containing emoji)?"@,
        input_label: "Enable emoji rule? (y/n)"@,
        kind: PromptKind::Boolean,
        timeout: 60,
    }
}

/// The question whether the frequency rule is to be on.
pub open spec fn frequency_asked() -> QuestionView {
    QuestionView {
        title: "Configure score-messages module"@,
        details: "Enable the frequency rule (punish users who post again too soon)?"@,
        input_label: "Enable frequency rule? (y/n)"@,
        kind: PromptKind::Boolean,
        timeout: 60,
    }
}

/// The question whether the emoji rule is to be on.
pub fn emoji_question() -> (r: Question)
    ensures
        r@ == emoji_asked(),
{
    let details =
        "No saved config was found. Enable the emoji rule (reward messages containing emoji)?";
    Question {
        title: "Configure score-messages module".to_owned(),
        details: details.to_owned(),
        input_label: "Enable emoji rule? (y/n)".to_owned(),
        kind: PromptKind::Boolean,
        timeout: 60,
    }
}

/// The question whether the frequency rule is to be on.
pub fn frequency_question() -> (r: Question)
    ensures
        r@ == frequency_asked(),
{
    Question {
        title: "Configure score-messages module".to_owned(),
        details: "Enable the frequency rule (punish users who post again too soon)?".to_owned(),
        input_label: "Enable frequency rule? (y/n)".to_owned(),
        kind: PromptKind::Boolean,
        timeout: 60,
    }
}

/// Whether `answer` is a yes: `y` or `yes` in any ASCII case, with white space around it ignored.
pub open spec fn yes(answer: Seq<char>) -> bool {
    let word = text::ascii_lowered(text::trimmed(answer));
    word == "y"@ || word == "yes"@
}

/// The toggle after `answer`: on for a yes, off for anything else, and as it was without one.
pub open spec fn toggled(answer: Option<Seq<char>>, before: bool) -> bool {
    match answer {
        Some(a) => yes(a),
        None => before,
    }
}

/// The configuration that the operator's answers make.
pub open spec fn answered(emoji: Option<Seq<char>>, frequency: Option<Seq<char>>) -> Config {
    let base = crate::config::initial_config();
    Config {
        emoji: crate::config::Rule { toggle: toggled(emoji, base.emoji.toggle), ..base.emoji },
        frequency: crate::config::FrequencyRule {
            toggle: toggled(frequency, base.frequency.toggle),
            ..base.frequency
        },
        ..base
    }
}

/// Whether `answer` is a yes.
pub fn is_yes(answer: &str) -> (r: bool)
    ensures
        r == yes(answer@),
{
    let word = text::trimmed_ascii_lower(answer);
    text::same_chars(&word, "y") || text::same_chars(&word, "yes")
}

/// The configuration that the operator's answers make.
pub fn answered_config(emoji: Option<&str>, frequency: Option<&str>) -> (r: Config)
    ensures
        r == answered(crate::store::text_in(emoji), crate::store::text_in(frequency)),
{
    let mut cfg = default_config();
    if let Some(a) = emoji {
        cfg.emoji.toggle = is_yes(a);
    }
    if let Some(a) = frequency {
        cfg.frequency.toggle = is_yes(a);
    }
    cfg
}

/// The first step, by the document of the configuration file.
pub open spec fn first_step(
    doc: Option<json::JsonView>,
    nested: Option<Config>,
    fractions: PerRule<Option<i64>>,
) -> StepView {
    match crate::store::loaded(doc, nested, fractions) {
        Some(cfg) => StepView::Use(cfg),
        None => StepView::Ask { question: emoji_asked(), pending: PendingView::Emoji },
    }
}

/// The document of a file that may be absent.
pub open spec fn document(text: Option<Seq<char>>) -> Option<json::JsonView> {
    match text {
        Some(t) => json::json_reading(t),
        None => None,
    }
}

/// The step after `answer`.
pub open spec fn next_step(pending: PendingView, answer: Option<Seq<char>>) -> StepView {
    match pending {
        PendingView::Emoji => StepView::Ask {
            question: frequency_asked(),
            pending: PendingView::Frequency { emoji: answer },
        },
        PendingView::Frequency { emoji } => StepView::Save(answered(emoji, answer)),
    }
}

/// The first step: run with the configuration that the file holds, or ask for one. `text` is the
/// text of the file, if it can be read, and `nested` what the top level of its document says as
/// a configuration.
pub fn begin(text: Option<&str>, nested: Option<Config>, fractions: &PerRule<Option<i64>>) -> (r:
    Step)
    ensures
        r@ == first_step(document(crate::store::text_in(text)), nested, *fractions),
{
    let saved = match text {
        Some(t) => saved_config(t, nested, fractions),
        None => None,
    };
    match saved {
        Some(cfg) => Step::Use(cfg),
        None => Step::Ask { question: emoji_question(), pending: Pending::Emoji },
    }
}

/// The step after `answer`, the operator's answer to what was pending, or nothing where there
/// was none.
pub fn proceed(pending: Pending, answer: Option<String>) -> (r: Step)
    ensures
        r@ == next_step(pending@, crate::store::string_in(answer)),
{
    match pending {
        Pending::Emoji => Step::Ask {
            question: frequency_question(),
            pending: Pending::Frequency { emoji: answer },
        },
        Pending::Frequency { emoji } => {
            let first = match &emoji {
                Some(a) => Some(a.as_str()),
                None => None,
            };
            let second = match &answer {
                Some(a) => Some(a.as_str()),
                None => None,
            };
            Step::Save(answered_config(first, second))
        },
    }
}

/// Without a saved configuration the operator is asked twice, and what is saved and used then is
/// the default configuration with the two answers in it.
pub proof fn two_answers_make_a_config(
    doc: Option<json::JsonView>,
    nested: Option<Config>,
    fractions: PerRule<Option<i64>>,
    emoji: Option<Seq<char>>,
    frequency: Option<Seq<char>>,
)
    requires
        crate::store::loaded(doc, nested, fractions) is None,
    ensures
        first_step(doc, nested, fractions) matches StepView::Ask { pending: first, .. }
            && next_step(first, emoji) matches StepView::Ask { pending: second, .. } && next_step(
            second,
            frequency,
        ) == StepView::Save(answered(emoji, frequency)),
{
}

/// Without an answer to either question, the default configuration is saved.
pub proof fn silence_keeps_the_default()
    ensures
        answered(None, None) == crate::config::initial_config(),
{
}

/// A yes is `y` or `yes`, whatever its ASCII case and the white space around it, and nothing else
/// is.
pub proof fn yes_is_y_or_yes(answer: &str, r: bool)
    requires
        call_ensures(is_yes, (answer,), r),
    ensures
        r <==> seq!["y"@, "yes"@].contains(text::ascii_lowered(text::trimmed(answer@))),
        r == yes(answer@),
{
    let both = seq!["y"@, "yes"@];
    assert(both[0] == "y"@ && both[1] == "yes"@);
}

/// Each answer decides the toggle of its own rule, on for a yes and off for anything else, and
/// nothing more: without it, the rule is as in the default configuration, and so is all the rest in
/// any case.
pub proof fn answers_decide_their_own_rule(emoji: Option<&str>, frequency: Option<&str>, r: Config)
    requires
        call_ensures(answered_config, (emoji, frequency), r),
    ensures
        emoji matches Some(e) ==> (r.emoji.toggle <==> yes(e@)),
        frequency matches Some(f) ==> (r.frequency.toggle <==> yes(f@)),
        forall|base: Config|
            call_ensures(default_config, (), base) ==> {
                &&& emoji is None ==> r.emoji.toggle == (#[trigger] base.emoji).toggle
                &&& frequency is None ==> r.frequency.toggle == base.frequency.toggle
                &&& r.emoji.score == base.emoji.score
                &&& r.frequency.score == base.frequency.score
                &&& r.frequency.interval_secs == base.frequency.interval_secs
                &&& r.punctuation == base.punctuation
                &&& r.question == base.question
                &&& r.length == base.length
                &&& r.spam == base.spam
                &&& r.no_spacing == base.no_spacing
                &&& r.wordless == base.wordless
            },
{
}

/// An answer that changes leaves the rule of the other question as it was.
pub proof fn answers_do_not_mix(
    emoji: Option<&str>,
    frequency: Option<&str>,
    r: Config,
    other: Option<&str>,
    r1: Config,
    r2: Config,
)
    requires
        call_ensures(answered_config, (emoji, frequency), r),
        call_ensures(answered_config, (other, frequency), r1),
        call_ensures(answered_config, (emoji, other), r2),
    ensures
        r1.frequency == r.frequency,
        r2.emoji == r.emoji,
        r1 == (Config { emoji: r1.emoji, ..r }),
        r2 == (Config { frequency: r2.frequency, ..r }),
{
}

/// A configuration that the file holds is used and nothing is asked. Otherwise the operator is
/// asked about the emoji rule, then about the frequency rule, and the two answers in that order
/// make the configuration that is saved.
pub proof fn the_operator_is_asked_only_without_a_config(
    text: Option<&str>,
    nested: Option<Config>,
    fractions: &PerRule<Option<i64>>,
    r: Step,
)
    requires
        call_ensures(begin, (text, nested, fractions), r),
    ensures
        text is None ==> r is Ask,
        text matches Some(t) ==> forall|saved: Option<Config>| #[trigger]
            call_ensures(saved_config, (t, nested, fractions), saved) ==> match saved {
                Some(cfg) => r == Step::Use(cfg),
                None => r is Ask,
            },
        r matches Step::Ask { question, pending } ==> {
            &&& pending is Emoji
            &&& forall|asked: Question| #[trigger]
                call_ensures(emoji_question, (), asked) ==> question@ == asked@
        },
        !(r is Save),
{
}

/// The answer on the emoji rule is kept until the one on the frequency rule has come, and then both
/// make the configuration that is saved.
pub proof fn both_answers_make_the_config(
    first: Option<String>,
    asked: Step,
    pending: Pending,
    second: Option<String>,
    r: Step,
)
    requires
        call_ensures(proceed, (Pending::Emoji, first), asked),
        asked matches Step::Ask { pending: kept, .. } && kept@ == pending@,
        call_ensures(proceed, (pending, second), r),
    ensures
        asked matches Step::Ask { question, .. } && forall|q: Question| #[trigger]
            call_ensures(frequency_question, (), q) ==> question@ == q@,
        r matches Step::Save(cfg) && {
            &&& first matches Some(e) ==> (cfg.emoji.toggle <==> yes(e@))
            &&& second matches Some(f) ==> (cfg.frequency.toggle <==> yes(f@))
        },
        forall|emoji: Option<&str>, frequency: Option<&str>, cfg: Config| #[trigger]
            call_ensures(answered_config, (emoji, frequency), cfg) && crate::store::text_in(emoji)
                == crate::store::string_in(first) && crate::store::text_in(frequency)
                == crate::store::string_in(second) ==> r == Step::Save(cfg),
{
}

/// Both questions are of a kind and have a minute for an answer, and each names its own rule.
pub proof fn questions_take_a_minute(emoji: Question, frequency: Question)
    requires
        call_ensures(emoji_question, (), emoji),
        call_ensures(frequency_question, (), frequency),
    ensures
        emoji.title@ == "Configure score-messages module"@,
        frequency.title@ == emoji.title@,
        emoji.kind is Boolean && frequency.kind is Boolean,
        emoji.timeout == frequency.timeout == 60,
        emoji.input_label@ == "Enable "@ + "emoji"@ + " rule? (y/n)"@,
        frequency.input_label@ == "Enable "@ + "frequency"@ + " rule? (y/n)"@,
        emoji.details@ != frequency.details@,
{
    reveal_strlit("Enable emoji rule? (y/n)");
    reveal_strlit("Enable frequency rule? (y/n)");
    reveal_strlit("Enable ");
    reveal_strlit("emoji");
    reveal_strlit("frequency");
    reveal_strlit(" rule? (y/n)");
    reveal_strlit(
        "No saved config was found. Enable the emoji rule (reward messages containing emoji)?",
    );
    reveal_strlit("Enable the frequency rule (punish users who post again too soon)?");
    assert(emoji.input_label@ =~= "Enable "@ + "emoji"@ + " rule? (y/n)"@);
    assert(frequency.input_label@ =~= "Enable "@ + "frequency"@ + " rule? (y/n)"@);
    assert(emoji.details@[0] == 'N' && frequency.details@[0] == 'E');
}

} // verus!
