//! The scoring rules and their configuration.

use vstd::prelude::*;

verus! {

/// A rule that a message can meet: whether it is on, and what it adds to the score.
#[derive(Debug, Clone, Copy, PartialEq, Eq, Structural)]
pub struct Rule {
    pub toggle: bool,
    pub score: i64,
}

impl Default for Rule {
    fn default() -> (r: Self)
        ensures
            r == (Rule { toggle: true, score: 1 }),
    {
        Rule { toggle: true, score: 1 }
    }
}

/// The rule on posting again within `interval_secs` seconds of the last message.
#[derive(Debug, Clone, Copy, PartialEq, Eq, Structural)]
pub struct FrequencyRule {
    pub toggle: bool,
    pub score: i64,
    pub interval_secs: u64,
}

/// The seconds that a user is to wait between two messages, where nothing else is configured.
pub fn default_interval() -> (r: u64)
    ensures
        r == 2,
{
    2
}

impl Default for FrequencyRule {
    fn default() -> (r: Self)
        ensures
            r == (FrequencyRule { toggle: true, score: (-2) as i64, interval_secs: 2 }),
    {
        FrequencyRule { toggle: true, score: -2, interval_secs: default_interval() }
    }
}

/// The configuration of all rules.
#[derive(Debug, Clone, Copy, PartialEq, Eq, Structural)]
pub struct Config {
    pub punctuation: Rule,
    pub question: Rule,
    pub length: Rule,
    pub spam: Rule,
    pub no_spacing: Rule,
    pub wordless: Rule,
    pub emoji: Rule,
    pub frequency: FrequencyRule,
}

impl Default for Config {
    /// Every rule at its own default.
    fn default() -> (r: Self)
        ensures
            r == (Config {
                punctuation: Rule { toggle: true, score: 1 },
                question: Rule { toggle: true, score: 1 },
                length: Rule { toggle: true, score: 1 },
                spam: Rule { toggle: true, score: 1 },
                no_spacing: Rule { toggle: true, score: 1 },
                wordless: Rule { toggle: true, score: 1 },
                emoji: Rule { toggle: true, score: 1 },
                frequency: FrequencyRule { toggle: true, score: (-2) as i64, interval_secs: 2 },
            }),
    {
        Config {
            punctuation: Rule::default(),
            question: Rule::default(),
            length: Rule::default(),
            spam: Rule::default(),
            no_spacing: Rule::default(),
            wordless: Rule::default(),
            emoji: Rule::default(),
            frequency: FrequencyRule::default(),
        }
    }
}

/// The configuration that is used where none was saved.
pub open spec fn initial_config() -> Config {
    Config {
        punctuation: Rule { toggle: true, score: 1 },
        question: Rule { toggle: true, score: 2 },
        length: Rule { toggle: true, score: 1 },
        spam: Rule { toggle: true, score: (-5) as i64 },
        no_spacing: Rule { toggle: true, score: (-2) as i64 },
        wordless: Rule { toggle: true, score: (-3) as i64 },
        emoji: Rule { toggle: true, score: 1 },
        frequency: FrequencyRule { toggle: true, score: (-2) as i64, interval_secs: 2 },
    }
}

/// The configuration that is used where none was saved.
pub fn default_config() -> (r: Config)
    ensures
        r == initial_config(),
{
    Config {
        punctuation: Rule { toggle: true, score: 1 },
        question: Rule { toggle: true, score: 2 },
        length: Rule { toggle: true, score: 1 },
        spam: Rule { toggle: true, score: -5 },
        no_spacing: Rule { toggle: true, score: -2 },
        wordless: Rule { toggle: true, score: -3 },
        emoji: Rule { toggle: true, score: 1 },
        frequency: FrequencyRule::default(),
    }
}

/// The rules by name.
#[derive(Debug, Clone, Copy, PartialEq, Eq, Structural)]
pub enum RuleName {
    Punctuation,
    Question,
    Length,
    Spam,
    NoSpacing,
    Wordless,
    Emoji,
    Frequency,
}

impl RuleName {
    /// The rule's name in notes and in stored configurations.
    pub open spec fn text(self) -> Seq<char> {
        match self {
            RuleName::Punctuation => "punctuation"@,
            RuleName::Question => "question"@,
            RuleName::Length => "length"@,
            RuleName::Spam => "spam"@,
            RuleName::NoSpacing => "no_spacing"@,
            RuleName::Wordless => "wordless"@,
            RuleName::Emoji => "emoji"@,
            RuleName::Frequency => "frequency"@,
        }
    }

    /// The rule's name in notes and in stored configurations.
    pub fn as_str(&self) -> (r: &'static str)
        ensures
            r@ == self.text(),
    {
        match self {
            RuleName::Punctuation => "punctuation",
            RuleName::Question => "question",
            RuleName::Length => "length",
            RuleName::Spam => "spam",
            RuleName::NoSpacing => "no_spacing",
            RuleName::Wordless => "wordless",
            RuleName::Emoji => "emoji",
            RuleName::Frequency => "frequency",
        }
    }
}

impl Config {
    /// The toggle and the score of the rule `name`.
    pub open spec fn rule(self, name: RuleName) -> Rule {
        match name {
            RuleName::Punctuation => self.punctuation,
            RuleName::Question => self.question,
            RuleName::Length => self.length,
            RuleName::Spam => self.spam,
            RuleName::NoSpacing => self.no_spacing,
            RuleName::Wordless => self.wordless,
            RuleName::Emoji => self.emoji,
            RuleName::Frequency => Rule {
                toggle: self.frequency.toggle,
                score: self.frequency.score,
            },
        }
    }

    /// The toggle and the score of the rule `name`.
    pub fn get(&self, name: RuleName) -> (r: Rule)
        ensures
            r == self.rule(name),
    {
        match name {
            RuleName::Punctuation => self.punctuation,
            RuleName::Question => self.question,
            RuleName::Length => self.length,
            RuleName::Spam => self.spam,
            RuleName::NoSpacing => self.no_spacing,
            RuleName::Wordless => self.wordless,
            RuleName::Emoji => self.emoji,
            RuleName::Frequency => Rule {
                toggle: self.frequency.toggle,
                score: self.frequency.score,
            },
        }
    }
}

/// Each rule is the one that stands under its name.
pub proof fn rules_stand_under_their_names(
    cfg: &Config,
    name: RuleName,
    r: Rule,
    on: spec_fn(RuleName) -> Rule,
)
    requires
        call_ensures(Config::get, (cfg, name), r),
        cfg.punctuation == on(RuleName::Punctuation),
        cfg.question == on(RuleName::Question),
        cfg.length == on(RuleName::Length),
        cfg.spam == on(RuleName::Spam),
        cfg.no_spacing == on(RuleName::NoSpacing),
        cfg.wordless == on(RuleName::Wordless),
        cfg.emoji == on(RuleName::Emoji),
        cfg.frequency.toggle == on(RuleName::Frequency).toggle,
        cfg.frequency.score == on(RuleName::Frequency).score,
    ensures
        r == on(name),
        cfg.rule(name) == on(name),
{
}

/// Every rule is called by a name of its own.
pub proof fn names_tell_rules_apart(name: &RuleName, r: &'static str)
    requires
        call_ensures(RuleName::as_str, (name,), r),
    ensures
        r@ == name.text(),
        r@ == "punctuation"@ <==> *name == RuleName::Punctuation,
        r@ == "question"@ <==> *name == RuleName::Question,
        r@ == "length"@ <==> *name == RuleName::Length,
        r@ == "spam"@ <==> *name == RuleName::Spam,
        r@ == "no_spacing"@ <==> *name == RuleName::NoSpacing,
        r@ == "wordless"@ <==> *name == RuleName::Wordless,
        r@ == "emoji"@ <==> *name == RuleName::Emoji,
        r@ == "frequency"@ <==> *name == RuleName::Frequency,
{
    reveal_strlit("punctuation");
    reveal_strlit("question");
    reveal_strlit("length");
    reveal_strlit("spam");
    reveal_strlit("no_spacing");
    reveal_strlit("wordless");
    reveal_strlit("emoji");
    reveal_strlit("frequency");
    assert("punctuation"@[0] == 'p' && "question"@[0] == 'q' && "length"@[0] == 'l' && "spam"@[0]
        == 's' && "no_spacing"@[0] == 'n' && "wordless"@[0] == 'w' && "emoji"@[0] == 'e'
        && "frequency"@[0] == 'f');
}

/// By default every rule is on. Punctuation, questions, length and emoji are rewarded, a question
/// twice as much as the others, and the rest is punished, spam hardest.
pub proof fn defaults_reward_and_punish(r: Config)
    requires
        call_ensures(default_config, (), r),
    ensures
        r == initial_config(),
        r.punctuation.toggle && r.question.toggle && r.length.toggle && r.spam.toggle,
        r.no_spacing.toggle && r.wordless.toggle && r.emoji.toggle && r.frequency.toggle,
        r.punctuation.score == 1 && r.length.score == 1 && r.emoji.score == 1,
        r.question.score == 2 * r.punctuation.score,
        r.frequency.score == r.no_spacing.score == -2,
        r.spam.score == r.no_spacing.score + r.wordless.score == -5,
        r.frequency.interval_secs == 2,
{
}

/// The defaults of the parts agree: every rule of a default configuration is at its own default,
/// and the frequency rule has the default interval, in the configuration for a first run too.
pub proof fn defaults_agree(
    all: Config,
    rule: Rule,
    frequency: FrequencyRule,
    secs: u64,
    first: Config,
)
    requires
        call_ensures(<Config as Default>::default, (), all),
        call_ensures(<Rule as Default>::default, (), rule),
        call_ensures(<FrequencyRule as Default>::default, (), frequency),
        call_ensures(default_interval, (), secs),
        call_ensures(default_config, (), first),
    ensures
        rule.toggle && rule.score > 0,
        frequency.toggle && frequency.score < 0 && frequency.interval_secs == secs,
        all.punctuation == rule && all.question == rule && all.length == rule && all.spam == rule,
        all.no_spacing == rule && all.wordless == rule && all.emoji == rule,
        all.frequency == frequency && first.frequency == frequency,
        first.emoji == rule,
{
}

} // verus!
