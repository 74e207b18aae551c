//! The configuration as a JSON file keeps it: flat keys under `module_specific`, and a nested
//! configuration at the top level of older files.

use crate::config::{default_config, Config, FrequencyRule, Rule, RuleName};
use crate::json::{self, JsonView, NumberView};
use crate::settings::{self, Setting, SettingView};
use vstd::prelude::*;

verus! {

/// One value for each rule.
#[derive(Debug)]
pub struct PerRule<T> {
    pub punctuation: T,
    pub question: T,
    pub length: T,
    pub spam: T,
    pub no_spacing: T,
    pub wordless: T,
    pub emoji: T,
    pub frequency: T,
}

impl<T> PerRule<T> {
    /// The value for the rule `name`.
    pub open spec fn at(self, name: RuleName) -> T {
        match name {
            RuleName::Punctuation => self.punctuation,
            RuleName::Question => self.question,
            RuleName::Length => self.length,
            RuleName::Spam => self.spam,
            RuleName::NoSpacing => self.no_spacing,
            RuleName::Wordless => self.wordless,
            RuleName::Emoji => self.emoji,
            RuleName::Frequency => self.frequency,
        }
    }

    /// The value for the rule `name`.
    pub fn get(&self, name: RuleName) -> (r: &T)
        ensures
            *r == self.at(name),
    {
        match name {
            RuleName::Punctuation => &self.punctuation,
            RuleName::Question => &self.question,
            RuleName::Length => &self.length,
            RuleName::Spam => &self.spam,
            RuleName::NoSpacing => &self.no_spacing,
            RuleName::Wordless => &self.wordless,
            RuleName::Emoji => &self.emoji,
            RuleName::Frequency => &self.frequency,
        }
    }
}

/// The score texts of a file that write no integer, read as decimal fractions and cut to
/// integers: those under the flat keys and those of the nested layout.
#[derive(Debug)]
pub struct Fractions {
    pub flat: PerRule<Option<i64>>,
    pub nested: PerRule<Option<i64>>,
}

/// The score texts of a file that write no integer: those under the flat keys and those of the
/// nested layout.
#[derive(Debug)]
pub struct FractionTexts {
    pub flat: PerRule<Option<String>>,
    pub nested: PerRule<Option<String>>,
}

/// The flat key of a rule's toggle.
pub open spec fn toggle_key(name: RuleName) -> Seq<char> {
    match name {
        RuleName::Punctuation => "punctuation_toggle"@,
        RuleName::Question => "question_toggle"@,
        RuleName::Length => "length_toggle"@,
        RuleName::Spam => "spam_toggle"@,
        RuleName::NoSpacing => "no_spacing_toggle"@,
        RuleName::Wordless => "wordless_toggle"@,
        RuleName::Emoji => "emoji_toggle"@,
        RuleName::Frequency => "frequency_toggle"@,
    }
}

/// The flat key of a rule's score.
pub open spec fn score_key(name: RuleName) -> Seq<char> {
    match name {
        RuleName::Punctuation => "punctuation_score"@,
        RuleName::Question => "question_score"@,
        RuleName::Length => "length_score"@,
        RuleName::Spam => "spam_score"@,
        RuleName::NoSpacing => "no_spacing_score"@,
        RuleName::Wordless => "wordless_score"@,
        RuleName::Emoji => "emoji_score"@,
        RuleName::Frequency => "frequency_score"@,
    }
}

/// The flat key of the frequency rule's interval.
pub open spec fn interval_key() -> Seq<char> {
    "frequency_interval_secs"@
}

/// The flat key of a rule's toggle.
fn toggle_key_str(name: RuleName) -> (r: &'static str)
    ensures
        r@ == toggle_key(name),
{
    match name {
        RuleName::Punctuation => "punctuation_toggle",
        RuleName::Question => "question_toggle",
        RuleName::Length => "length_toggle",
        RuleName::Spam => "spam_toggle",
        RuleName::NoSpacing => "no_spacing_toggle",
        RuleName::Wordless => "wordless_toggle",
        RuleName::Emoji => "emoji_toggle",
        RuleName::Frequency => "frequency_toggle",
    }
}

/// The flat key of a rule's score.
fn score_key_str(name: RuleName) -> (r: &'static str)
    ensures
        r@ == score_key(name),
{
    match name {
        RuleName::Punctuation => "punctuation_score",
        RuleName::Question => "question_score",
        RuleName::Length => "length_score",
        RuleName::Spam => "spam_score",
        RuleName::NoSpacing => "no_spacing_score",
        RuleName::Wordless => "wordless_score",
        RuleName::Emoji => "emoji_score",
        RuleName::Frequency => "frequency_score",
    }
}

/// The setting under `key`, if there is one.
pub open spec fn setting_at(entries: Map<Seq<char>, JsonView>, key: Seq<char>) -> Option<
    SettingView,
> {
    if entries.contains_key(key) {
        Some(settings::setting_in(entries[key]))
    } else {
        None
    }
}

/// `first` if it is there, and `second` otherwise.
pub open spec fn or<T>(first: Option<T>, second: T) -> T {
    match first {
        Some(t) => t,
        None => second,
    }
}

/// `rule` with what the flat keys of `entries` say of it.
pub open spec fn overlaid_rule(
    rule: Rule,
    name: RuleName,
    entries: Map<Seq<char>, JsonView>,
    fraction: Option<i64>,
) -> Rule {
    Rule {
        toggle: or(settings::toggle_reading(setting_at(entries, toggle_key(name))), rule.toggle),
        score: or(
            settings::score_reading(setting_at(entries, score_key(name)), fraction),
            rule.score,
        ),
    }
}

/// `cfg` with what the flat keys of `entries` say. A key that is absent, or that cannot be read,
/// leaves its value alone.
pub open spec fn overlaid(
    cfg: Config,
    entries: Map<Seq<char>, JsonView>,
    fractions: PerRule<Option<i64>>,
) -> Config {
    let on = |name: RuleName| overlaid_rule(cfg.rule(name), name, entries, fractions.at(name));
    with_rules(
        on,
        or(
            settings::interval_reading(setting_at(entries, interval_key())),
            cfg.frequency.interval_secs,
        ),
    )
}

/// The configuration whose rules are `on` and whose interval is `interval_secs`.
pub open spec fn with_rules(on: spec_fn(RuleName) -> Rule, interval_secs: u64) -> Config {
    Config {
        punctuation: on(RuleName::Punctuation),
        question: on(RuleName::Question),
        length: on(RuleName::Length),
        spam: on(RuleName::Spam),
        no_spacing: on(RuleName::NoSpacing),
        wordless: on(RuleName::Wordless),
        emoji: on(RuleName::Emoji),
        frequency: FrequencyRule {
            toggle: on(RuleName::Frequency).toggle,
            score: on(RuleName::Frequency).score,
            interval_secs,
        },
    }
}

/// The setting under `key`, if there is one.
fn setting(m: &serde_json::Map<String, serde_json::Value>, key: &str) -> (r: Option<Setting>)
    ensures
        settings::optional(
            match r {
                Some(s) => Some(&s),
                None => None,
            },
        ) == setting_at(json::members(*m), key@),
{
    match json::map_get(m, key) {
        Some(v) => Some(settings::setting_of(v)),
        None => None,
    }
}

/// `rule` with what the flat keys of `ms` say of it.
fn overlay_rule(
    rule: Rule,
    name: RuleName,
    ms: &serde_json::Map<String, serde_json::Value>,
    fraction: Option<i64>,
) -> (r: Rule)
    ensures
        r == overlaid_rule(rule, name, json::members(*ms), fraction),
{
    let toggle = setting(ms, toggle_key_str(name));
    let score = setting(ms, score_key_str(name));
    Rule {
        toggle: match settings::parse_toggle(toggle.as_ref()) {
            Some(t) => t,
            None => rule.toggle,
        },
        score: match settings::parse_score(score.as_ref(), fraction) {
            Some(s) => s,
            None => rule.score,
        },
    }
}

/// Overlays the flat keys of `ms` onto `cfg`. A key that is absent, or that cannot be read,
/// leaves its value alone.
pub fn apply_flat_overlay(
    cfg: Config,
    ms: &serde_json::Map<String, serde_json::Value>,
    fractions: &PerRule<Option<i64>>,
) -> (r: Config)
    ensures
        r == overlaid(cfg, json::members(*ms), *fractions),
{
    let frequency = overlay_rule(
        cfg.get(RuleName::Frequency),
        RuleName::Frequency,
        ms,
        fractions.frequency,
    );
    let interval = setting(ms, "frequency_interval_secs");
    Config {
        punctuation: overlay_rule(
            cfg.punctuation,
            RuleName::Punctuation,
            ms,
            fractions.punctuation,
        ),
        question: overlay_rule(cfg.question, RuleName::Question, ms, fractions.question),
        length: overlay_rule(cfg.length, RuleName::Length, ms, fractions.length),
        spam: overlay_rule(cfg.spam, RuleName::Spam, ms, fractions.spam),
        no_spacing: overlay_rule(cfg.no_spacing, RuleName::NoSpacing, ms, fractions.no_spacing),
        wordless: overlay_rule(cfg.wordless, RuleName::Wordless, ms, fractions.wordless),
        emoji: overlay_rule(cfg.emoji, RuleName::Emoji, ms, fractions.emoji),
        frequency: FrequencyRule {
            toggle: frequency.toggle,
            score: frequency.score,
            interval_secs: match settings::parse_u64(interval.as_ref()) {
                Some(secs) => secs,
                None => cfg.frequency.interval_secs,
            },
        },
    }
}

/// The members of the object under `key` of `root`, and none where there is no such object.
pub open spec fn object_at(root: JsonView, key: Seq<char>) -> Map<Seq<char>, JsonView> {
    match root {
        JsonView::Object(entries) => if entries.contains_key(key) {
            json::members_or_none(entries[key])
        } else {
            json::no_members()
        },
        _ => json::no_members(),
    }
}

/// Whether `root` has an object under `key`.
pub open spec fn has_object(root: JsonView, key: Seq<char>) -> bool {
    root matches JsonView::Object(entries) && entries.contains_key(key) && entries[key] is Object
}

/// The rule `name` of `cfg` as it is to be saved: what the flat keys of `ms` say, then what the
/// nested layout of `root` says, then `cfg` itself.
pub open spec fn settled_rule(
    cfg: Config,
    name: RuleName,
    root: JsonView,
    ms: Map<Seq<char>, JsonView>,
    fractions: Fractions,
) -> Rule {
    let nested = object_at(root, name.text());
    let rule = cfg.rule(name);
    Rule {
        toggle: or(
            settings::toggle_reading(setting_at(ms, toggle_key(name))),
            or(settings::toggle_reading(setting_at(nested, "toggle"@)), rule.toggle),
        ),
        score: or(
            settings::score_reading(setting_at(ms, score_key(name)), fractions.flat.at(name)),
            or(
                settings::score_reading(
                    setting_at(nested, "score"@),
                    fractions.nested.at(name),
                ),
                rule.score,
            ),
        ),
    }
}

/// `cfg` as it is to be saved.
pub open spec fn settled(
    cfg: Config,
    root: JsonView,
    ms: Map<Seq<char>, JsonView>,
    fractions: Fractions,
) -> Config {
    with_rules(
        |name: RuleName| settled_rule(cfg, name, root, ms, fractions),
        or(
            settings::interval_reading(setting_at(ms, interval_key())),
            or(
                settings::interval_reading(
                    setting_at(
                        object_at(root, RuleName::Frequency.text()),
                        "interval_secs"@,
                    ),
                ),
                cfg.frequency.interval_secs,
            ),
        ),
    )
}

/// `entries` with the flat keys of one rule.
pub open spec fn with_flat_rule(
    entries: Map<Seq<char>, JsonView>,
    name: RuleName,
    rule: Rule,
) -> Map<Seq<char>, JsonView> {
    entries.insert(toggle_key(name), JsonView::Bool(rule.toggle)).insert(
        score_key(name),
        json::signed_number(rule.score),
    )
}

/// The flat keys of `cfg`, and nothing else.
pub open spec fn flat_entries(cfg: Config) -> Map<Seq<char>, JsonView> {
    let e1 = with_flat_rule(json::no_members(), RuleName::Punctuation, cfg.punctuation);
    let e2 = with_flat_rule(e1, RuleName::Question, cfg.question);
    let e3 = with_flat_rule(e2, RuleName::Length, cfg.length);
    let e4 = with_flat_rule(e3, RuleName::Spam, cfg.spam);
    let e5 = with_flat_rule(e4, RuleName::NoSpacing, cfg.no_spacing);
    let e6 = with_flat_rule(e5, RuleName::Wordless, cfg.wordless);
    let e7 = with_flat_rule(e6, RuleName::Emoji, cfg.emoji);
    let e8 = with_flat_rule(e7, RuleName::Frequency, cfg.rule(RuleName::Frequency));
    e8.insert(
        interval_key(),
        JsonView::Number(NumberView::PosInt(cfg.frequency.interval_secs)),
    )
}

/// The object under `key` of `root`, if there is one.
fn object<'a>(root: &'a serde_json::Value, key: &str) -> (r: Option<
    &'a serde_json::Map<String, serde_json::Value>,
>)
    ensures
        r is Some <==> has_object(json::held(*root), key@),
        r matches Some(m) ==> json::members(*m) == object_at(json::held(*root), key@),
        r is None ==> object_at(json::held(*root), key@) == json::no_members(),
{
    match json::get(root, key) {
        Some(v) => json::as_object(v),
        None => None,
    }
}

/// The rule `name` of `cfg` as it is to be saved.
fn settle_rule(
    cfg: &Config,
    name: RuleName,
    root: &serde_json::Value,
    ms: &serde_json::Map<String, serde_json::Value>,
    fractions: &Fractions,
) -> (r: Rule)
    ensures
        r == settled_rule(*cfg, name, json::held(*root), json::members(*ms), *fractions),
{
    let own = cfg.get(name);
    let older = match object(root, name.as_str()) {
        Some(m) => {
            let toggle = setting(m, "toggle");
            let score = setting(m, "score");
            Rule {
                toggle: match settings::parse_toggle(toggle.as_ref()) {
                    Some(t) => t,
                    None => own.toggle,
                },
                score: match settings::parse_score(score.as_ref(), *fractions.nested.get(name)) {
                    Some(s) => s,
                    None => own.score,
                },
            }
        },
        None => own,
    };
    overlay_rule(older, name, ms, *fractions.flat.get(name))
}

/// Puts the flat keys of the rule `name` into `out`, as it is to be saved.
fn settle_and_put(
    out: &mut serde_json::Map<String, serde_json::Value>,
    cfg: &Config,
    name: RuleName,
    root: &serde_json::Value,
    ms: &serde_json::Map<String, serde_json::Value>,
    fractions: &Fractions,
)
    ensures
        json::members(*final(out)) == with_flat_rule(
            json::members(*old(out)),
            name,
            settled_rule(*cfg, name, json::held(*root), json::members(*ms), *fractions),
        ),
{
    let rule = settle_rule(cfg, name, root, ms, fractions);
    json::map_insert(out, toggle_key_str(name), json::value_of_bool(rule.toggle));
    json::map_insert(out, score_key_str(name), json::value_of_i64(rule.score));
}

/// The interval of `cfg` as it is to be saved.
fn settle_interval(
    cfg: &Config,
    root: &serde_json::Value,
    ms: &serde_json::Map<String, serde_json::Value>,
) -> (r: u64)
    ensures
        forall|fractions: Fractions|
            r == (#[trigger] settled(
                *cfg,
                json::held(*root),
                json::members(*ms),
                fractions,
            )).frequency.interval_secs,
{
    let flat = setting(ms, "frequency_interval_secs");
    if let Some(secs) = settings::parse_u64(flat.as_ref()) {
        return secs;
    }
    if let Some(m) = object(root, "frequency") {
        let nested = setting(m, "interval_secs");
        if let Some(secs) = settings::parse_u64(nested.as_ref()) {
            return secs;
        }
    }
    cfg.frequency.interval_secs
}

/// The flat keys to save for `cfg`. A setting that `ms` holds and that can be read is kept, one of
/// the nested layout of `root` is moved to its flat key, and what neither has comes from `cfg`.
pub fn flat_map_for_write(
    cfg: &Config,
    root: &serde_json::Value,
    ms: &serde_json::Map<String, serde_json::Value>,
    fractions: &Fractions,
) -> (r: serde_json::Map<String, serde_json::Value>)
    ensures
        json::members(r) == flat_entries(
            settled(*cfg, json::held(*root), json::members(*ms), *fractions),
        ),
{
    let interval_secs: u64 = settle_interval(cfg, root, ms);
    let mut out = json::map_new();
    settle_and_put(&mut out, cfg, RuleName::Punctuation, root, ms, fractions);
    settle_and_put(&mut out, cfg, RuleName::Question, root, ms, fractions);
    settle_and_put(&mut out, cfg, RuleName::Length, root, ms, fractions);
    settle_and_put(&mut out, cfg, RuleName::Spam, root, ms, fractions);
    settle_and_put(&mut out, cfg, RuleName::NoSpacing, root, ms, fractions);
    settle_and_put(&mut out, cfg, RuleName::Wordless, root, ms, fractions);
    settle_and_put(&mut out, cfg, RuleName::Emoji, root, ms, fractions);
    settle_and_put(&mut out, cfg, RuleName::Frequency, root, ms, fractions);
    json::map_insert(&mut out, "frequency_interval_secs", json::value_of_u64(interval_secs));
    out
}

/// What `module_specific` of `root` holds.
pub open spec fn specific(root: JsonView) -> Map<Seq<char>, JsonView> {
    object_at(root, "module_specific"@)
}

/// `root` after `cfg` was saved in it: `module_specific` holds the flat keys, and the rest is as
/// it was.
pub open spec fn saved_in(root: JsonView, cfg: Config, fractions: Fractions) -> JsonView {
    JsonView::Object(
        json::members_or_none(root).insert(
            "module_specific"@,
            JsonView::Object(flat_entries(settled(cfg, root, specific(root), fractions))),
        ),
    )
}

/// Whether a configuration can be saved in `root`: it is an object, or `null`, which becomes one.
pub open spec fn savable(root: JsonView) -> bool {
    root is Object || root is Null
}

/// The document that a file holds. A file that is absent or that cannot be read counts as an
/// empty object.
pub open spec fn stored(existing: Option<Seq<char>>) -> JsonView {
    or(
        match existing {
            Some(text) => json::json_reading(text),
            None => None,
        },
        JsonView::Object(json::no_members()),
    )
}

/// What an optional text holds.
pub open spec fn text_in(text: Option<&str>) -> Option<Seq<char>> {
    match text {
        Some(t) => Some(t@),
        None => None,
    }
}

/// Saves `cfg` in `root` under the flat keys, moves what the nested layout says to them, and
/// keeps the rest of the document.
pub fn update_document(root: &mut serde_json::Value, cfg: &Config, fractions: &Fractions)
    requires
        savable(json::held(*old(root))),
    ensures
        json::held(*final(root)) == saved_in(json::held(*old(root)), *cfg, *fractions),
{
    let flat = match object(root, "module_specific") {
        Some(ms) => flat_map_for_write(cfg, root, ms, fractions),
        None => flat_map_for_write(cfg, root, &json::map_new(), fractions),
    };
    json::set_member(root, "module_specific", json::value_of_object(flat));
}

/// The flat keys of a configuration hold booleans and integers.
proof fn flat_entries_are_plain(cfg: Config)
    ensures
        forall|key: Seq<char>|
            flat_entries(cfg).contains_key(key) ==> match #[trigger] flat_entries(cfg)[key] {
                JsonView::Bool(_) => true,
                JsonView::Number(n) => !(n is Fraction),
                _ => false,
            },
{
}

/// A document in which a configuration was saved nests no deeper than before, and has a fraction
/// only where it had one.
proof fn saving_keeps_document_plain(root: JsonView, cfg: Config, fractions: Fractions)
    requires
        json::nests_within(root, 127),
    ensures
        json::nests_within(saved_in(root, cfg, fractions), 127),
        json::integral(root, 127) ==> json::integral(saved_in(root, cfg, fractions), 127),
{
    reveal_with_fuel(json::nests_within, 3);
    reveal_with_fuel(json::integral, 3);
    let flat = flat_entries(settled(cfg, root, specific(root), fractions));
    flat_entries_are_plain(settled(cfg, root, specific(root), fractions));
    assert(json::nests_within(JsonView::Object(flat), 126));
    assert(json::integral(JsonView::Object(flat), 126));
}

/// The text of the configuration file after `cfg` was saved in it, where `existing` is its text
/// before, or nothing where the document of the file can hold no configuration.
pub fn updated_config_text(existing: Option<&str>, cfg: &Config, fractions: &Fractions) -> (r:
    Option<String>)
    ensures
        r is Some <==> savable(stored(text_in(existing))),
        r matches Some(text) ==> {
            let after = saved_in(stored(text_in(existing)), *cfg, *fractions);
            &&& text@ == json::json_pretty(after)
            &&& json::integral(stored(text_in(existing)), 127) ==> json::json_reading(text@)
                == Some(after)
            &&& json::json_reading(text@) is Some ==> json::alike(
                after,
                json::json_reading(text@)->0,
                127,
            )
            &&& json::json_reading(text@) is Some ==> forall|
                nested: Option<Config>,
                later: PerRule<Option<i64>>,
            |
                #[trigger] loaded(json::json_reading(text@), nested, later) == Some(
                    settled(
                        *cfg,
                        stored(text_in(existing)),
                        specific(stored(text_in(existing))),
                        *fractions,
                    ),
                )
        },
{
    let mut root = stored_document(existing);
    let ghost before = json::held(root);
    if json::as_object(&root).is_some() || json::is_null(&root) {
        update_document(&mut root, cfg, fractions);
        proof {
            saving_keeps_document_plain(before, *cfg, *fractions);
            assert forall|read: JsonView, nested: Option<Config>, later: PerRule<Option<i64>>|
                json::alike(
                    saved_in(before, *cfg, *fractions),
                    read,
                    127,
                ) implies #[trigger] loaded(Some(read), nested, later) == Some(
                settled(*cfg, before, specific(before), *fractions),
            ) by {
                saved_then_loaded(before, *cfg, *fractions, read, nested, later);
            }
        }
        json::print_pretty(&root)
    } else {
        None
    }
}

/// The configuration that a file's document holds: its flat keys over `nested`, or `nested`
/// alone in the older layout. `nested` is what the document's top level says as a configuration,
/// if it can be read as one.
pub open spec fn loaded(
    doc: Option<JsonView>,
    nested: Option<Config>,
    fractions: PerRule<Option<i64>>,
) -> Option<Config> {
    match doc {
        Some(root) => if has_object(root, "module_specific"@) {
            Some(overlaid(or(nested, crate::config::initial_config()), specific(root), fractions))
        } else {
            nested
        },
        None => None,
    }
}

/// The configuration that a document holds. `nested` is what its top level says as a
/// configuration, if it can be read as one.
pub fn config_in(
    root: &serde_json::Value,
    nested: Option<Config>,
    fractions: &PerRule<Option<i64>>,
) -> (r: Option<Config>)
    ensures
        r == loaded(Some(json::held(*root)), nested, *fractions),
{
    match object(root, "module_specific") {
        Some(ms) => {
            let base = match nested {
                Some(cfg) => cfg,
                None => default_config(),
            };
            Some(apply_flat_overlay(base, ms, fractions))
        },
        None => nested,
    }
}

/// The configuration that the text of a file holds. `nested` is what the document's top level
/// says as a configuration, if it can be read as one.
pub fn saved_config(text: &str, nested: Option<Config>, fractions: &PerRule<Option<i64>>) -> (r:
    Option<Config>)
    ensures
        r == loaded(json::json_reading(text@), nested, *fractions),
{
    match json::parse(text) {
        Some(root) => config_in(&root, nested, fractions),
        None => None,
    }
}

/// What an optional string holds.
pub open spec fn string_in(s: Option<String>) -> Option<Seq<char>> {
    match s {
        Some(t) => Some(t@),
        None => None,
    }
}

/// The flat score text of the rule `name` that is to be read as a fraction.
fn flat_text(ms: &serde_json::Map<String, serde_json::Value>, name: RuleName) -> (r: Option<String>)
    ensures
        string_in(r) == settings::fraction_text(setting_at(json::members(*ms), score_key(name))),
{
    let score = setting(ms, score_key_str(name));
    settings::score_fraction_text(score.as_ref())
}

/// The nested score text of the rule `name` that is to be read as a fraction.
fn nested_text(root: &serde_json::Value, name: RuleName) -> (r: Option<String>)
    ensures
        string_in(r) == settings::fraction_text(
            setting_at(object_at(json::held(*root), name.text()), "score"@),
        ),
{
    match object(root, name.as_str()) {
        Some(m) => {
            let score = setting(m, "score");
            settings::score_fraction_text(score.as_ref())
        },
        None => None,
    }
}

/// The flat score texts of `ms` that are to be read as fractions.
fn flat_texts(ms: &serde_json::Map<String, serde_json::Value>) -> (r: PerRule<Option<String>>)
    ensures
        forall|name: RuleName|
            string_in(#[trigger] r.at(name)) == settings::fraction_text(
                setting_at(json::members(*ms), score_key(name)),
            ),
{
    PerRule {
        punctuation: flat_text(ms, RuleName::Punctuation),
        question: flat_text(ms, RuleName::Question),
        length: flat_text(ms, RuleName::Length),
        spam: flat_text(ms, RuleName::Spam),
        no_spacing: flat_text(ms, RuleName::NoSpacing),
        wordless: flat_text(ms, RuleName::Wordless),
        emoji: flat_text(ms, RuleName::Emoji),
        frequency: flat_text(ms, RuleName::Frequency),
    }
}

/// The score texts of a document that write no integer, to be read as decimal fractions.
pub fn fraction_texts_in(root: &serde_json::Value) -> (r: FractionTexts)
    ensures
        forall|name: RuleName|
            string_in(#[trigger] r.flat.at(name)) == settings::fraction_text(
                setting_at(specific(json::held(*root)), score_key(name)),
            ),
        forall|name: RuleName|
            string_in(#[trigger] r.nested.at(name)) == settings::fraction_text(
                setting_at(object_at(json::held(*root), name.text()), "score"@),
            ),
{
    let flat = match object(root, "module_specific") {
        Some(ms) => flat_texts(ms),
        None => flat_texts(&json::map_new()),
    };
    FractionTexts {
        flat,
        nested: PerRule {
            punctuation: nested_text(root, RuleName::Punctuation),
            question: nested_text(root, RuleName::Question),
            length: nested_text(root, RuleName::Length),
            spam: nested_text(root, RuleName::Spam),
            no_spacing: nested_text(root, RuleName::NoSpacing),
            wordless: nested_text(root, RuleName::Wordless),
            emoji: nested_text(root, RuleName::Emoji),
            frequency: nested_text(root, RuleName::Frequency),
        },
    }
}

/// The document of a file. A file that is absent or that cannot be read counts as an empty
/// object.
fn stored_document(existing: Option<&str>) -> (r: serde_json::Value)
    ensures
        json::held(r) == stored(text_in(existing)),
        json::nests_within(json::held(r), 127),
{
    let read = match existing {
        Some(text) => json::parse(text),
        None => None,
    };
    match read {
        Some(root) => root,
        None => json::value_of_object(json::map_new()),
    }
}

/// The score texts of a file that write no integer, to be read as decimal fractions.
pub fn fraction_texts(existing: Option<&str>) -> (r: FractionTexts)
    ensures
        forall|name: RuleName|
            string_in(#[trigger] r.flat.at(name)) == settings::fraction_text(
                setting_at(specific(stored(text_in(existing))), score_key(name)),
            ),
        forall|name: RuleName|
            string_in(#[trigger] r.nested.at(name)) == settings::fraction_text(
                setting_at(object_at(stored(text_in(existing)), name.text()), "score"@),
            ),
{
    fraction_texts_in(&stored_document(existing))
}

/// The flat keys differ from one another, by their lengths and first characters.
proof fn flat_keys_differ()
    ensures
        forall|a: RuleName, b: RuleName| #[trigger]
            toggle_key(a) == #[trigger] toggle_key(b) ==> a == b,
        forall|a: RuleName, b: RuleName| #[trigger]
            score_key(a) == #[trigger] score_key(b) ==> a == b,
        forall|a: RuleName, b: RuleName| #[trigger] toggle_key(a) != #[trigger] score_key(b),
        forall|a: RuleName| #[trigger] toggle_key(a) != interval_key(),
        forall|a: RuleName| #[trigger] score_key(a) != interval_key(),
{
    reveal_strlit("punctuation_toggle");
    reveal_strlit("question_toggle");
    reveal_strlit("length_toggle");
    reveal_strlit("spam_toggle");
    reveal_strlit("no_spacing_toggle");
    reveal_strlit("wordless_toggle");
    reveal_strlit("emoji_toggle");
    reveal_strlit("frequency_toggle");
    reveal_strlit("punctuation_score");
    reveal_strlit("question_score");
    reveal_strlit("length_score");
    reveal_strlit("spam_score");
    reveal_strlit("no_spacing_score");
    reveal_strlit("wordless_score");
    reveal_strlit("emoji_score");
    reveal_strlit("frequency_score");
    reveal_strlit("frequency_interval_secs");
    assert forall|a: RuleName, b: RuleName| #[trigger]
        toggle_key(a) == #[trigger] toggle_key(b) implies a == b by {
        assert(toggle_key(a)[0] == toggle_key(b)[0]);
    }
    assert forall|a: RuleName, b: RuleName| #[trigger]
        score_key(a) == #[trigger] score_key(b) implies a == b by {
        assert(score_key(a)[0] == score_key(b)[0]);
    }
    assert forall|a: RuleName, b: RuleName| #[trigger] toggle_key(a) != #[trigger] score_key(b) by {
        if toggle_key(a) == score_key(b) {
            assert(toggle_key(a)[0] == score_key(b)[0]);
            assert(toggle_key(a).len() == score_key(b).len());
        }
    }
    assert(interval_key().len() == 23);
    assert forall|a: RuleName| #[trigger] toggle_key(a) != interval_key() by {
        assert(toggle_key(a).len() < 23);
    }
    assert forall|a: RuleName| #[trigger] score_key(a) != interval_key() by {
        assert(score_key(a).len() < 23);
    }
}

/// What `flat_entries` holds under each key.
proof fn flat_entries_hold(cfg: Config)
    ensures
        forall|name: RuleName|
            {
                &&& setting_at(flat_entries(cfg), #[trigger] toggle_key(name)) == Some(
                    SettingView::Bool(cfg.rule(name).toggle),
                )
                &&& setting_at(flat_entries(cfg), score_key(name)) == Some(
                    settings::setting_in(json::signed_number(cfg.rule(name).score)),
                )
            },
        setting_at(flat_entries(cfg), interval_key()) == Some(
            settings::setting_in(
                JsonView::Number(NumberView::PosInt(cfg.frequency.interval_secs)),
            ),
        ),
{
    flat_keys_differ();
    let entries = flat_entries(cfg);
    assert forall|name: RuleName|
        {
            &&& setting_at(entries, #[trigger] toggle_key(name)) == Some(
                SettingView::Bool(cfg.rule(name).toggle),
            )
            &&& setting_at(entries, score_key(name)) == Some(
                settings::setting_in(json::signed_number(cfg.rule(name).score)),
            )
        } by {
        match name {
            RuleName::Punctuation => {},
            RuleName::Question => {},
            RuleName::Length => {},
            RuleName::Spam => {},
            RuleName::NoSpacing => {},
            RuleName::Wordless => {},
            RuleName::Emoji => {},
            RuleName::Frequency => {},
        }
    }
}

/// The flat keys of a configuration say all of it: overlaid on any configuration, they give it
/// back.
pub proof fn flat_entries_say_all(base: Config, cfg: Config, fractions: PerRule<Option<i64>>)
    ensures
        overlaid(base, flat_entries(cfg), fractions) == cfg,
{
    flat_entries_hold(cfg);
    let entries = flat_entries(cfg);
    assert forall|name: RuleName|
        #[trigger] overlaid_rule(base.rule(name), name, entries, fractions.at(name)) == cfg.rule(
            name,
        ) by {
        assert(setting_at(entries, toggle_key(name)) == Some(
            SettingView::Bool(cfg.rule(name).toggle),
        ));
    }
    assert(overlaid(base, entries, fractions) =~= cfg);
}

/// What was saved is what is loaded, whatever the nested layout says, and whatever became of the
/// fractions elsewhere in the document.
pub proof fn saved_then_loaded(
    root: JsonView,
    cfg: Config,
    fractions: Fractions,
    read: JsonView,
    nested: Option<Config>,
    later: PerRule<Option<i64>>,
)
    requires
        json::alike(saved_in(root, cfg, fractions), read, 127),
    ensures
        loaded(Some(read), nested, later) == Some(settled(cfg, root, specific(root), fractions)),
{
    reveal_with_fuel(json::alike, 3);
    let settled_cfg = settled(cfg, root, specific(root), fractions);
    let flat = flat_entries(settled_cfg);
    let after = saved_in(root, cfg, fractions)->Object_0;
    flat_entries_are_plain(settled_cfg);
    let there = read->Object_0;
    assert(after.contains_key("module_specific"@));
    assert(json::alike(after["module_specific"@], there["module_specific"@], 126));
    assert(there.dom().contains("module_specific"@));
    assert(specific(read) =~= flat) by {
        assert forall|key: Seq<char>| flat.contains_key(key) implies specific(read)[key]
            == flat[key] by {
            assert(json::alike(flat[key], specific(read)[key], 125));
        }
    }
    flat_entries_say_all(or(nested, crate::config::initial_config()), settled_cfg, later);
}

/// Whether neither the flat keys nor the nested layout of `root` say anything that can be read.
pub open spec fn says_nothing(root: JsonView, fractions: Fractions) -> bool {
    &&& forall|name: RuleName|
        {
            let nested = object_at(root, #[trigger] name.text());
            &&& settings::toggle_reading(setting_at(specific(root), toggle_key(name))) is None
            &&& settings::toggle_reading(setting_at(nested, "toggle"@)) is None
            &&& settings::score_reading(
                setting_at(specific(root), score_key(name)),
                fractions.flat.at(name),
            ) is None
            &&& settings::score_reading(
                setting_at(nested, "score"@),
                fractions.nested.at(name),
            ) is None
        }
    &&& settings::interval_reading(setting_at(specific(root), interval_key())) is None
    &&& settings::interval_reading(
        setting_at(object_at(root, RuleName::Frequency.text()), "interval_secs"@),
    ) is None
}

/// A configuration that is saved in a document without settings is loaded as it was.
pub proof fn first_save_keeps_config(root: JsonView, cfg: Config, fractions: Fractions)
    requires
        says_nothing(root, fractions),
    ensures
        settled(cfg, root, specific(root), fractions) == cfg,
{
    assert forall|name: RuleName|
        #[trigger] settled_rule(cfg, name, root, specific(root), fractions) == cfg.rule(name) by {
        assert(object_at(root, name.text()) == object_at(root, name.text()));
    }
    assert(settled(cfg, root, specific(root), fractions) =~= cfg);
}

/// An empty object says nothing.
pub proof fn empty_document_says_nothing(fractions: Fractions)
    ensures
        says_nothing(JsonView::Object(json::no_members()), fractions),
{
}

/// Saving touches nothing but `module_specific`.
pub proof fn saving_keeps_the_rest(
    root: JsonView,
    cfg: Config,
    fractions: Fractions,
    key: Seq<char>,
)
    requires
        key != "module_specific"@,
    ensures
        saved_in(root, cfg, fractions) matches JsonView::Object(after) && {
            let before = json::members_or_none(root);
            &&& after.contains_key(key) == before.contains_key(key)
            &&& before.contains_key(key) ==> after[key] == before[key]
        },
{
}

/// A setting that was saved stays: saving another configuration over it changes nothing.
pub proof fn saved_settings_stay(
    root: JsonView,
    first: Config,
    second: Config,
    fractions: Fractions,
    later: Fractions,
)
    ensures
        saved_in(saved_in(root, first, fractions), second, later) == saved_in(
            root,
            first,
            fractions,
        ),
{
    let kept = settled(first, root, specific(root), fractions);
    let once = saved_in(root, first, fractions);
    let entries = flat_entries(kept);
    flat_entries_hold(kept);
    assert(specific(once) == entries);
    assert forall|name: RuleName|
        #[trigger] settled_rule(second, name, once, entries, later) == kept.rule(name) by {
        assert(setting_at(entries, toggle_key(name)) == Some(
            SettingView::Bool(kept.rule(name).toggle),
        ));
    }
    assert(settled(second, once, entries, later) =~= kept);
    assert(saved_in(once, second, later)->Object_0 =~= once->Object_0);
}

/// Keys that are absent or that cannot be read leave a configuration as it is.
pub proof fn unreadable_settings_are_ignored(
    cfg: Config,
    entries: Map<Seq<char>, JsonView>,
    fractions: PerRule<Option<i64>>,
)
    requires
        forall|name: RuleName|
            {
                &&& settings::toggle_reading(
                    setting_at(entries, #[trigger] toggle_key(name)),
                ) is None
                &&& settings::score_reading(
                    setting_at(entries, score_key(name)),
                    fractions.at(name),
                ) is None
            },
        settings::interval_reading(setting_at(entries, interval_key())) is None,
    ensures
        overlaid(cfg, entries, fractions) == cfg,
{
    assert forall|name: RuleName|
        #[trigger] overlaid_rule(cfg.rule(name), name, entries, fractions.at(name)) == cfg.rule(
            name,
        ) by {
        assert(settings::toggle_reading(setting_at(entries, toggle_key(name))) is None);
    }
    assert(overlaid(cfg, entries, fractions) =~= cfg);
}

/// A rule's flat keys are its name with `_toggle` and with `_score` behind it.
pub proof fn flat_keys_are_made_of_names(name: RuleName)
    ensures
        toggle_key(name) == name.text() + "_toggle"@,
        score_key(name) == name.text() + "_score"@,
{
    reveal_strlit("_toggle");
    reveal_strlit("_score");
    reveal_strlit("punctuation");
    reveal_strlit("question");
    reveal_strlit("length");
    reveal_strlit("spam");
    reveal_strlit("no_spacing");
    reveal_strlit("wordless");
    reveal_strlit("emoji");
    reveal_strlit("frequency");
    reveal_strlit("punctuation_toggle");
    reveal_strlit("question_toggle");
    reveal_strlit("length_toggle");
    reveal_strlit("spam_toggle");
    reveal_strlit("no_spacing_toggle");
    reveal_strlit("wordless_toggle");
    reveal_strlit("emoji_toggle");
    reveal_strlit("frequency_toggle");
    reveal_strlit("punctuation_score");
    reveal_strlit("question_score");
    reveal_strlit("length_score");
    reveal_strlit("spam_score");
    reveal_strlit("no_spacing_score");
    reveal_strlit("wordless_score");
    reveal_strlit("emoji_score");
    reveal_strlit("frequency_score");
    assert(toggle_key(name) =~= name.text() + "_toggle"@);
    assert(score_key(name) =~= name.text() + "_score"@);
}

/// Each value stands under the name of its rule.
pub proof fn values_stand_under_their_rules<T>(
    all: &PerRule<T>,
    name: RuleName,
    r: &T,
    of: spec_fn(RuleName) -> T,
)
    requires
        call_ensures(PerRule::<T>::get, (all, name), r),
        all.punctuation == of(RuleName::Punctuation),
        all.question == of(RuleName::Question),
        all.length == of(RuleName::Length),
        all.spam == of(RuleName::Spam),
        all.no_spacing == of(RuleName::NoSpacing),
        all.wordless == of(RuleName::Wordless),
        all.emoji == of(RuleName::Emoji),
        all.frequency == of(RuleName::Frequency),
    ensures
        *r == of(name),
        all.at(name) == of(name),
{
}

/// A rule's flat toggle is loaded from its own key alone: a boolean as it is, an integer of an
/// `i64` as on unless it is 0, a word for on or off in any ASCII case and with white space around
/// it. What is absent or anything else leaves the toggle as it was.
pub proof fn flat_toggles_are_loaded(
    cfg: Config,
    ms: &serde_json::Map<String, serde_json::Value>,
    fractions: &PerRule<Option<i64>>,
    r: Config,
    name: RuleName,
    n: i64,
)
    requires
        call_ensures(apply_flat_overlay, (cfg, ms, fractions), r),
    ensures
        ({
            let key = name.text() + "_toggle"@;
            let entries = json::members(*ms);
            let was = cfg.rule(name).toggle;
            let on = r.rule(name).toggle;
            &&& !entries.contains_key(key) ==> on == was
            &&& entries.contains_key(key) && entries[key] == json::signed_number(n) ==> (on <==> n
                != 0)
            &&& entries.contains_key(key) ==> match entries[key] {
                JsonView::Bool(b) => on == b,
                JsonView::Number(NumberView::PosInt(p)) => on == if p
                    <= 9_223_372_036_854_775_807 {
                    p > 0
                } else {
                    was
                },
                JsonView::Number(NumberView::NegInt(m)) => m < 0 ==> on,
                JsonView::Number(NumberView::Fraction(_)) => on == was,
                JsonView::Text(s) => {
                    let word = crate::text::ascii_lowered(crate::text::trimmed(s));
                    let ons = seq!["1"@, "true"@, "yes"@, "y"@, "on"@];
                    let offs = seq!["0"@, "false"@, "no"@, "n"@, "off"@];
                    &&& ons.contains(word) ==> on
                    &&& offs.contains(word) ==> !on
                    &&& !ons.contains(word) && !offs.contains(word) ==> on == was
                },
                JsonView::Null | JsonView::Array(_) | JsonView::Object(_) => on == was,
            }
        }),
{
    flat_keys_are_made_of_names(name);
    let key = toggle_key(name);
    let entries = json::members(*ms);
    assert(r.rule(name) == overlaid_rule(cfg.rule(name), name, entries, fractions.at(name)));
    if entries.contains_key(key) {
        if let JsonView::Text(s) = entries[key] {
            settings::switches_are_ten_words(
                crate::text::ascii_lowered(crate::text::trimmed(s)),
            );
        }
    }
}

/// A rule's flat score is loaded from its own key alone: an integer of an `i64`, one that a text
/// writes with white space around it, the fraction that was read of a text that writes none, and 1
/// or 0 of a boolean. What is absent or anything else leaves the score as it was.
pub proof fn flat_scores_are_loaded(
    cfg: Config,
    ms: &serde_json::Map<String, serde_json::Value>,
    fractions: &PerRule<Option<i64>>,
    r: Config,
    name: RuleName,
    n: i64,
)
    requires
        call_ensures(apply_flat_overlay, (cfg, ms, fractions), r),
    ensures
        ({
            let key = name.text() + "_score"@;
            let entries = json::members(*ms);
            let was = cfg.rule(name).score;
            let score = r.rule(name).score;
            &&& !entries.contains_key(key) ==> score == was
            &&& entries.contains_key(key) && entries[key] == json::signed_number(n) ==> score == n
            &&& entries.contains_key(key) ==> match entries[key] {
                JsonView::Bool(true) => score == 1,
                JsonView::Bool(false) => score == 0,
                JsonView::Number(NumberView::PosInt(p)) => if p <= 9_223_372_036_854_775_807 {
                    score == p
                } else {
                    score == was
                },
                JsonView::Number(NumberView::NegInt(m)) => score == m,
                JsonView::Number(NumberView::Fraction(_)) => score == was,
                JsonView::Text(s) => match (
                    crate::text::i64_reading(crate::text::trimmed(s)),
                    fractions.at(name),
                ) {
                    (Some(i), _) => score == i,
                    (None, Some(f)) => score == f,
                    (None, None) => score == was,
                },
                JsonView::Null | JsonView::Array(_) | JsonView::Object(_) => score == was,
            }
        }),
{
    flat_keys_are_made_of_names(name);
    let entries = json::members(*ms);
    assert(r.rule(name) == overlaid_rule(cfg.rule(name), name, entries, fractions.at(name)));
}

/// The interval is loaded from its own key alone: an integer that is not negative, or one that a
/// text writes with white space around it. What is absent or anything else leaves it as it was.
pub proof fn flat_intervals_are_loaded(
    cfg: Config,
    ms: &serde_json::Map<String, serde_json::Value>,
    fractions: &PerRule<Option<i64>>,
    r: Config,
)
    requires
        call_ensures(apply_flat_overlay, (cfg, ms, fractions), r),
    ensures
        ({
            let key = "frequency_interval_secs"@;
            let entries = json::members(*ms);
            let was = cfg.frequency.interval_secs;
            let secs = r.frequency.interval_secs;
            &&& !entries.contains_key(key) ==> secs == was
            &&& entries.contains_key(key) ==> match entries[key] {
                JsonView::Number(NumberView::PosInt(p)) => secs == p,
                JsonView::Number(NumberView::NegInt(m)) => m < 0 ==> secs == was,
                JsonView::Number(NumberView::Fraction(_)) => secs == was,
                JsonView::Text(s) => match (
                    crate::text::u64_reading(crate::text::trimmed(s)),
                    crate::text::i64_reading(crate::text::trimmed(s)),
                ) {
                    (Some(i), _) => secs == i,
                    (None, Some(i)) => if i >= 0 {
                        secs == i
                    } else {
                        secs == was
                    },
                    (None, None) => secs == was,
                },
                JsonView::Bool(_) | JsonView::Null | JsonView::Array(_) | JsonView::Object(
                    _,
                ) => secs == was,
            }
        }),
{
}

/// A file whose document has an object under `module_specific` says by its flat keys what differs
/// from the nested configuration, or from the default one where there is none. One whose document
/// has no such object says what the nested configuration does. One without a document says nothing.
pub proof fn files_are_loaded_by_layout(
    text: &str,
    nested: Option<Config>,
    fractions: &PerRule<Option<i64>>,
    r: Option<Config>,
)
    requires
        call_ensures(saved_config, (text, nested, fractions), r),
    ensures
        match json::json_reading(text@) {
            None => r is None,
            Some(JsonView::Object(top)) => if top.contains_key("module_specific"@)
                && top["module_specific"@] is Object {
                &&& r is Some
                &&& forall|
                    base: Config,
                    ms: &serde_json::Map<String, serde_json::Value>,
                    cfg: Config,
                |
                    #[trigger] call_ensures(apply_flat_overlay, (base, ms, fractions), cfg)
                        && json::members(*ms) == top["module_specific"@]->Object_0 && (if nested
                        is Some {
                        nested == Some(base)
                    } else {
                        call_ensures(default_config, (), base)
                    }) ==> r == Some(cfg)
            } else {
                r == nested
            },
            Some(_) => r == nested,
        },
{
}

/// The document that was read decides alone what a file says.
pub proof fn documents_are_loaded_like_files(
    text: &str,
    root: &serde_json::Value,
    nested: Option<Config>,
    fractions: &PerRule<Option<i64>>,
    r: Option<Config>,
    same: Option<Config>,
)
    requires
        call_ensures(saved_config, (text, nested, fractions), r),
        call_ensures(config_in, (root, nested, fractions), same),
    ensures
        json::json_reading(text@) == Some(json::held(*root)) ==> r == same,
{
}

/// What is to be saved is loaded from the flat keys over what the nested layout and the
/// configuration say: a flat key that can be read wins.
pub proof fn flat_keys_win_when_saving(
    cfg: Config,
    root: JsonView,
    ms: Map<Seq<char>, JsonView>,
    fractions: Fractions,
)
    ensures
        settled(cfg, root, ms, fractions) == overlaid(
            settled(cfg, root, Map::empty(), fractions),
            ms,
            fractions.flat,
        ),
{
    let older = settled(cfg, root, Map::empty(), fractions);
    assert forall|name: RuleName|
        #[trigger] settled_rule(cfg, name, root, ms, fractions) == overlaid_rule(
            older.rule(name),
            name,
            ms,
            fractions.flat.at(name),
        ) by {
        assert(older.rule(name) == settled_rule(cfg, name, root, Map::empty(), fractions));
    }
    assert(settled(cfg, root, ms, fractions) =~= overlaid(older, ms, fractions.flat));
}

/// The nested layout is read, when saving, like flat keys: `toggle` and `score` of the object under
/// a rule's name, and `interval_secs` of that under the frequency rule's, count as if they stood
/// under the flat keys of the rule, in `entries`. What it does not say comes from the
/// configuration.
pub proof fn nested_layout_is_read_like_flat_keys(
    cfg: Config,
    root: JsonView,
    fractions: Fractions,
    name: RuleName,
    entries: Map<Seq<char>, JsonView>,
)
    requires
        ({
            let nested = if root is Object && root->Object_0.contains_key(name.text())
                && root->Object_0[name.text()] is Object {
                root->Object_0[name.text()]->Object_0
            } else {
                Map::empty()
            };
            &&& entries.contains_key(name.text() + "_toggle"@) == nested.contains_key("toggle"@)
            &&& nested.contains_key("toggle"@) ==> entries[name.text() + "_toggle"@]
                == nested["toggle"@]
            &&& entries.contains_key(name.text() + "_score"@) == nested.contains_key("score"@)
            &&& nested.contains_key("score"@) ==> entries[name.text() + "_score"@]
                == nested["score"@]
            &&& entries.contains_key("frequency_interval_secs"@) == nested.contains_key(
                "interval_secs"@,
            )
            &&& nested.contains_key("interval_secs"@) ==> entries["frequency_interval_secs"@]
                == nested["interval_secs"@]
        }),
    ensures
        settled(cfg, root, Map::empty(), fractions).rule(name) == overlaid(
            cfg,
            entries,
            fractions.nested,
        ).rule(name),
        name == RuleName::Frequency ==> settled(
            cfg,
            root,
            Map::empty(),
            fractions,
        ).frequency.interval_secs == overlaid(
            cfg,
            entries,
            fractions.nested,
        ).frequency.interval_secs,
{
    flat_keys_are_made_of_names(name);
    let none = Map::<Seq<char>, JsonView>::empty();
    let older = settled(cfg, root, none, fractions);
    assert(older.rule(name) == settled_rule(cfg, name, root, none, fractions));
    assert(overlaid(cfg, entries, fractions.nested).rule(name) == overlaid_rule(
        cfg.rule(name),
        name,
        entries,
        fractions.nested.at(name),
    ));
    let nested = object_at(root, name.text());
    assert(setting_at(nested, "toggle"@) == setting_at(entries, toggle_key(name)));
    assert(setting_at(nested, "score"@) == setting_at(entries, score_key(name)));
    assert(setting_at(nested, "interval_secs"@) == setting_at(entries, interval_key()));
}

/// What the flat keys of a rule hold.
proof fn flat_values_by_key(cfg: Config, name: RuleName)
    ensures
        flat_entries(cfg).contains_key(toggle_key(name)),
        flat_entries(cfg)[toggle_key(name)] == JsonView::Bool(cfg.rule(name).toggle),
        flat_entries(cfg).contains_key(score_key(name)),
        flat_entries(cfg)[score_key(name)] == json::signed_number(cfg.rule(name).score),
{
    flat_keys_differ();
    match name {
        RuleName::Punctuation => {},
        RuleName::Question => {},
        RuleName::Length => {},
        RuleName::Spam => {},
        RuleName::NoSpacing => {},
        RuleName::Wordless => {},
        RuleName::Emoji => {},
        RuleName::Frequency => {},
    }
}

/// There are no flat keys but those of the rules and of the interval.
proof fn no_other_flat_keys(cfg: Config, key: Seq<char>)
    requires
        flat_entries(cfg).contains_key(key),
        key != interval_key(),
    ensures
        exists|of: RuleName| key == #[trigger] toggle_key(of) || key == score_key(of),
{
    assert(key == toggle_key(RuleName::Punctuation) || key == score_key(RuleName::Punctuation)
        || key == toggle_key(RuleName::Question) || key == score_key(RuleName::Question) || key
        == toggle_key(RuleName::Length) || key == score_key(RuleName::Length) || key == toggle_key(
        RuleName::Spam,
    ) || key == score_key(RuleName::Spam) || key == toggle_key(RuleName::NoSpacing) || key
        == score_key(RuleName::NoSpacing) || key == toggle_key(RuleName::Wordless) || key
        == score_key(RuleName::Wordless) || key == toggle_key(RuleName::Emoji) || key == score_key(
        RuleName::Emoji,
    ) || key == toggle_key(RuleName::Frequency) || key == score_key(RuleName::Frequency));
}

/// The map to save has the flat keys of every rule and of the interval, and no others, and holds
/// the toggles as booleans and the scores and the interval as integers.
pub proof fn saved_maps_have_the_flat_keys(
    cfg: &Config,
    root: &serde_json::Value,
    ms: &serde_json::Map<String, serde_json::Value>,
    fractions: &Fractions,
    r: serde_json::Map<String, serde_json::Value>,
    name: RuleName,
    key: Seq<char>,
)
    requires
        call_ensures(flat_map_for_write, (cfg, root, ms, fractions), r),
    ensures
        ({
            let out = json::members(r);
            let kept = settled(*cfg, json::held(*root), json::members(*ms), *fractions);
            let score = kept.rule(name).score;
            &&& out.contains_key(name.text() + "_toggle"@) && out[name.text() + "_toggle"@]
                == JsonView::Bool(kept.rule(name).toggle)
            &&& out.contains_key(name.text() + "_score"@) && out[name.text() + "_score"@]
                == JsonView::Number(
                if score >= 0 {
                    NumberView::PosInt(score as u64)
                } else {
                    NumberView::NegInt(score)
                },
            )
            &&& out.contains_key("frequency_interval_secs"@) && out["frequency_interval_secs"@]
                == JsonView::Number(NumberView::PosInt(kept.frequency.interval_secs))
            &&& out.contains_key(key) ==> key == "frequency_interval_secs"@ || exists|of: RuleName|
                key == #[trigger] of.text() + "_toggle"@ || key == of.text() + "_score"@
        }),
{
    let kept = settled(*cfg, json::held(*root), json::members(*ms), *fractions);
    flat_keys_are_made_of_names(name);
    flat_values_by_key(kept, name);
    if json::members(r).contains_key(key) && key != "frequency_interval_secs"@ {
        no_other_flat_keys(kept, key);
        let of = choose|of: RuleName| key == #[trigger] toggle_key(of) || key == score_key(of);
        flat_keys_are_made_of_names(of);
        assert(key == of.text() + "_toggle"@ || key == of.text() + "_score"@);
    }
}

/// Saving puts the flat keys under `module_specific`, made with what stood there before, and keeps
/// every other member of the document. A `null` counts as an object without members.
pub proof fn saving_replaces_one_member(
    root: &mut serde_json::Value,
    cfg: &Config,
    fractions: &Fractions,
    r: (),
    before: Map<Seq<char>, JsonView>,
)
    requires
        call_ensures(update_document, (root, cfg, fractions), r),
        json::held(*old(root)) == JsonView::Object(before) || json::held(*old(root)) is Null
            && before == Map::<Seq<char>, JsonView>::empty(),
    ensures
        json::held(*final(root)) matches JsonView::Object(after) && {
            let specific = if before.contains_key("module_specific"@)
                && before["module_specific"@] is Object {
                before["module_specific"@]->Object_0
            } else {
                Map::empty()
            };
            &&& after.remove("module_specific"@) == before.remove("module_specific"@)
            &&& after.contains_key("module_specific"@)
            &&& after["module_specific"@] == JsonView::Object(
                flat_entries(settled(*cfg, json::held(*old(root)), specific, *fractions)),
            )
        },
{
    let after = json::held(*final(root))->Object_0;
    assert(after.remove("module_specific"@) =~= before.remove("module_specific"@));
}

/// A file is written unless its document is a boolean, a number, a text or an array. A file that is
/// absent, or that holds no document, is written as if it held an empty object.
pub proof fn files_are_written_unless_they_hold_another_value(
    existing: Option<&str>,
    cfg: &Config,
    fractions: &Fractions,
    r: Option<String>,
)
    requires
        call_ensures(updated_config_text, (existing, cfg, fractions), r),
    ensures
        existing is None ==> r is Some,
        existing matches Some(text) ==> match json::json_reading(text@) {
            None => r is Some,
            Some(JsonView::Object(_)) | Some(JsonView::Null) => r is Some,
            Some(_) => r is None,
        },
        r matches Some(written) ==> written@ == json::json_pretty(
            saved_in(
                match existing {
                    Some(text) => match json::json_reading(text@) {
                        Some(doc) => doc,
                        None => JsonView::Object(Map::empty()),
                    },
                    None => JsonView::Object(Map::empty()),
                },
                *cfg,
                *fractions,
            ),
        ),
{
}

/// A score text of a file is to be read as a fraction exactly if it writes no integer: under the
/// rule's flat key, and under `score` of the object under its name.
pub proof fn fractions_are_asked_for_by_rule(
    root: &serde_json::Value,
    r: FractionTexts,
    name: RuleName,
    top: Map<Seq<char>, JsonView>,
)
    requires
        call_ensures(fraction_texts_in, (root,), r),
        json::held(*root) == JsonView::Object(top),
    ensures
        ({
            let flat = if top.contains_key("module_specific"@)
                && top["module_specific"@] is Object {
                top["module_specific"@]->Object_0
            } else {
                Map::empty()
            };
            let nested = if top.contains_key(name.text()) && top[name.text()] is Object {
                top[name.text()]->Object_0
            } else {
                Map::empty()
            };
            let key = name.text() + "_score"@;
            &&& r.flat.at(name) is Some <==> flat.contains_key(key) && (
            flat[key] matches JsonView::Text(s) && crate::text::i64_reading(
                crate::text::trimmed(s),
            ) is None)
            &&& r.flat.at(name) matches Some(t) ==> t@ == crate::text::trimmed(flat[key]->Text_0)
            &&& r.nested.at(name) is Some <==> nested.contains_key("score"@) && (
            nested["score"@] matches JsonView::Text(s) && crate::text::i64_reading(
                crate::text::trimmed(s),
            ) is None)
            &&& r.nested.at(name) matches Some(t) ==> t@ == crate::text::trimmed(
                nested["score"@]->Text_0,
            )
        }),
{
    flat_keys_are_made_of_names(name);
    assert(string_in(r.flat.at(name)) == settings::fraction_text(
        setting_at(specific(json::held(*root)), score_key(name)),
    ));
    assert(string_in(r.nested.at(name)) == settings::fraction_text(
        setting_at(object_at(json::held(*root), name.text()), "score"@),
    ));
}

/// The score texts of a file that are to be read as fractions are those of its document. A file
/// that is absent or that holds no document, or a document that is no object, has none.
pub proof fn fractions_of_files_are_those_of_documents(
    existing: Option<&str>,
    r: FractionTexts,
    root: &serde_json::Value,
    same: FractionTexts,
    name: RuleName,
)
    requires
        call_ensures(fraction_texts, (existing,), r),
        call_ensures(fraction_texts_in, (root,), same),
    ensures
        existing matches Some(text) ==> (json::json_reading(text@) == Some(json::held(*root)) ==> {
            &&& string_in(r.flat.at(name)) == string_in(same.flat.at(name))
            &&& string_in(r.nested.at(name)) == string_in(same.nested.at(name))
        }),
        existing is None || json::json_reading(existing->Some_0@) is None ==> r.flat.at(
            name,
        ) is None && r.nested.at(name) is None,
        !(json::held(*root) is Object) ==> same.flat.at(name) is None && same.nested.at(
            name,
        ) is None,
{
    assert(string_in(r.flat.at(name)) == settings::fraction_text(
        setting_at(specific(stored(text_in(existing))), score_key(name)),
    ));
    assert(string_in(r.nested.at(name)) == settings::fraction_text(
        setting_at(object_at(stored(text_in(existing)), name.text()), "score"@),
    ));
    assert(string_in(same.flat.at(name)) == settings::fraction_text(
        setting_at(specific(json::held(*root)), score_key(name)),
    ));
    assert(string_in(same.nested.at(name)) == settings::fraction_text(
        setting_at(object_at(json::held(*root), name.text()), "score"@),
    ));
}

} // verus!
