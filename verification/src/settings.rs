//! Settings as a configuration file holds them, and how they are read.

use crate::json::{self, JsonView};
use crate::text;
use vstd::prelude::*;

verus! {

/// What a stored setting holds, as far as a rule can read it. A number is held by its readings
/// as an `i64` and as a `u64`, where it has them; `Other` is `null`, an array or an object.
#[derive(Debug)]
pub enum Setting {
    Bool(bool),
    Number { signed: Option<i64>, unsigned: Option<u64> },
    Text(String),
    Other,
}

/// What a `Setting` holds.
pub enum SettingView {
    Bool(bool),
    Number { signed: Option<i64>, unsigned: Option<u64> },
    Text(Seq<char>),
    Other,
}

impl View for Setting {
    type V = SettingView;

    open spec fn view(&self) -> SettingView {
        match *self {
            Setting::Bool(b) => SettingView::Bool(b),
            Setting::Number { signed, unsigned } => SettingView::Number { signed, unsigned },
            Setting::Text(s) => SettingView::Text(s@),
            Setting::Other => SettingView::Other,
        }
    }
}

/// What a setting that may be absent holds.
pub open spec fn optional(v: Option<&Setting>) -> Option<SettingView> {
    match v {
        Some(setting) => Some(setting@),
        None => None,
    }
}

/// The setting that a JSON value makes.
pub open spec fn setting_in(v: JsonView) -> SettingView {
    match v {
        JsonView::Bool(b) => SettingView::Bool(b),
        JsonView::Number(n) => SettingView::Number {
            signed: json::signed_part(n),
            unsigned: json::unsigned_part(n),
        },
        JsonView::Text(s) => SettingView::Text(s),
        _ => SettingView::Other,
    }
}

/// The setting that a JSON value makes.
pub fn setting_of(v: &serde_json::Value) -> (r: Setting)
    ensures
        r@ == setting_in(json::held(*v)),
{
    if let Some(b) = json::as_bool(v) {
        Setting::Bool(b)
    } else if json::is_number(v) {
        Setting::Number { signed: json::as_i64(v), unsigned: json::as_u64(v) }
    } else if let Some(s) = json::as_str(v) {
        Setting::Text(s.to_owned())
    } else {
        Setting::Other
    }
}

/// Whether `word` means on, off, or neither.
pub open spec fn switch(word: Seq<char>) -> Option<bool> {
    if word == "1"@ || word == "true"@ || word == "yes"@ || word == "y"@ || word == "on"@ {
        Some(true)
    } else if word == "0"@ || word == "false"@ || word == "no"@ || word == "n"@ || word == "off"@ {
        Some(false)
    } else {
        None
    }
}

/// `v` as a toggle: a boolean, an integer other than 0, or a word for on or off in any ASCII
/// case, with white space around it ignored.
pub open spec fn toggle_reading(v: Option<SettingView>) -> Option<bool> {
    match v {
        Some(SettingView::Bool(b)) => Some(b),
        Some(SettingView::Number { signed: Some(n), .. }) => Some(n != 0),
        Some(SettingView::Text(s)) => switch(text::ascii_lowered(text::trimmed(s))),
        _ => None,
    }
}

/// `v` as a score: an integer, a text that writes one with white space around it ignored, or a
/// boolean as 0 or 1. For a text that writes no integer, `fraction` is the score.
pub open spec fn score_reading(v: Option<SettingView>, fraction: Option<i64>) -> Option<i64> {
    match v {
        Some(SettingView::Number { signed, .. }) => signed,
        Some(SettingView::Text(s)) => match text::i64_reading(text::trimmed(s)) {
            Some(n) => Some(n),
            None => fraction,
        },
        Some(SettingView::Bool(b)) => Some(
            if b {
                1
            } else {
                0
            },
        ),
        _ => None,
    }
}

/// `n` as a `u64`, if it is not negative.
pub open spec fn not_negative(n: Option<i64>) -> Option<u64> {
    match n {
        Some(i) => if i >= 0 {
            Some(i as u64)
        } else {
            None
        },
        None => None,
    }
}

/// `v` as a number of seconds: an integer that is not negative, or a text that writes one with
/// white space around it ignored.
pub open spec fn interval_reading(v: Option<SettingView>) -> Option<u64> {
    match v {
        Some(SettingView::Number { signed, unsigned }) => match unsigned {
            Some(n) => Some(n),
            None => not_negative(signed),
        },
        Some(SettingView::Text(s)) => match text::u64_reading(text::trimmed(s)) {
            Some(n) => Some(n),
            None => not_negative(text::i64_reading(text::trimmed(s))),
        },
        _ => None,
    }
}

/// The text of which a score is to be read as a fraction: the trimmed text of a setting that
/// writes no integer.
pub open spec fn fraction_text(v: Option<SettingView>) -> Option<Seq<char>> {
    match v {
        Some(SettingView::Text(s)) => if text::i64_reading(text::trimmed(s)) is None {
            Some(text::trimmed(s))
        } else {
            None
        },
        _ => None,
    }
}

/// Reads a toggle. What is neither on nor off, such as `"1t"`, reads as nothing, so that callers
/// fall back to a default.
pub fn parse_toggle(v: Option<&Setting>) -> (r: Option<bool>)
    ensures
        r == toggle_reading(optional(v)),
{
    match v {
        Some(Setting::Bool(b)) => Some(*b),
        Some(Setting::Number { signed, .. }) => match signed {
            Some(n) => Some(*n != 0),
            None => None,
        },
        Some(Setting::Text(s)) => {
            let t = text::trimmed_ascii_lower(s.as_str());
            if text::same_chars(&t, "1") || text::same_chars(&t, "true") || text::same_chars(
                &t,
                "yes",
            ) || text::same_chars(&t, "y") || text::same_chars(&t, "on") {
                Some(true)
            } else if text::same_chars(&t, "0") || text::same_chars(&t, "false")
                || text::same_chars(&t, "no") || text::same_chars(&t, "n") || text::same_chars(
                &t,
                "off",
            ) {
                Some(false)
            } else {
                None
            }
        },
        _ => None,
    }
}

/// Reads a score. `fraction` is the setting's text read as a decimal fraction and cut to an
/// integer, where it can be; only a text that writes no integer is read so.
pub fn parse_score(v: Option<&Setting>, fraction: Option<i64>) -> (r: Option<i64>)
    ensures
        r == score_reading(optional(v), fraction),
{
    match v {
        Some(Setting::Number { signed, .. }) => *signed,
        Some(Setting::Text(s)) => match text::read_i64(text::trim(s.as_str())) {
            Some(n) => Some(n),
            None => fraction,
        },
        Some(Setting::Bool(b)) => if *b {
            Some(1)
        } else {
            Some(0)
        },
        _ => None,
    }
}

/// `n` as a `u64`, if it is not negative.
fn unsigned_part(n: Option<i64>) -> (r: Option<u64>)
    ensures
        r == not_negative(n),
{
    match n {
        Some(i) => if i >= 0 {
            Some(i as u64)
        } else {
            None
        },
        None => None,
    }
}

/// Reads an interval.
pub fn parse_u64(v: Option<&Setting>) -> (r: Option<u64>)
    ensures
        r == interval_reading(optional(v)),
{
    match v {
        Some(Setting::Number { signed, unsigned }) => match unsigned {
            Some(n) => Some(*n),
            None => unsigned_part(*signed),
        },
        Some(Setting::Text(s)) => {
            let t = text::trim(s.as_str());
            match text::read_u64(t) {
                Some(n) => Some(n),
                None => unsigned_part(text::read_i64(t)),
            }
        },
        _ => None,
    }
}

/// The text that `parse_score` needs read as a fraction, if it needs one.
pub fn score_fraction_text(v: Option<&Setting>) -> (r: Option<String>)
    ensures
        r is Some <==> fraction_text(optional(v)) is Some,
        r matches Some(t) ==> fraction_text(optional(v)) == Some(t@),
{
    match v {
        Some(Setting::Text(s)) => {
            let t = text::trim(s.as_str());
            if text::read_i64(t).is_none() {
                Some(t.to_owned())
            } else {
                None
            }
        },
        _ => None,
    }
}

/// The words for on and off, in lower case, tell on from off.
pub proof fn switches_are_ten_words(word: Seq<char>)
    ensures
        switch(word) == Some(true) <==> seq!["1"@, "true"@, "yes"@, "y"@, "on"@].contains(word),
        switch(word) == Some(false) <==> seq!["0"@, "false"@, "no"@, "n"@, "off"@].contains(word),
{
    let on = seq!["1"@, "true"@, "yes"@, "y"@, "on"@];
    let off = seq!["0"@, "false"@, "no"@, "n"@, "off"@];
    assert(on[0] == "1"@ && on[1] == "true"@ && on[2] == "yes"@ && on[3] == "y"@ && on[4]
        == "on"@);
    assert(off[0] == "0"@ && off[1] == "false"@ && off[2] == "no"@ && off[3] == "n"@ && off[4]
        == "off"@);
    reveal_strlit("1");
    reveal_strlit("true");
    reveal_strlit("yes");
    reveal_strlit("y");
    reveal_strlit("on");
    reveal_strlit("0");
    reveal_strlit("false");
    reveal_strlit("no");
    reveal_strlit("n");
    reveal_strlit("off");
    assert("1"@[0] == '1' && "true"@[0] == 't' && "yes"@[0] == 'y' && "y"@[0] == 'y' && "on"@[0]
        == 'o' && "on"@[1] == 'n');
    assert("0"@[0] == '0' && "false"@[0] == 'f' && "no"@[0] == 'n' && "n"@[0] == 'n' && "off"@[0]
        == 'o' && "off"@[1] == 'f');
}

/// A toggle is a boolean as it is, a number as on unless it is 0, and a text by the word it holds,
/// whatever its ASCII case and the white space around it. Anything else is none.
pub proof fn toggles_are_switched(v: Option<&Setting>, r: Option<bool>)
    requires
        call_ensures(parse_toggle, (v,), r),
    ensures
        v is None ==> r is None,
        v matches Some(setting) ==> match *setting {
            Setting::Bool(b) => r == Some(b),
            Setting::Number { signed, .. } => {
                &&& r is None <==> signed is None
                &&& r == Some(false) <==> signed == Some(0i64)
            },
            Setting::Text(s) => {
                let word = text::ascii_lowered(text::trimmed(s@));
                &&& r == Some(true) <==> seq!["1"@, "true"@, "yes"@, "y"@, "on"@].contains(word)
                &&& r == Some(false) <==> seq!["0"@, "false"@, "no"@, "n"@, "off"@].contains(word)
            },
            Setting::Other => r is None,
        },
{
    if let Some(setting) = v {
        if let Setting::Text(s) = *setting {
            switches_are_ten_words(text::ascii_lowered(text::trimmed(s@)));
        }
    }
}

/// A score is the number that a setting holds or that its text writes, white space around it
/// ignored; of a text that writes none, the fraction that was read of it; and 1 or 0 of a boolean.
pub proof fn scores_are_read_as_numbers(v: Option<&Setting>, fraction: Option<i64>, r: Option<i64>)
    requires
        call_ensures(parse_score, (v, fraction), r),
    ensures
        v is None ==> r is None,
        v matches Some(setting) ==> match *setting {
            Setting::Bool(true) => r == Some(1i64),
            Setting::Bool(false) => r == Some(0i64),
            Setting::Number { signed, .. } => r == signed,
            Setting::Text(s) => {
                let written = text::i64_reading(text::trimmed(s@));
                &&& written is Some ==> r == written
                &&& written is None ==> r == fraction
            },
            Setting::Other => r is None,
        },
{
}

/// An interval is the number that a setting holds or that its text writes, white space around it
/// ignored, if it is not negative. Anything else is none.
pub proof fn intervals_are_not_negative(v: Option<&Setting>, r: Option<u64>)
    requires
        call_ensures(parse_u64, (v,), r),
    ensures
        v is None ==> r is None,
        v matches Some(setting) ==> match *setting {
            Setting::Number { signed, unsigned } => {
                &&& unsigned is Some ==> r == unsigned
                &&& unsigned is None ==> match signed {
                    Some(n) => (r is Some <==> n >= 0) && (r matches Some(secs) ==> secs == n),
                    None => r is None,
                }
            },
            Setting::Text(s) => {
                let t = text::trimmed(s@);
                &&& text::u64_reading(t) is Some ==> r == text::u64_reading(t)
                &&& text::u64_reading(t) is None ==> match text::i64_reading(t) {
                    Some(n) => (r is Some <==> n >= 0) && (r matches Some(secs) ==> secs == n),
                    None => r is None,
                }
            },
            Setting::Bool(_) => r is None,
            Setting::Other => r is None,
        },
{
}

/// A text is to be read as a fraction exactly if it writes no integer, and without the white space
/// around it.
pub proof fn fractions_are_texts_without_integer(v: Option<&Setting>, r: Option<String>)
    requires
        call_ensures(score_fraction_text, (v,), r),
    ensures
        r is Some <==> (v matches Some(setting) && (*setting matches Setting::Text(s)
            && text::i64_reading(text::trimmed(s@)) is None)),
        r matches Some(t) ==> (v matches Some(setting) && (*setting matches Setting::Text(s) && t@
            == text::trimmed(s@))),
{
}

/// A setting holds what the JSON value does: a number as far as an `i64` and a `u64` hold it, and
/// no fraction.
pub proof fn settings_hold_what_json_does(v: &serde_json::Value, r: Setting)
    requires
        call_ensures(setting_of, (v,), r),
    ensures
        match json::held(*v) {
            JsonView::Bool(b) => r == Setting::Bool(b),
            JsonView::Number(json::NumberView::PosInt(n)) => r matches Setting::Number {
                signed,
                unsigned,
            } && unsigned == Some(n) && (signed is Some <==> n <= 9_223_372_036_854_775_807) && (
            signed matches Some(i) ==> i == n),
            JsonView::Number(json::NumberView::NegInt(n)) => r matches Setting::Number {
                signed,
                unsigned,
            } && unsigned is None && signed == Some(n),
            JsonView::Number(json::NumberView::Fraction(_)) => r matches Setting::Number {
                signed,
                unsigned,
            } && unsigned is None && signed is None,
            JsonView::Text(s) => r matches Setting::Text(t) && t@ == s,
            JsonView::Null | JsonView::Array(_) | JsonView::Object(_) => r is Other,
        },
{
}

} // verus!
