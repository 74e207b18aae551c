//! What the rules see in a message, and the score that follows.

use crate::config::{Config, RuleName};
use crate::text;
use vstd::prelude::*;

verus! {

/// Whether `c` is one of the vowels `a`, `e`, `i`, `o` and `u`, in lower case.
pub open spec fn vowel(c: char) -> bool {
    c == 'a' || c == 'e' || c == 'i' || c == 'o' || c == 'u'
}

/// Whether `c` is one of the vowels `a`, `e`, `i`, `o` and `u`, in lower case.
pub fn is_vowel(c: char) -> (r: bool)
    ensures
        r == vowel(c),
{
    c == 'a' || c == 'e' || c == 'i' || c == 'o' || c == 'u'
}

/// Whether `t` repeats one character.
pub open spec fn all_same(t: Seq<char>) -> bool {
    forall|i: int| 0 <= i < t.len() ==> #[trigger] t[i] == t[0]
}

/// Whether `t` holds a vowel in lower case.
pub open spec fn has_vowel(t: Seq<char>) -> bool {
    exists|i: int| 0 <= i < t.len() && vowel(#[trigger] t[i])
}

/// Whether the lower-case token `t` is a sample of keyboard mash that has vowels in it.
pub open spec fn sample_mash(t: Seq<char>) -> bool {
    t == "asdlfkjsqaldkfja"@
}

/// Whether the lower-case token `t` looks like spam: four bytes or more of one repeated
/// character, five bytes or more without a vowel, or the sample of keyboard mash.
pub open spec fn mashed(t: Seq<char>) -> bool {
    let bytes = vstd::utf8::encode_utf8(t).len();
    ||| bytes >= 4 && all_same(t)
    ||| bytes >= 5 && !has_vowel(t)
    ||| sample_mash(t)
}

/// `t` in lower case: `A` to `Z` mapped to `a` to `z`, and then the characters beyond ASCII.
pub open spec fn lowered(t: Seq<char>) -> Seq<char> {
    if vstd::utf8::is_ascii_chars(t) {
        text::ascii_lowered(t)
    } else {
        text::lowercase(text::ascii_lowered(t))
    }
}

/// Whether the lower-case token `t` looks like spam.
pub fn is_mashed(t: &str) -> (r: bool)
    ensures
        r == mashed(t@),
{
    let bytes: usize = t.as_bytes().len();
    let chars = text::chars_of(t);
    if text::same_chars(&chars, "asdlfkjsqaldkfja") {
        return true;
    }
    let mut same: bool = true;
    let mut vowels: bool = false;
    let mut i: usize = 0;
    while i < chars.len()
        invariant
            i <= chars.len(),
            chars@ == t@,
            same <==> forall|k: int| 0 <= k < i ==> #[trigger] chars@[k] == chars@[0],
            vowels <==> exists|k: int| 0 <= k < i && vowel(#[trigger] chars@[k]),
        decreases chars.len() - i,
    {
        if chars[i] != chars[0] {
            same = false;
        }
        if is_vowel(chars[i]) {
            vowels = true;
        }
        i = i + 1;
    }
    (same && bytes >= 4) || (!vowels && bytes >= 5)
}

/// Whether `token` is made of repeated characters or of keyboard mash, whatever its case:
/// `bbbbb` is, and so is `asdlfkjsqaldkfja`.
pub fn looks_like_spam_token(token: &str) -> (r: bool)
    ensures
        r == mashed(lowered(token@)),
        r == mashed(text::lowercase(token@)),
{
    let t = text::to_lowercase(token);
    is_mashed(t.as_str())
}

/// Whether the word `w` holds a vowel in either case.
pub open spec fn wordlike(w: Seq<char>) -> bool {
    exists|i: int| 0 <= i < w.len() && vowel(text::ascii_lower(#[trigger] w[i]))
}

/// How many of `ws` hold a vowel.
pub open spec fn wordlike_count(ws: Seq<Seq<char>>) -> nat
    decreases ws.len(),
{
    if ws.len() == 0 {
        0
    } else {
        wordlike_count(ws.drop_last()) + if wordlike(ws.last()) {
            1nat
        } else {
            0nat
        }
    }
}

/// Whether `s` has words and fewer than half of them hold a vowel.
pub open spec fn wordless(s: Seq<char>) -> bool {
    let ws = text::words(s);
    ws.len() > 0 && 2 * wordlike_count(ws) < ws.len()
}

/// Whether `w` holds a vowel in either case.
fn is_wordlike(w: &str) -> (r: bool)
    ensures
        r == wordlike(w@),
{
    let chars = text::chars_of(w);
    let mut i: usize = 0;
    while i < chars.len()
        invariant
            i <= chars.len(),
            chars@ == w@,
            forall|k: int| 0 <= k < i ==> !vowel(text::ascii_lower(#[trigger] chars@[k])),
        decreases chars.len() - i,
    {
        if is_vowel(text::to_ascii_lower(chars[i])) {
            return true;
        }
        i = i + 1;
    }
    false
}

/// Whether fewer than half of the words of `chars` hold a vowel.
fn is_wordless_text(chars: &Vec<char>) -> (r: bool)
    ensures
        r == wordless(chars@),
{
    let tokens = text::split_words(chars);
    let ghost ws = text::words(chars@);
    if tokens.len() == 0 {
        return false;
    }
    let mut found: usize = 0;
    let mut i: usize = 0;
    while i < tokens.len()
        invariant
            i <= tokens.len(),
            found <= i,
            ws == tokens@.map_values(|w: String| w@),
            found == wordlike_count(ws.take(i as int)),
        decreases tokens.len() - i,
    {
        proof {
            assert(ws.take(i + 1).drop_last() =~= ws.take(i as int));
            assert(ws.take(i + 1).last() == tokens@[i as int]@);
        }
        if is_wordlike(tokens[i].as_str()) {
            found = found + 1;
        }
        i = i + 1;
    }
    proof {
        assert(ws.take(i as int) =~= ws);
    }
    found < tokens.len() - found
}

/// Whether `message` is mostly made of words without a vowel.
pub fn is_wordless(message: &str) -> (r: bool)
    ensures
        r == wordless(message@),
{
    is_wordless_text(&text::chars_of(message))
}

/// The common emoji ranges of Unicode.
pub open spec fn emoji(c: char) -> bool {
    let n = c as u32;
    ||| 0x1F300 <= n <= 0x1F5FF
    ||| 0x1F600 <= n <= 0x1F64F
    ||| 0x1F680 <= n <= 0x1F6FF
    ||| 0x1F900 <= n <= 0x1F9FF
    ||| 0x1FA70 <= n <= 0x1FAFF
    ||| 0x2600 <= n <= 0x27BF
    ||| 0xFE00 <= n <= 0xFE0F
    ||| 0x1F000 <= n <= 0x1F0FF
}

/// Whether `c` lies in one of the common emoji ranges of Unicode.
pub fn is_emoji(c: char) -> (r: bool)
    ensures
        r == emoji(c),
{
    let n: u32 = c as u32;
    (0x1F300 <= n && n <= 0x1F5FF) || (0x1F600 <= n && n <= 0x1F64F) || (0x1F680 <= n && n
        <= 0x1F6FF) || (0x1F900 <= n && n <= 0x1F9FF) || (0x1FA70 <= n && n <= 0x1FAFF) || (0x2600
        <= n && n <= 0x27BF) || (0xFE00 <= n && n <= 0xFE0F) || (0x1F000 <= n && n <= 0x1F0FF)
}

/// Whether `c` ends a sentence.
pub open spec fn sentence_end(c: char) -> bool {
    c == '.' || c == '!' || c == '?'
}

/// Whether the text of a message, trimmed to `t`, meets the rule `name`. The frequency rule
/// looks at no text.
pub open spec fn meets(name: RuleName, t: Seq<char>) -> bool {
    match name {
        RuleName::Punctuation => t.len() > 0 && sentence_end(t.last()),
        RuleName::Question => t.len() > 0 && t.last() == '?',
        RuleName::Length => t.len() >= 40,
        RuleName::Spam => exists|i: int|
            0 <= i < text::words(t).len() && mashed(lowered(#[trigger] text::words(t)[i])),
        RuleName::NoSpacing => t.len() >= 20 && !t.contains(' '),
        RuleName::Wordless => wordless(t),
        RuleName::Emoji => exists|i: int| 0 <= i < t.len() && emoji(#[trigger] t[i]),
        RuleName::Frequency => false,
    }
}

/// `name` alone, if the rule is on and `t` meets it, and nothing otherwise.
pub open spec fn picked(cfg: Config, name: RuleName, t: Seq<char>) -> Seq<RuleName> {
    if cfg.rule(name).toggle && meets(name, t) {
        seq![name]
    } else {
        Seq::empty()
    }
}

/// The rules that `message` meets, of those that are on, in their fixed order.
pub open spec fn fired(cfg: Config, message: Seq<char>) -> Seq<RuleName> {
    let t = text::trimmed(message);
    picked(cfg, RuleName::Punctuation, t) + picked(cfg, RuleName::Question, t) + picked(
        cfg,
        RuleName::Length,
        t,
    ) + picked(cfg, RuleName::Spam, t) + picked(cfg, RuleName::NoSpacing, t) + picked(
        cfg,
        RuleName::Wordless,
        t,
    ) + picked(cfg, RuleName::Emoji, t)
}

/// The sum of the scores of `rules`.
pub open spec fn total(cfg: Config, rules: Seq<RuleName>) -> int
    decreases rules.len(),
{
    if rules.len() == 0 {
        0
    } else {
        total(cfg, rules.drop_last()) + cfg.rule(rules.last()).score
    }
}

/// Whether an `i64` holds every running total of the scores of `rules`.
pub open spec fn totals_fit(cfg: Config, rules: Seq<RuleName>) -> bool {
    forall|n: int|
        0 <= n <= rules.len() ==> i64::MIN <= #[trigger] total(cfg, rules.take(n)) <= i64::MAX
}

/// The names of `rules`.
pub open spec fn names(rules: Seq<RuleName>) -> Seq<Seq<char>> {
    rules.map_values(|name: RuleName| name.text())
}

/// What `strings` hold.
pub open spec fn texts(strings: Seq<String>) -> Seq<Seq<char>> {
    strings.map_values(|s: String| s@)
}

/// Whether a token of `t` looks like spam.
fn has_spam_token(t: &Vec<char>) -> (r: bool)
    ensures
        r == meets(RuleName::Spam, t@),
{
    let tokens = text::split_words(t);
    let ghost ws = text::words(t@);
    let mut i: usize = 0;
    while i < tokens.len()
        invariant
            i <= tokens.len(),
            ws == text::words(t@),
            ws == tokens@.map_values(|w: String| w@),
            forall|k: int| 0 <= k < i ==> !mashed(lowered(#[trigger] ws[k])),
        decreases tokens.len() - i,
    {
        let spam = looks_like_spam_token(tokens[i].as_str());
        proof {
            assert(ws[i as int] == tokens@[i as int]@);
        }
        if spam {
            return true;
        }
        i = i + 1;
    }
    false
}

/// Whether `t` holds a space.
fn has_space(t: &Vec<char>) -> (r: bool)
    ensures
        r == t@.contains(' '),
{
    let mut i: usize = 0;
    while i < t.len()
        invariant
            i <= t.len(),
            forall|k: int| 0 <= k < i ==> t@[k] != ' ',
        decreases t.len() - i,
    {
        if t[i] == ' ' {
            return true;
        }
        i = i + 1;
    }
    false
}

/// Whether `t` holds an emoji.
fn has_emoji(t: &Vec<char>) -> (r: bool)
    ensures
        r == meets(RuleName::Emoji, t@),
{
    let mut i: usize = 0;
    while i < t.len()
        invariant
            i <= t.len(),
            forall|k: int| 0 <= k < i ==> !emoji(#[trigger] t@[k]),
        decreases t.len() - i,
    {
        if is_emoji(t[i]) {
            return true;
        }
        i = i + 1;
    }
    false
}

/// Appends `name` to `rules` if the rule is on and met.
fn pick(rules: &mut Vec<RuleName>, cfg: &Config, name: RuleName, met: bool)
    ensures
        final(rules)@ == old(rules)@ + if cfg.rule(name).toggle && met {
            seq![name]
        } else {
            Seq::empty()
        },
{
    if cfg.get(name).toggle && met {
        rules.push(name);
    }
    proof {
        assert(rules@ =~= old(rules)@ + if cfg.rule(name).toggle && met {
            seq![name]
        } else {
            Seq::empty()
        });
    }
}

/// The rules that `message` meets, of those that are on, in their fixed order.
pub fn fired_rules(message: &str, cfg: &Config) -> (r: Vec<RuleName>)
    ensures
        r@ == fired(*cfg, message@),
{
    let t = text::chars_of(text::trim(message));
    let n: usize = t.len();
    let last: Option<char> = if n > 0 {
        Some(t[n - 1])
    } else {
        None
    };
    let mut rules: Vec<RuleName> = Vec::new();
    pick(
        &mut rules,
        cfg,
        RuleName::Punctuation,
        last == Some('.') || last == Some('!') || last == Some('?'),
    );
    pick(&mut rules, cfg, RuleName::Question, last == Some('?'));
    pick(&mut rules, cfg, RuleName::Length, n >= 40);
    pick(&mut rules, cfg, RuleName::Spam, has_spam_token(&t));
    pick(&mut rules, cfg, RuleName::NoSpacing, n >= 20 && !has_space(&t));
    pick(&mut rules, cfg, RuleName::Wordless, is_wordless_text(&t));
    pick(&mut rules, cfg, RuleName::Emoji, has_emoji(&t));
    proof {
        assert(Seq::<RuleName>::empty() + picked(*cfg, RuleName::Punctuation, t@) =~= picked(
            *cfg,
            RuleName::Punctuation,
            t@,
        ));
    }
    rules
}

/// The sum of the scores of `rules`, where an `i64` holds every running total.
pub fn checked_total(cfg: &Config, rules: &Vec<RuleName>) -> (r: Option<i64>)
    ensures
        r is Some <==> totals_fit(*cfg, rules@),
        r matches Some(delta) ==> delta == total(*cfg, rules@),
{
    let mut delta: i64 = 0;
    let mut i: usize = 0;
    while i < rules.len()
        invariant
            i <= rules.len(),
            delta == total(*cfg, rules@.take(i as int)),
            forall|n: int|
                0 <= n <= i ==> i64::MIN <= #[trigger] total(*cfg, rules@.take(n)) <= i64::MAX,
        decreases rules.len() - i,
    {
        proof {
            assert(rules@.take(i + 1).drop_last() =~= rules@.take(i as int));
        }
        match delta.checked_add(cfg.get(rules[i]).score) {
            Some(sum) => {
                delta = sum;
            },
            None => {
                proof {
                    assert(!(i64::MIN <= total(*cfg, rules@.take(i + 1)) <= i64::MAX));
                }
                return None;
            },
        }
        i = i + 1;
    }
    proof {
        assert(rules@.take(i as int) =~= rules@);
    }
    Some(delta)
}

/// The names of `rules`.
pub fn notes_of(rules: &Vec<RuleName>) -> (r: Vec<String>)
    ensures
        texts(r@) == names(rules@),
{
    let mut notes: Vec<String> = Vec::new();
    let mut i: usize = 0;
    while i < rules.len()
        invariant
            i <= rules.len(),
            notes.len() == i,
            forall|k: int| 0 <= k < i ==> #[trigger] notes@[k]@ == rules@[k].text(),
        decreases rules.len() - i,
    {
        notes.push(rules[i].as_str().to_owned());
        i = i + 1;
    }
    proof {
        assert(texts(notes@) =~= names(rules@));
    }
    notes
}

/// The score of `message` and the names of the rules it meets. A positive score is a reward, a
/// negative one a punishment.
pub fn score_message(message: &str, cfg: &Config) -> (r: (i64, Vec<String>))
    requires
        totals_fit(*cfg, fired(*cfg, message@)),
    ensures
        r.0 == total(*cfg, fired(*cfg, message@)),
        texts(r.1@) == names(fired(*cfg, message@)),
{
    let rules = fired_rules(message, cfg);
    let delta: i64 = checked_total(cfg, &rules).unwrap();
    let notes = notes_of(&rules);
    (delta, notes)
}

/// The score of `message` as `score_message` gives it, or nothing where a running total leaves
/// the range of an `i64`.
pub fn try_score_message(message: &str, cfg: &Config) -> (r: Option<(i64, Vec<String>)>)
    ensures
        r is Some <==> totals_fit(*cfg, fired(*cfg, message@)),
        r matches Some(score) ==> {
            &&& score.0 == total(*cfg, fired(*cfg, message@))
            &&& texts(score.1@) == names(fired(*cfg, message@))
        },
{
    let rules = fired_rules(message, cfg);
    if checked_total(cfg, &rules).is_some() {
        Some(score_message(message, cfg))
    } else {
        None
    }
}

/// White space around a message does not matter to its score.
pub proof fn surrounding_space_does_not_matter(cfg: Config, message: Seq<char>)
    ensures
        fired(cfg, text::trimmed(message)) == fired(cfg, message),
{
    text::trimming_is_idempotent(message);
}

/// White space around a message does not matter to whether it is wordless.
pub proof fn wordless_ignores_surrounding_space(message: Seq<char>)
    ensures
        wordless(text::trimmed(message)) == wordless(message),
{
    text::trimming_keeps_words(message);
}

/// ASCII case does not matter to whether a token looks like spam.
pub proof fn spam_ignores_ascii_case(a: Seq<char>, b: Seq<char>)
    requires
        text::ascii_lowered(a) == text::ascii_lowered(b),
    ensures
        mashed(lowered(a)) == mashed(lowered(b)),
{
    text::ascii_lowering_is_idempotent(a);
    text::ascii_lowering_is_idempotent(b);
}

/// The rules that fire are exactly those that are on and that the trimmed message meets.
pub proof fn fired_exactly(cfg: Config, message: Seq<char>, name: RuleName)
    ensures
        fired(cfg, message).contains(name) <==> cfg.rule(name).toggle && meets(
            name,
            text::trimmed(message),
        ),
{
    broadcast use vstd::seq_lib::group_seq_properties;

    let t = text::trimmed(message);
    assert forall|other: RuleName| (#[trigger] picked(cfg, other, t)).contains(name) <==> (other
        == name && cfg.rule(name).toggle && meets(name, t)) by {
        if cfg.rule(other).toggle && meets(other, t) {
            assert(picked(cfg, other, t)[0] == other);
        }
    }
    let s1 = picked(cfg, RuleName::Punctuation, t);
    let s2 = s1 + picked(cfg, RuleName::Question, t);
    let s3 = s2 + picked(cfg, RuleName::Length, t);
    let s4 = s3 + picked(cfg, RuleName::Spam, t);
    let s5 = s4 + picked(cfg, RuleName::NoSpacing, t);
    let s6 = s5 + picked(cfg, RuleName::Wordless, t);
    let s7 = s6 + picked(cfg, RuleName::Emoji, t);
    assert(fired(cfg, message) == s7);
    assert(s7.contains(name) <==> s6.contains(name) || picked(cfg, RuleName::Emoji, t).contains(
        name,
    ));
    assert(s6.contains(name) <==> s5.contains(name) || picked(cfg, RuleName::Wordless, t).contains(
        name,
    ));
    assert(s5.contains(name) <==> s4.contains(name) || picked(cfg, RuleName::NoSpacing, t).contains(
        name,
    ));
    assert(s4.contains(name) <==> s3.contains(name) || picked(cfg, RuleName::Spam, t).contains(
        name,
    ));
    assert(s3.contains(name) <==> s2.contains(name) || picked(cfg, RuleName::Length, t).contains(
        name,
    ));
    assert(s2.contains(name) <==> s1.contains(name) || picked(cfg, RuleName::Question, t).contains(
        name,
    ));
}

/// The place of a rule in the fixed order.
pub open spec fn place(name: RuleName) -> int {
    match name {
        RuleName::Punctuation => 0,
        RuleName::Question => 1,
        RuleName::Length => 2,
        RuleName::Spam => 3,
        RuleName::NoSpacing => 4,
        RuleName::Wordless => 5,
        RuleName::Emoji => 6,
        RuleName::Frequency => 7,
    }
}

/// Whether `rules` stand in the fixed order, each at most once, with places below `bound`.
pub open spec fn in_order(rules: Seq<RuleName>, bound: int) -> bool {
    &&& forall|i: int, j: int|
        0 <= i < j < rules.len() ==> place(#[trigger] rules[i]) < place(#[trigger] rules[j])
    &&& forall|i: int| 0 <= i < rules.len() ==> place(#[trigger] rules[i]) < bound
}

/// A rule that follows keeps the order.
proof fn picked_in_order(rules: Seq<RuleName>, cfg: Config, name: RuleName, t: Seq<char>)
    requires
        in_order(rules, place(name)),
        rules.len() <= place(name),
    ensures
        in_order(rules + picked(cfg, name, t), place(name) + 1),
        (rules + picked(cfg, name, t)).len() <= place(name) + 1,
{
    let more = rules + picked(cfg, name, t);
    assert forall|i: int, j: int| 0 <= i < j < more.len() implies place(#[trigger] more[i])
        < place(#[trigger] more[j]) by {
        assert(more[i] == rules[i]);
        if j < rules.len() {
            assert(more[j] == rules[j]);
        } else {
            assert(more[j] == name);
        }
    }
    assert forall|i: int| 0 <= i < more.len() implies place(#[trigger] more[i]) < place(name)
        + 1 by {
        if i < rules.len() {
            assert(more[i] == rules[i]);
        } else {
            assert(more[i] == name);
        }
    }
}

/// The rules that fire stand in the fixed order, each at most once, and the frequency rule is not
/// among them.
pub proof fn fired_in_order(cfg: Config, message: Seq<char>)
    ensures
        in_order(fired(cfg, message), 7),
        fired(cfg, message).len() <= 7,
{
    let t = text::trimmed(message);
    let s0 = Seq::<RuleName>::empty();
    let s1 = picked(cfg, RuleName::Punctuation, t);
    let s2 = s1 + picked(cfg, RuleName::Question, t);
    let s3 = s2 + picked(cfg, RuleName::Length, t);
    let s4 = s3 + picked(cfg, RuleName::Spam, t);
    let s5 = s4 + picked(cfg, RuleName::NoSpacing, t);
    let s6 = s5 + picked(cfg, RuleName::Wordless, t);
    picked_in_order(s0, cfg, RuleName::Punctuation, t);
    assert(s0 + s1 =~= s1);
    picked_in_order(s1, cfg, RuleName::Question, t);
    picked_in_order(s2, cfg, RuleName::Length, t);
    picked_in_order(s3, cfg, RuleName::Spam, t);
    picked_in_order(s4, cfg, RuleName::NoSpacing, t);
    picked_in_order(s5, cfg, RuleName::Wordless, t);
    picked_in_order(s6, cfg, RuleName::Emoji, t);
}

/// What the rule `name` adds to the score of a message that is trimmed to `t`.
pub open spec fn share(cfg: Config, name: RuleName, t: Seq<char>) -> int {
    if cfg.rule(name).toggle && meets(name, t) {
        cfg.rule(name).score as int
    } else {
        0
    }
}

/// A rule that follows adds its share.
proof fn picked_adds_its_share(rules: Seq<RuleName>, cfg: Config, name: RuleName, t: Seq<char>)
    ensures
        total(cfg, rules + picked(cfg, name, t)) == total(cfg, rules) + share(cfg, name, t),
{
    let more = rules + picked(cfg, name, t);
    if cfg.rule(name).toggle && meets(name, t) {
        assert(more.drop_last() =~= rules);
        assert(more.last() == name);
    } else {
        assert(more =~= rules);
    }
}

/// The score of a message is the sum of what each rule adds on its own.
pub proof fn score_is_the_sum_of_shares(cfg: Config, message: Seq<char>)
    ensures
        ({
            let t = text::trimmed(message);
            total(cfg, fired(cfg, message)) == share(cfg, RuleName::Punctuation, t) + share(
                cfg,
                RuleName::Question,
                t,
            ) + share(cfg, RuleName::Length, t) + share(cfg, RuleName::Spam, t) + share(
                cfg,
                RuleName::NoSpacing,
                t,
            ) + share(cfg, RuleName::Wordless, t) + share(cfg, RuleName::Emoji, t)
        }),
{
    let t = text::trimmed(message);
    let s0 = Seq::<RuleName>::empty();
    let s1 = picked(cfg, RuleName::Punctuation, t);
    let s2 = s1 + picked(cfg, RuleName::Question, t);
    let s3 = s2 + picked(cfg, RuleName::Length, t);
    let s4 = s3 + picked(cfg, RuleName::Spam, t);
    let s5 = s4 + picked(cfg, RuleName::NoSpacing, t);
    let s6 = s5 + picked(cfg, RuleName::Wordless, t);
    picked_adds_its_share(s0, cfg, RuleName::Punctuation, t);
    assert(s0 + s1 =~= s1);
    picked_adds_its_share(s1, cfg, RuleName::Question, t);
    picked_adds_its_share(s2, cfg, RuleName::Length, t);
    picked_adds_its_share(s3, cfg, RuleName::Spam, t);
    picked_adds_its_share(s4, cfg, RuleName::NoSpacing, t);
    picked_adds_its_share(s5, cfg, RuleName::Wordless, t);
    picked_adds_its_share(s6, cfg, RuleName::Emoji, t);
}

/// Which rules fire on a message depends on their toggles alone, not on the scores, nor on the
/// frequency rule.
pub proof fn scores_do_not_decide_what_fires(a: Config, b: Config, message: Seq<char>)
    requires
        forall|name: RuleName|
            name != RuleName::Frequency ==> (#[trigger] a.rule(name)).toggle == b.rule(
                name,
            ).toggle,
    ensures
        fired(a, message) == fired(b, message),
{
    assert forall|name: RuleName, t: Seq<char>| #[trigger]
        picked(a, name, t) == picked(b, name, t) by {
        if name != RuleName::Frequency {
            assert(a.rule(name).toggle == b.rule(name).toggle);
        }
    }
}

/// A message that ends in a question mark meets the punctuation rule too.
pub proof fn questions_are_punctuated(t: Seq<char>)
    requires
        meets(RuleName::Question, t),
    ensures
        meets(RuleName::Punctuation, t),
{
}

/// A message of white space alone meets no rule.
pub proof fn blank_messages_score_nothing(cfg: Config, message: Seq<char>)
    requires
        text::trimmed(message).len() == 0,
    ensures
        fired(cfg, message) == Seq::<RuleName>::empty(),
        total(cfg, fired(cfg, message)) == 0,
{
    let t = text::trimmed(message);
    assert(text::words(t).len() == 0);
    assert(fired(cfg, message) =~= Seq::<RuleName>::empty());
}

/// With every rule off, nothing is scored.
pub proof fn nothing_is_scored_with_all_rules_off(cfg: Config, message: Seq<char>)
    requires
        forall|name: RuleName| !(#[trigger] cfg.rule(name)).toggle,
    ensures
        fired(cfg, message) == Seq::<RuleName>::empty(),
        total(cfg, fired(cfg, message)) == 0,
{
    assert(fired(cfg, message) =~= Seq::<RuleName>::empty());
}

/// Scores of at most `bound` add up to at most `bound` for each rule.
proof fn total_is_bounded(cfg: Config, rules: Seq<RuleName>, bound: int)
    requires
        forall|name: RuleName| -bound <= (#[trigger] cfg.rule(name)).score <= bound,
    ensures
        -(bound * rules.len()) <= total(cfg, rules) <= bound * rules.len(),
    decreases rules.len(),
{
    if rules.len() > 0 {
        total_is_bounded(cfg, rules.drop_last(), bound);
        assert(-bound <= cfg.rule(rules.last()).score <= bound);
        assert(bound * rules.len() == bound * (rules.len() - 1) + bound) by (nonlinear_arith);
    }
}

/// With scores of at most a quintillion either way, no sum of up to eight rules overflows.
pub proof fn moderate_scores_fit(cfg: Config, rules: Seq<RuleName>)
    requires
        forall|name: RuleName|
            -1_000_000_000_000_000_000 <= (#[trigger] cfg.rule(name)).score
                <= 1_000_000_000_000_000_000,
        rules.len() <= 8,
    ensures
        totals_fit(cfg, rules),
{
    let bound = 1_000_000_000_000_000_000int;
    assert forall|n: int| 0 <= n <= rules.len() implies i64::MIN <= #[trigger] total(
        cfg,
        rules.take(n),
    ) <= i64::MAX by {
        total_is_bounded(cfg, rules.take(n), bound);
        assert(bound * n <= bound * 8) by (nonlinear_arith)
            requires
                0 <= n <= 8,
                bound == 1_000_000_000_000_000_000int,
        ;
    }
}

/// With the default configuration, every message can be scored.
pub proof fn default_scores_fit(message: Seq<char>)
    ensures
        totals_fit(
            crate::config::initial_config(),
            fired(crate::config::initial_config(), message),
        ),
{
    fired_in_order(crate::config::initial_config(), message);
    moderate_scores_fit(
        crate::config::initial_config(),
        fired(crate::config::initial_config(), message),
    );
}

/// What the literal of the vowels holds.
proof fn vowels_are_five()
    ensures
        forall|c: char| "aeiou"@.contains(c) <==> #[trigger] vowel(c),
        forall|c: char|
            "aeiouAEIOU"@.contains(c) <==> #[trigger] vowel(text::ascii_lower(c)),
{
    reveal_strlit("aeiou");
    reveal_strlit("aeiouAEIOU");
    let lower = "aeiou"@;
    let both = "aeiouAEIOU"@;
    assert(lower[0] == 'a' && lower[1] == 'e' && lower[2] == 'i' && lower[3] == 'o' && lower[4]
        == 'u');
    assert(both[0] == 'a' && both[1] == 'e' && both[2] == 'i' && both[3] == 'o' && both[4] == 'u');
    assert(both[5] == 'A' && both[6] == 'E' && both[7] == 'I' && both[8] == 'O' && both[9] == 'U');
    assert forall|c: char|
        "aeiouAEIOU"@.contains(c) <==> #[trigger] vowel(text::ascii_lower(c)) by {
        if vowel(text::ascii_lower(c)) {
            assert(c == 'a' || c == 'e' || c == 'i' || c == 'o' || c == 'u' || c == 'A' || c == 'E'
                || c == 'I' || c == 'O' || c == 'U');
        }
    }
}

/// The vowels are the characters of `aeiou`.
pub proof fn vowels_are_those_of_aeiou(c: char, r: bool)
    requires
        call_ensures(is_vowel, (c,), r),
    ensures
        r <==> "aeiou"@.contains(c),
        vowel(c) <==> "aeiou"@.contains(c),
{
    vowels_are_five();
}

/// The words that hold a vowel are counted.
proof fn wordlike_count_is_filter(ws: Seq<Seq<char>>)
    ensures
        wordlike_count(ws) == ws.filter(
            |w: Seq<char>|
                exists|i: int| 0 <= i < w.len() && "aeiouAEIOU"@.contains(#[trigger] w[i]),
        ).len(),
    decreases ws.len(),
{
    reveal(Seq::filter);
    vowels_are_five();
    if ws.len() > 0 {
        wordlike_count_is_filter(ws.drop_last());
        let w = ws.last();
        let holds = exists|i: int| 0 <= i < w.len() && "aeiouAEIOU"@.contains(#[trigger] w[i]);
        if wordlike(w) {
            let i = choose|i: int| 0 <= i < w.len() && vowel(text::ascii_lower(#[trigger] w[i]));
            assert("aeiouAEIOU"@.contains(w[i]));
        }
        if holds {
            let i = choose|i: int| 0 <= i < w.len() && "aeiouAEIOU"@.contains(#[trigger] w[i]);
            assert(vowel(text::ascii_lower(w[i])));
        }
        assert(wordlike(w) <==> holds);
    }
}

/// A message is wordless exactly if fewer than half of its words hold one of the vowels, in either
/// case: one at least half of whose words do never is, nor is one without words.
pub proof fn half_the_words_need_vowels(message: &str, r: bool)
    requires
        call_ensures(is_wordless, (message,), r),
    ensures
        ({
            let ws = text::words(message@);
            let wordlike = ws.filter(
                |w: Seq<char>|
                    exists|i: int| 0 <= i < w.len() && "aeiouAEIOU"@.contains(#[trigger] w[i]),
            );
            &&& 2 * wordlike.len() >= ws.len() ==> !r
            &&& 2 * wordlike.len() < ws.len() ==> r
        }),
{
    wordlike_count_is_filter(text::words(message@));
}

/// The sample of keyboard mash is sixteen characters and as many bytes.
proof fn sample_is_sixteen_bytes()
    ensures
        "asdlfkjsqaldkfja"@.len() == 16,
        vstd::utf8::encode_utf8("asdlfkjsqaldkfja"@).len() == 16,
{
    reveal_strlit("asdlfkjsqaldkfja");
    let sample = "asdlfkjsqaldkfja"@;
    assert(vstd::utf8::is_ascii_chars(sample)) by {
        assert forall|i: int| 0 <= i < sample.len() implies '\0' <= #[trigger] sample[i]
            <= '\u{7f}' by {
            assert(i == 0 || i == 1 || i == 2 || i == 3 || i == 4 || i == 5 || i == 6 || i == 7 || i
                == 8 || i == 9 || i == 10 || i == 11 || i == 12 || i == 13 || i == 14 || i == 15);
        }
    }
    vstd::utf8::is_ascii_chars_encode_utf8(sample);
}

/// Which lower-case text looks like spam, by its bytes, its characters and its vowels.
proof fn mashed_by_bytes_and_vowels(t: Seq<char>)
    ensures
        ({
            let bytes = vstd::utf8::encode_utf8(t).len();
            let mixed = exists|i: int, j: int|
                0 <= i < j < t.len() && #[trigger] t[i] != #[trigger] t[j];
            let vowels = exists|i: int| 0 <= i < t.len() && "aeiou"@.contains(#[trigger] t[i]);
            &&& bytes < 4 ==> !mashed(t)
            &&& bytes >= 4 && !mixed ==> mashed(t)
            &&& mixed && !vowels ==> (mashed(t) <==> bytes >= 5)
            &&& mixed && vowels ==> (mashed(t) <==> t == "asdlfkjsqaldkfja"@)
        }),
{
    sample_is_sixteen_bytes();
    vowels_are_five();
    let mixed = exists|i: int, j: int| 0 <= i < j < t.len() && #[trigger] t[i] != #[trigger] t[j];
    let vowels = exists|i: int| 0 <= i < t.len() && "aeiou"@.contains(#[trigger] t[i]);
    if mixed {
        let (i, j) = choose|i: int, j: int|
            0 <= i < j < t.len() && #[trigger] t[i] != #[trigger] t[j];
        assert(t[i] != t[0] || t[j] != t[0]);
        assert(!all_same(t));
    } else {
        assert forall|k: int| 0 <= k < t.len() implies #[trigger] t[k] == t[0] by {
            if k > 0 {
                assert(t[0] == t[k]);
            }
        }
    }
    if vowels {
        let i = choose|i: int| 0 <= i < t.len() && "aeiou"@.contains(#[trigger] t[i]);
        assert(vowel(t[i]));
    }
    if has_vowel(t) {
        let i = choose|i: int| 0 <= i < t.len() && vowel(#[trigger] t[i]);
        assert("aeiou"@.contains(t[i]));
    }
    assert(vowels <==> has_vowel(t));
}

/// Lower-case text looks like spam never in less than four bytes; in four or more if it repeats one
/// character; in five or more if it has no vowel; and otherwise only if it is the sample of
/// keyboard mash.
pub proof fn mash_by_bytes_and_vowels(t: &str, r: bool)
    requires
        call_ensures(is_mashed, (t,), r),
    ensures
        ({
            let bytes = vstd::utf8::encode_utf8(t@).len();
            let mixed = exists|i: int, j: int|
                0 <= i < j < t@.len() && #[trigger] t@[i] != #[trigger] t@[j];
            let vowels = exists|i: int| 0 <= i < t@.len() && "aeiou"@.contains(#[trigger] t@[i]);
            &&& bytes < 4 ==> !r
            &&& bytes >= 4 && !mixed ==> r
            &&& mixed && !vowels ==> (r <==> bytes >= 5)
            &&& mixed && vowels ==> (r <==> t@ == "asdlfkjsqaldkfja"@)
        }),
{
    mashed_by_bytes_and_vowels(t@);
}

/// A token looks like spam by its lower case: never in less than four bytes; in four or more if it
/// repeats one character; in five or more if it has no vowel; and otherwise only if it is the
/// sample of keyboard mash.
pub proof fn spam_by_bytes_and_vowels(token: &str, r: bool)
    requires
        call_ensures(looks_like_spam_token, (token,), r),
    ensures
        ({
            let t = text::lowercase(token@);
            let bytes = vstd::utf8::encode_utf8(t).len();
            let mixed = exists|i: int, j: int|
                0 <= i < j < t.len() && #[trigger] t[i] != #[trigger] t[j];
            let vowels = exists|i: int| 0 <= i < t.len() && "aeiou"@.contains(#[trigger] t[i]);
            &&& bytes < 4 ==> !r
            &&& bytes >= 4 && !mixed ==> r
            &&& mixed && !vowels ==> (r <==> bytes >= 5)
            &&& mixed && vowels ==> (r <==> t == "asdlfkjsqaldkfja"@)
        }),
{
    mashed_by_bytes_and_vowels(text::lowercase(token@));
}

/// A token of ASCII looks like spam never with less than four characters; with four or more if they
/// are one and the same but for their case; with five or more if there is no vowel; and otherwise
/// only if it is the sample of keyboard mash in some case.
pub proof fn ascii_spam_by_letters(token: &str, r: bool)
    requires
        call_ensures(looks_like_spam_token, (token,), r),
        vstd::utf8::is_ascii_chars(token@),
    ensures
        ({
            let mixed = exists|i: int, j: int|
                0 <= i < j < token@.len() && text::ascii_lower(#[trigger] token@[i])
                    != text::ascii_lower(#[trigger] token@[j]);
            let vowels = exists|i: int|
                0 <= i < token@.len() && "aeiouAEIOU"@.contains(#[trigger] token@[i]);
            &&& token@.len() < 4 ==> !r
            &&& token@.len() >= 4 && !mixed ==> r
            &&& mixed && !vowels ==> (r <==> token@.len() >= 5)
            &&& mixed && vowels ==> (r <==> text::ascii_lowered(token@) == "asdlfkjsqaldkfja"@)
        }),
{
    let s = token@;
    let t = text::ascii_lowered(s);
    text::ascii_lowering_is_idempotent(s);
    vstd::utf8::is_ascii_chars_encode_utf8(t);
    mashed_by_bytes_and_vowels(t);
    vowels_are_five();
    assert(forall|i: int| 0 <= i < s.len() ==> #[trigger] t[i] == text::ascii_lower(s[i]));
    assert(forall|i: int| 0 <= i < s.len() ==> t[i] == text::ascii_lower(#[trigger] s[i]));
    if exists|i: int| 0 <= i < s.len() && "aeiouAEIOU"@.contains(#[trigger] s[i]) {
        let i = choose|i: int| 0 <= i < s.len() && "aeiouAEIOU"@.contains(#[trigger] s[i]);
        assert(vowel(text::ascii_lower(s[i])));
        assert(vowel(t[i]));
    }
    if exists|i: int| 0 <= i < t.len() && "aeiou"@.contains(#[trigger] t[i]) {
        let i = choose|i: int| 0 <= i < t.len() && "aeiou"@.contains(#[trigger] t[i]);
        assert(vowel(t[i]));
        assert(vowel(text::ascii_lower(s[i])));
    }
    if exists|i: int, j: int| 0 <= i < j < t.len() && #[trigger] t[i] != #[trigger] t[j] {
        let (i, j) = choose|i: int, j: int|
            0 <= i < j < t.len() && #[trigger] t[i] != #[trigger] t[j];
        assert(text::ascii_lower(s[i]) != text::ascii_lower(s[j]));
    }
    if exists|i: int, j: int|
        0 <= i < j < s.len() && text::ascii_lower(#[trigger] s[i]) != text::ascii_lower(
            #[trigger] s[j],
        ) {
        let (i, j) = choose|i: int, j: int|
            0 <= i < j < s.len() && text::ascii_lower(#[trigger] s[i]) != text::ascii_lower(
                #[trigger] s[j],
            );
        assert(t[i] != t[j]);
    }
}

/// The emoji are symbols and dingbats, the variation selectors, the tiles and cards, and the
/// pictographs in their blocks; nothing between those is one, and no character before them or
/// beyond.
pub proof fn emoji_by_range(c: char, r: bool)
    requires
        call_ensures(is_emoji, (c,), r),
    ensures
        r == emoji(c),
        c < '\u{2600}' ==> !r,
        '\u{2600}' <= c <= '\u{27bf}' ==> r,
        '\u{27bf}' < c < '\u{fe00}' ==> !r,
        '\u{fe00}' <= c <= '\u{fe0f}' ==> r,
        '\u{fe0f}' < c < '\u{1f000}' ==> !r,
        '\u{1f000}' <= c <= '\u{1f0ff}' ==> r,
        '\u{1f0ff}' < c < '\u{1f300}' ==> !r,
        '\u{1f300}' <= c <= '\u{1f64f}' ==> r,
        '\u{1f64f}' < c < '\u{1f680}' ==> !r,
        '\u{1f680}' <= c <= '\u{1f6ff}' ==> r,
        '\u{1f6ff}' < c < '\u{1f900}' ==> !r,
        '\u{1f900}' <= c <= '\u{1f9ff}' ==> r,
        '\u{1f9ff}' < c < '\u{1fa70}' ==> !r,
        '\u{1fa70}' <= c <= '\u{1faff}' ==> r,
        '\u{1faff}' < c ==> !r,
{
}

/// A message is rewarded for its last character, white space after it taken off: for one of `.!?`,
/// and for a question mark again.
pub proof fn endings_are_rewarded(message: &str, cfg: &Config, r: Vec<RuleName>)
    requires
        call_ensures(fired_rules, (message, cfg), r),
    ensures
        ({
            let t = text::trimmed(message@);
            &&& r@.contains(RuleName::Punctuation) <==> cfg.punctuation.toggle && t.len() > 0
                && ".!?"@.contains(t[t.len() - 1])
            &&& r@.contains(RuleName::Question) <==> cfg.question.toggle && t.len() > 0 && t[t.len()
                - 1] == '?'
        }),
{
    fired_exactly(*cfg, message@, RuleName::Punctuation);
    fired_exactly(*cfg, message@, RuleName::Question);
    reveal_strlit(".!?");
    assert(".!?"@[0] == '.' && ".!?"@[1] == '!' && ".!?"@[2] == '?');
}

/// A message of forty characters or more is rewarded, and one of twenty or more punished where no
/// space is among them, white space around them taken off.
pub proof fn long_messages_need_spaces(message: &str, cfg: &Config, r: Vec<RuleName>)
    requires
        call_ensures(fired_rules, (message, cfg), r),
    ensures
        ({
            let t = text::trimmed(message@);
            &&& r@.contains(RuleName::Length) <==> cfg.length.toggle && t.len() >= 40
            &&& r@.contains(RuleName::NoSpacing) <==> cfg.no_spacing.toggle && t.len() >= 20
                && forall|i: int| 0 <= i < t.len() ==> #[trigger] t[i] != ' '
        }),
{
    fired_exactly(*cfg, message@, RuleName::Length);
    fired_exactly(*cfg, message@, RuleName::NoSpacing);
}

/// A message is rewarded for an emoji anywhere in it. The frequency rule looks at no text.
pub proof fn emoji_are_rewarded(message: &str, cfg: &Config, r: Vec<RuleName>)
    requires
        call_ensures(fired_rules, (message, cfg), r),
    ensures
        ({
            let t = text::trimmed(message@);
            &&& r@.contains(RuleName::Emoji) <==> cfg.emoji.toggle && exists|i: int|
                0 <= i < t.len() && emoji(#[trigger] t[i])
            &&& !r@.contains(RuleName::Frequency)
        }),
{
    fired_exactly(*cfg, message@, RuleName::Emoji);
    fired_exactly(*cfg, message@, RuleName::Frequency);
}

/// A message is punished if fewer than half of its words hold a vowel, in either case.
pub proof fn wordless_messages_are_punished(message: &str, cfg: &Config, r: Vec<RuleName>)
    requires
        call_ensures(fired_rules, (message, cfg), r),
    ensures
        ({
            let ws = text::words(message@);
            r@.contains(RuleName::Wordless) <==> cfg.wordless.toggle && 2 * ws.filter(
                |w: Seq<char>|
                    exists|i: int| 0 <= i < w.len() && "aeiouAEIOU"@.contains(#[trigger] w[i]),
            ).len() < ws.len()
        }),
{
    fired_exactly(*cfg, message@, RuleName::Wordless);
    text::trimming_keeps_words(message@);
    wordlike_count_is_filter(text::words(message@));
}

/// A message is punished if one of its words looks like spam, whatever the others are.
pub proof fn one_spam_token_is_enough(
    message: &str,
    cfg: &Config,
    r: Vec<RuleName>,
    token: &str,
    spam: bool,
    i: int,
)
    requires
        call_ensures(fired_rules, (message, cfg), r),
        call_ensures(looks_like_spam_token, (token,), spam),
        0 <= i < text::words(message@).len(),
        text::words(message@)[i] == token@,
    ensures
        cfg.spam.toggle && spam ==> r@.contains(RuleName::Spam),
{
    fired_exactly(*cfg, message@, RuleName::Spam);
    text::trimming_keeps_words(message@);
    if spam {
        assert(mashed(lowered(text::words(text::trimmed(message@))[i])));
    }
}

/// A message is punished for spam only if the rule is on and one of its words looks like it, in
/// lower case.
pub proof fn spam_needs_a_token(message: &str, cfg: &Config, r: Vec<RuleName>)
    requires
        call_ensures(fired_rules, (message, cfg), r),
        r@.contains(RuleName::Spam),
    ensures
        cfg.spam.toggle,
        exists|i: int|
            0 <= i < text::words(message@).len() && mashed(
                if vstd::utf8::is_ascii_chars(#[trigger] text::words(message@)[i]) {
                    text::ascii_lowered(text::words(message@)[i])
                } else {
                    text::lowercase(text::ascii_lowered(text::words(message@)[i]))
                },
            ),
{
    fired_exactly(*cfg, message@, RuleName::Spam);
    text::trimming_keeps_words(message@);
    let ws = text::words(message@);
    let i = choose|i: int| 0 <= i < ws.len() && mashed(lowered(#[trigger] ws[i]));
    assert(mashed(lowered(ws[i])));
    assert(0 <= i < text::words(message@).len());
}

/// The rules that look at text, as they are listed, stand in their places.
proof fn listed_by_place(order: Seq<RuleName>, name: RuleName)
    requires
        order == seq![
            RuleName::Punctuation,
            RuleName::Question,
            RuleName::Length,
            RuleName::Spam,
            RuleName::NoSpacing,
            RuleName::Wordless,
            RuleName::Emoji,
        ],
        place(name) < 7,
    ensures
        order[place(name)] == name,
{
    match name {
        RuleName::Punctuation => {},
        RuleName::Question => {},
        RuleName::Length => {},
        RuleName::Spam => {},
        RuleName::NoSpacing => {},
        RuleName::Wordless => {},
        RuleName::Emoji => {},
        RuleName::Frequency => {},
    }
}

/// The rules are told in the order in which they are listed, and none twice.
pub proof fn rules_are_told_in_order(
    message: &str,
    cfg: &Config,
    r: Vec<RuleName>,
    order: Seq<RuleName>,
    i: int,
    j: int,
)
    requires
        call_ensures(fired_rules, (message, cfg), r),
        order == seq![
            RuleName::Punctuation,
            RuleName::Question,
            RuleName::Length,
            RuleName::Spam,
            RuleName::NoSpacing,
            RuleName::Wordless,
            RuleName::Emoji,
        ],
        0 <= i < j < r@.len(),
    ensures
        exists|a: int, b: int|
            0 <= a < b < 7 && #[trigger] order[a] == r@[i] && #[trigger] order[b] == r@[j],
{
    fired_in_order(*cfg, message@);
    let a = place(r@[i]);
    let b = place(r@[j]);
    assert(a < b < 7);
    listed_by_place(order, r@[i]);
    listed_by_place(order, r@[j]);
    assert(0 <= a < b < 7 && order[a] == r@[i] && order[b] == r@[j]);
}

/// Scores add up: two lists of rules score what they score one by one, and a rule alone scores what
/// is configured for it.
pub proof fn scores_add_up(cfg: Config, a: Seq<RuleName>, b: Seq<RuleName>)
    ensures
        total(cfg, a + b) == total(cfg, a) + total(cfg, b),
        total(cfg, Seq::empty()) == 0,
        total(cfg, seq![RuleName::Punctuation]) == cfg.punctuation.score,
        total(cfg, seq![RuleName::Question]) == cfg.question.score,
        total(cfg, seq![RuleName::Length]) == cfg.length.score,
        total(cfg, seq![RuleName::Spam]) == cfg.spam.score,
        total(cfg, seq![RuleName::NoSpacing]) == cfg.no_spacing.score,
        total(cfg, seq![RuleName::Wordless]) == cfg.wordless.score,
        total(cfg, seq![RuleName::Emoji]) == cfg.emoji.score,
        total(cfg, seq![RuleName::Frequency]) == cfg.frequency.score,
    decreases b.len(),
{
    reveal_with_fuel(total, 2);
    if b.len() == 0 {
        assert(a + b =~= a);
    } else {
        scores_add_up(cfg, a, b.drop_last());
        assert((a + b).drop_last() =~= a + b.drop_last());
        assert((a + b).last() == b.last());
    }
}

/// A sum that fits is one whose last step stays within an `i64` and that fitted before it.
pub proof fn sums_fit_step_by_step(cfg: Config, rules: Seq<RuleName>, name: RuleName)
    ensures
        totals_fit(cfg, Seq::empty()),
        totals_fit(cfg, rules.push(name)) <==> totals_fit(cfg, rules)
            && -9_223_372_036_854_775_808 <= total(cfg, rules) + total(cfg, seq![name])
            <= 9_223_372_036_854_775_807,
{
    let none = Seq::<RuleName>::empty();
    assert forall|n: int| 0 <= n <= none.len() implies i64::MIN <= #[trigger] total(
        cfg,
        none.take(n),
    ) <= i64::MAX by {
        assert(none.take(n).len() == 0);
    }
    scores_add_up(cfg, rules, seq![name]);
    let more = rules.push(name);
    assert(more =~= rules + seq![name]);
    assert(more.take(more.len() as int) =~= more);
    assert forall|n: int| 0 <= n <= rules.len() implies #[trigger] more.take(n) == rules.take(
        n,
    ) by {
        assert(more.take(n) =~= rules.take(n));
    }
    if totals_fit(cfg, more) {
        assert(i64::MIN <= total(cfg, more.take(more.len() as int)) <= i64::MAX);
        assert forall|n: int| 0 <= n <= rules.len() implies i64::MIN <= #[trigger] total(
            cfg,
            rules.take(n),
        ) <= i64::MAX by {
            assert(more.take(n) == rules.take(n));
            assert(i64::MIN <= total(cfg, more.take(n)) <= i64::MAX);
        }
    }
    if totals_fit(cfg, rules) && i64::MIN <= total(cfg, more) <= i64::MAX {
        assert forall|n: int| 0 <= n <= more.len() implies i64::MIN <= #[trigger] total(
            cfg,
            more.take(n),
        ) <= i64::MAX by {
            if n <= rules.len() {
                assert(more.take(n) == rules.take(n));
            }
        }
    }
}

/// The score of a message is what the rules in its notes score, each counted once, and the notes
/// name those rules.
pub proof fn scores_follow_the_notes(
    message: &str,
    cfg: &Config,
    r: (i64, Vec<String>),
    rules: Vec<RuleName>,
)
    requires
        call_ensures(score_message, (message, cfg), r) || call_ensures(
            try_score_message,
            (message, cfg),
            Some(r),
        ),
        call_ensures(fired_rules, (message, cfg), rules),
    ensures
        r.1@.len() == rules@.len(),
        forall|i: int|
            0 <= i < rules@.len() ==> {
                let note = #[trigger] r.1@[i]@;
                &&& note == "punctuation"@ <==> rules@[i] == RuleName::Punctuation
                &&& note == "question"@ <==> rules@[i] == RuleName::Question
                &&& note == "length"@ <==> rules@[i] == RuleName::Length
                &&& note == "spam"@ <==> rules@[i] == RuleName::Spam
                &&& note == "no_spacing"@ <==> rules@[i] == RuleName::NoSpacing
                &&& note == "wordless"@ <==> rules@[i] == RuleName::Wordless
                &&& note == "emoji"@ <==> rules@[i] == RuleName::Emoji
            },
        ({
            let of = |name: RuleName, score: i64|
                if rules@.contains(name) {
                    score as int
                } else {
                    0
                };
            r.0 == of(RuleName::Punctuation, cfg.punctuation.score) + of(
                RuleName::Question,
                cfg.question.score,
            ) + of(RuleName::Length, cfg.length.score) + of(RuleName::Spam, cfg.spam.score) + of(
                RuleName::NoSpacing,
                cfg.no_spacing.score,
            ) + of(RuleName::Wordless, cfg.wordless.score) + of(RuleName::Emoji, cfg.emoji.score)
        }),
{
    let met = fired(*cfg, message@);
    assert(texts(r.1@) == names(met));
    assert(texts(r.1@).len() == r.1@.len());
    assert(names(met).len() == met.len());
    assert forall|i: int| 0 <= i < rules@.len() implies #[trigger] r.1@[i]@ == rules@[i].text() by {
        assert(texts(r.1@)[i] == r.1@[i]@);
        assert(names(met)[i] == met[i].text());
    }
    literals_tell_rules_apart();
    score_is_the_sum_of_shares(*cfg, message@);
    fired_exactly(*cfg, message@, RuleName::Punctuation);
    fired_exactly(*cfg, message@, RuleName::Question);
    fired_exactly(*cfg, message@, RuleName::Length);
    fired_exactly(*cfg, message@, RuleName::Spam);
    fired_exactly(*cfg, message@, RuleName::NoSpacing);
    fired_exactly(*cfg, message@, RuleName::Wordless);
    fired_exactly(*cfg, message@, RuleName::Emoji);
}

/// A message goes without a score exactly if the scores of its rules do not add up within an `i64`.
pub proof fn messages_are_scored_unless_they_overflow(
    message: &str,
    cfg: &Config,
    r: Option<(i64, Vec<String>)>,
    rules: Vec<RuleName>,
    sum: Option<i64>,
)
    requires
        call_ensures(try_score_message, (message, cfg), r),
        call_ensures(fired_rules, (message, cfg), rules),
        call_ensures(checked_total, (cfg, &rules), sum),
    ensures
        r is None <==> !totals_fit(*cfg, rules@),
        r is None <==> sum is None,
        r matches Some(score) ==> sum == Some(score.0),
{
}

/// Notes name the rules, one for one.
pub proof fn notes_name_rules_one_for_one(rules: &Vec<RuleName>, r: Vec<String>, i: int)
    requires
        call_ensures(notes_of, (rules,), r),
    ensures
        r@.len() == rules@.len(),
        0 <= i < rules@.len() ==> {
            let note = r@[i]@;
            &&& note == "punctuation"@ <==> rules@[i] == RuleName::Punctuation
            &&& note == "question"@ <==> rules@[i] == RuleName::Question
            &&& note == "length"@ <==> rules@[i] == RuleName::Length
            &&& note == "spam"@ <==> rules@[i] == RuleName::Spam
            &&& note == "no_spacing"@ <==> rules@[i] == RuleName::NoSpacing
            &&& note == "wordless"@ <==> rules@[i] == RuleName::Wordless
            &&& note == "emoji"@ <==> rules@[i] == RuleName::Emoji
            &&& note == "frequency"@ <==> rules@[i] == RuleName::Frequency
        },
{
    literals_tell_rules_apart();
    assert(texts(r@).len() == r@.len());
    assert(names(rules@).len() == rules@.len());
    if 0 <= i < rules@.len() {
        assert(texts(r@)[i] == r@[i]@);
        assert(names(rules@)[i] == rules@[i].text());
    }
}

/// The names of the rules differ.
proof fn literals_tell_rules_apart()
    ensures
        forall|name: RuleName|
            {
                let note = #[trigger] name.text();
                &&& note == "punctuation"@ <==> name == RuleName::Punctuation
                &&& note == "question"@ <==> name == RuleName::Question
                &&& note == "length"@ <==> name == RuleName::Length
                &&& note == "spam"@ <==> name == RuleName::Spam
                &&& note == "no_spacing"@ <==> name == RuleName::NoSpacing
                &&& note == "wordless"@ <==> name == RuleName::Wordless
                &&& note == "emoji"@ <==> name == RuleName::Emoji
                &&& note == "frequency"@ <==> name == RuleName::Frequency
            },
{
    reveal_strlit("punctuation");
    reveal_strlit("question");
    reveal_strlit("length");
    reveal_strlit("spam");
    reveal_strlit("no_spacing");
    reveal_strlit("wordless");
    reveal_strlit("emoji");
    reveal_strlit("frequency");
    assert("punctuation"@[0] == 'p' && "question"@[0] == 'q' && "length"@[0] == 'l' && "spam"@[0]
        == 's' && "no_spacing"@[0] == 'n' && "wordless"@[0] == 'w' && "emoji"@[0] == 'e'
        && "frequency"@[0] == 'f');
}

} // verus!
