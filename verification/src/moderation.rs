//! What the module does with the messages it receives.

use crate::config::{Config, RuleName};
use crate::json::{self, JsonView};
use crate::protocol::{
    contain, Container, ContainerView, DatabaseQuery, DatabaseQueryView, Incoming, IncomingView,
    MessagePreProcess, MessagePreProcessView, Payload, PayloadView, PromptResponse,
    PromptResponseView, Sender, SenderView,
};
use crate::scoring::{self, try_score_message};
use crate::text;
use vstd::hash_map::StringHashMap;
use vstd::prelude::*;

verus! {

/// How often `c` occurs in `s`.
pub open spec fn occurrences(s: Seq<char>, c: char) -> nat
    decreases s.len(),
{
    if s.len() == 0 {
        0
    } else {
        occurrences(s.drop_last(), c) + if s.last() == c {
            1nat
        } else {
            0nat
        }
    }
}

/// Whether `id` has the shape of a UUID: 36 bytes, and four hyphens among its characters.
pub open spec fn uuid_shaped(id: Seq<char>) -> bool {
    occurrences(id, '-') == 4 && vstd::utf8::encode_utf8(id).len() == 36
}

/// Whether `id` has the shape of a UUID.
pub fn is_uuid_shaped(id: &str) -> (r: bool)
    ensures
        r == uuid_shaped(id@),
{
    let chars = text::chars_of(id);
    let mut hyphens: usize = 0;
    let mut i: usize = 0;
    while i < chars.len()
        invariant
            i <= chars.len(),
            hyphens <= i,
            hyphens == occurrences(chars@.take(i as int), '-'),
        decreases chars.len() - i,
    {
        proof {
            assert(chars@.take(i + 1).drop_last() =~= chars@.take(i as int));
        }
        if chars[i] == '-' {
            hyphens = hyphens + 1;
        }
        i = i + 1;
    }
    proof {
        assert(chars@.take(i as int) =~= id@);
    }
    hyphens == 4 && id.as_bytes().len() == 36
}

/// The reason that goes with a score: the rules that were met.
pub open spec fn reason(notes: Seq<Seq<char>>) -> Seq<char> {
    "score-messages: "@ + text::joined(notes)
}

/// The query's arguments: the user by UUID where the id has that shape, and by platform and
/// handle otherwise, and the reason.
pub open spec fn arguments(
    user: Seq<char>,
    platform: Seq<char>,
    notes: Seq<Seq<char>>,
) -> JsonView {
    JsonView::Object(
        if uuid_shaped(user) {
            json::no_members().insert("uuid7"@, JsonView::Text(user)).insert(
                "reason"@,
                JsonView::Text(reason(notes)),
            )
        } else {
            json::no_members().insert("platform"@, JsonView::Text(platform)).insert(
                "handle"@,
                JsonView::Text(user),
            ).insert("reason"@, JsonView::Text(reason(notes)))
        },
    )
}

/// The text of the query's arguments.
pub fn query_arguments(user: &str, platform: &str, notes: &Vec<String>) -> (r: String)
    ensures
        r@ == json::json_text(arguments(user@, platform@, scoring::texts(notes@))),
{
    let mut why = "score-messages: ".to_owned();
    why.append(text::join(notes).as_str());
    let mut fields = json::map_new();
    if is_uuid_shaped(user) {
        json::map_insert(&mut fields, "uuid7", json::value_of_text(user));
    } else {
        json::map_insert(&mut fields, "platform", json::value_of_text(platform));
        json::map_insert(&mut fields, "handle", json::value_of_text(user));
    }
    json::map_insert(&mut fields, "reason", json::value_of_text(why.as_str()));
    json::print(&json::value_of_object(fields))
}

/// The engine's query for a score: a commendation if it is positive, a reprimand otherwise.
pub open spec fn query_for(
    delta: int,
    user: Seq<char>,
    platform: Seq<char>,
    notes: Seq<Seq<char>>,
) -> DatabaseQueryView {
    DatabaseQueryView {
        query_id: if delta > 0 {
            "mod_commend"@
        } else {
            "mod_reprimand"@
        },
        sql: json::json_text(arguments(user, platform, notes)),
        params: Seq::empty(),
    }
}

/// The engine's query for a score.
pub fn score_query(delta: i64, user: &str, platform: &str, notes: &Vec<String>) -> (r:
    DatabaseQuery)
    ensures
        r@ == query_for(delta as int, user@, platform@, scoring::texts(notes@)),
{
    let query_id = if delta > 0 {
        "mod_commend"
    } else {
        "mod_reprimand"
    };
    let r = DatabaseQuery {
        query_id: query_id.to_owned(),
        sql: query_arguments(user, platform, notes),
        params: Vec::new(),
    };
    proof {
        assert(r@.params =~= Seq::empty());
    }
    r
}

/// When each user last wrote, in nanoseconds since a fixed point.
pub struct Tracker {
    last: StringHashMap<u128>,
}

impl View for Tracker {
    type V = Map<Seq<char>, u128>;

    closed spec fn view(&self) -> Map<Seq<char>, u128> {
        self.last@
    }
}

/// What is to be done with a message that was received.
#[derive(Debug)]
pub enum Reaction {
    /// Nothing.
    Ignore,
    /// Hand the answer to the prompt that waits for it.
    Forward(PromptResponse),
    /// Send `query`, which applies the score `delta` for the rules in `notes`.
    Apply { query: Container, delta: i64, notes: Vec<String> },
    /// Fail: the scores add up to more than an `i64` holds.
    Overflow,
}

/// What a `Reaction` holds.
pub enum ReactionView {
    Ignore,
    Forward(PromptResponseView),
    Apply { query: ContainerView, delta: int, notes: Seq<Seq<char>> },
    Overflow,
}

impl View for Reaction {
    type V = ReactionView;

    open spec fn view(&self) -> ReactionView {
        match *self {
            Reaction::Ignore => ReactionView::Ignore,
            Reaction::Forward(resp) => ReactionView::Forward(resp@),
            Reaction::Apply { query, delta, notes } => ReactionView::Apply {
                query: query@,
                delta: delta as int,
                notes: scoring::texts(notes@),
            },
            Reaction::Overflow => ReactionView::Overflow,
        }
    }
}

/// Whether the frequency rule watches `user`.
pub open spec fn watched(cfg: Config, user: Seq<char>) -> bool {
    cfg.frequency.toggle && user.len() > 0
}

/// The time from `then` to `now`, or 0 where `then` is the later one.
pub open spec fn since(then: u128, now: u128) -> int {
    if now >= then {
        now - then
    } else {
        0
    }
}

/// Whether `user` wrote less than the configured interval before `now`.
pub open spec fn too_soon(
    last: Map<Seq<char>, u128>,
    cfg: Config,
    user: Seq<char>,
    now: u128,
) -> bool {
    last.contains_key(user) && since(last[user], now) < cfg.frequency.interval_secs
        * 1_000_000_000
}

/// The rules that a message of `user` meets at `now`.
pub open spec fn rules_met(
    last: Map<Seq<char>, u128>,
    cfg: Config,
    user: Seq<char>,
    message: Seq<char>,
    now: u128,
) -> Seq<RuleName> {
    if watched(cfg, user) && too_soon(last, cfg, user, now) {
        scoring::fired(cfg, message).push(RuleName::Frequency)
    } else {
        scoring::fired(cfg, message)
    }
}

/// What is to be done with a chat message.
pub open spec fn reaction_to_chat(
    last: Map<Seq<char>, u128>,
    pre: MessagePreProcessView,
    cfg: Config,
    sender: SenderView,
    now: u128,
) -> ReactionView {
    match pre.raw_message {
        None => ReactionView::Ignore,
        Some(chat) => {
            let rules = rules_met(last, cfg, chat.user_uuid7, chat.raw_message, now);
            let delta = scoring::total(cfg, rules);
            let notes = scoring::names(rules);
            if !scoring::totals_fit(cfg, rules) {
                ReactionView::Overflow
            } else if delta == 0 || pre.message_uuid7.len() == 0 {
                ReactionView::Ignore
            } else {
                ReactionView::Apply {
                    query: crate::protocol::contained(
                        sender,
                        PayloadView::DatabaseQuery(
                            query_for(delta, chat.user_uuid7, chat.platform, notes),
                        ),
                    ),
                    delta,
                    notes,
                }
            }
        },
    }
}

/// When each user last wrote, after a chat message. A failure leaves it as it was.
pub open spec fn last_after_chat(
    last: Map<Seq<char>, u128>,
    pre: MessagePreProcessView,
    cfg: Config,
    now: u128,
) -> Map<Seq<char>, u128> {
    match pre.raw_message {
        None => last,
        Some(chat) => {
            let rules = rules_met(last, cfg, chat.user_uuid7, chat.raw_message, now);
            if watched(cfg, chat.user_uuid7) && scoring::totals_fit(cfg, rules) {
                last.insert(chat.user_uuid7, now)
            } else {
                last
            }
        },
    }
}

/// What is to be done with a message.
pub open spec fn reaction_to(
    last: Map<Seq<char>, u128>,
    incoming: IncomingView,
    cfg: Config,
    sender: SenderView,
    now: u128,
) -> ReactionView {
    match incoming {
        IncomingView::PromptResponse(resp) => ReactionView::Forward(resp),
        IncomingView::MessagePreProcess(pre) => reaction_to_chat(last, pre, cfg, sender, now),
        IncomingView::Other => ReactionView::Ignore,
    }
}

/// When each user last wrote, after a message.
pub open spec fn last_after(
    last: Map<Seq<char>, u128>,
    incoming: IncomingView,
    cfg: Config,
    now: u128,
) -> Map<Seq<char>, u128> {
    match incoming {
        IncomingView::MessagePreProcess(pre) => last_after_chat(last, pre, cfg, now),
        _ => last,
    }
}

/// One more rule adds its score, and fits where the sum does.
proof fn one_more_rule(cfg: Config, rules: Seq<RuleName>, name: RuleName)
    ensures
        scoring::total(cfg, rules.push(name)) == scoring::total(cfg, rules) + cfg.rule(name).score,
        scoring::totals_fit(cfg, rules.push(name)) <==> scoring::totals_fit(cfg, rules) && i64::MIN
            <= scoring::total(cfg, rules.push(name)) <= i64::MAX,
        scoring::names(rules.push(name)) == scoring::names(rules).push(name.text()),
{
    let more = rules.push(name);
    assert(more.drop_last() =~= rules);
    assert(forall|n: int| 0 <= n <= rules.len() ==> more.take(n) =~= rules.take(n));
    assert(more.take(more.len() as int) =~= more);
    assert(scoring::names(more) =~= scoring::names(rules).push(name.text()));
    if scoring::totals_fit(cfg, more) {
        assert(i64::MIN <= scoring::total(cfg, more.take(more.len() as int)) <= i64::MAX);
        assert forall|n: int| 0 <= n <= rules.len() implies i64::MIN <= #[trigger] scoring::total(
            cfg,
            rules.take(n),
        ) <= i64::MAX by {
            assert(i64::MIN <= scoring::total(cfg, more.take(n)) <= i64::MAX);
        }
    }
    if scoring::totals_fit(cfg, rules) && i64::MIN <= scoring::total(cfg, more) <= i64::MAX {
        assert forall|n: int| 0 <= n <= more.len() implies i64::MIN <= #[trigger] scoring::total(
            cfg,
            more.take(n),
        ) <= i64::MAX by {
            if n <= rules.len() {
                assert(i64::MIN <= scoring::total(cfg, rules.take(n)) <= i64::MAX);
            }
        }
    }
}

impl Tracker {
    /// Nobody wrote yet.
    pub fn new() -> (r: Tracker)
        ensures
            r@ == Map::<Seq<char>, u128>::empty(),
    {
        Tracker { last: StringHashMap::new() }
    }

    /// Whether `user` wrote less than the configured interval before `now`.
    pub fn is_too_soon(&self, cfg: &Config, user: &str, now: u128) -> (r: bool)
        ensures
            r == too_soon(self@, *cfg, user@, now),
    {
        match self.last.get(user) {
            Some(then) => {
                let elapsed: u128 = if now >= *then {
                    now - *then
                } else {
                    0
                };
                elapsed < cfg.frequency.interval_secs as u128 * 1_000_000_000
            },
            None => false,
        }
    }

    /// Scores a chat message, and keeps when its user wrote.
    fn on_chat(&mut self, pre: &MessagePreProcess, cfg: &Config, sender: &Sender, now: u128) -> (r:
        Reaction)
        ensures
            r@ == reaction_to_chat(old(self)@, pre@, *cfg, sender@, now),
            final(self)@ == last_after_chat(old(self)@, pre@, *cfg, now),
    {
        let chat = match &pre.raw_message {
            Some(chat) => chat,
            None => {
                return Reaction::Ignore;
            },
        };
        let user = chat.user_uuid7.as_str();
        let ghost rules = scoring::fired(*cfg, chat.raw_message@);
        proof {
            one_more_rule(*cfg, rules, RuleName::Frequency);
        }
        let (mut delta, mut notes) = match try_score_message(chat.raw_message.as_str(), cfg) {
            Some(score) => score,
            None => {
                return Reaction::Overflow;
            },
        };
        if cfg.frequency.toggle && !user.is_empty() {
            if self.is_too_soon(cfg, user, now) {
                match delta.checked_add(cfg.frequency.score) {
                    Some(sum) => {
                        delta = sum;
                    },
                    None => {
                        return Reaction::Overflow;
                    },
                }
                let ghost before = scoring::texts(notes@);
                notes.push(RuleName::Frequency.as_str().to_owned());
                proof {
                    assert(scoring::texts(notes@) =~= before.push(RuleName::Frequency.text()));
                }
            }
            self.last.insert(chat.user_uuid7.clone(), now);
        }
        if delta == 0 || pre.message_uuid7.as_str().is_empty() {
            return Reaction::Ignore;
        }
        let query = score_query(delta, user, chat.platform.as_str(), &notes);
        Reaction::Apply { query: contain(sender, Payload::DatabaseQuery(query)), delta, notes }
    }

    /// Decides what is to be done with a message that came at `now`, and keeps when its user
    /// wrote.
    pub fn handle(&mut self, incoming: Incoming, cfg: &Config, sender: &Sender, now: u128) -> (r:
        Reaction)
        ensures
            r@ == reaction_to(old(self)@, incoming@, *cfg, sender@, now),
            final(self)@ == last_after(old(self)@, incoming@, *cfg, now),
    {
        match incoming {
            Incoming::PromptResponse(resp) => Reaction::Forward(resp),
            Incoming::MessagePreProcess(pre) => self.on_chat(&pre, cfg, sender, now),
            Incoming::Other => Reaction::Ignore,
        }
    }
}

/// A user who writes again is too soon exactly within the interval after the last message that
/// was handled.
pub proof fn repeats_are_too_soon_within_the_interval(
    last: Map<Seq<char>, u128>,
    pre: MessagePreProcessView,
    cfg: Config,
    then: u128,
    now: u128,
)
    requires
        pre.raw_message matches Some(chat) && watched(cfg, chat.user_uuid7) && scoring::totals_fit(
            cfg,
            rules_met(last, cfg, chat.user_uuid7, chat.raw_message, then),
        ),
        then <= now,
    ensures
        too_soon(
            last_after_chat(last, pre, cfg, then),
            cfg,
            pre.raw_message->Some_0.user_uuid7,
            now,
        ) <==> now - then < cfg.frequency.interval_secs * 1_000_000_000,
{
}

/// A message of one user leaves every other user's time as it was.
pub proof fn users_do_not_affect_one_another(
    last: Map<Seq<char>, u128>,
    pre: MessagePreProcessView,
    cfg: Config,
    other: Seq<char>,
    then: u128,
    now: u128,
)
    requires
        pre.raw_message matches Some(chat) ==> chat.user_uuid7 != other,
    ensures
        too_soon(last_after_chat(last, pre, cfg, then), cfg, other, now) == too_soon(
            last,
            cfg,
            other,
            now,
        ),
{
}

/// Nobody's first message is too soon.
pub proof fn first_messages_are_in_time(cfg: Config, user: Seq<char>, message: Seq<char>, now: u128)
    ensures
        rules_met(Map::empty(), cfg, user, message, now) == scoring::fired(cfg, message),
{
}

/// A score that is applied is not 0, and commends exactly if it is positive.
pub proof fn applied_scores_have_their_sign(
    last: Map<Seq<char>, u128>,
    incoming: IncomingView,
    cfg: Config,
    sender: SenderView,
    now: u128,
)
    ensures
        reaction_to(last, incoming, cfg, sender, now) matches ReactionView::Apply {
            query,
            delta,
            ..
        } ==> {
            &&& delta != 0
            &&& query.payload matches PayloadView::DatabaseQuery(q) && (q.query_id
                == "mod_commend"@ <==> delta > 0) && (q.query_id == "mod_reprimand"@ <==> delta < 0)
        },
{
    reveal_strlit("mod_commend");
    reveal_strlit("mod_reprimand");
    assert("mod_commend"@.len() != "mod_reprimand"@.len());
}

/// A message without an id, or without a chat message in it, is never scored.
pub proof fn messages_without_id_are_ignored(
    last: Map<Seq<char>, u128>,
    pre: MessagePreProcessView,
    cfg: Config,
    sender: SenderView,
    now: u128,
)
    requires
        pre.message_uuid7.len() == 0 || pre.raw_message is None,
    ensures
        !(reaction_to_chat(last, pre, cfg, sender, now) is Apply),
{
}

/// With the default configuration no message makes the scores overflow.
pub proof fn default_scores_never_overflow(
    last: Map<Seq<char>, u128>,
    incoming: IncomingView,
    sender: SenderView,
    now: u128,
)
    ensures
        !(reaction_to(last, incoming, crate::config::initial_config(), sender, now) is Overflow),
{
    let cfg = crate::config::initial_config();
    if let IncomingView::MessagePreProcess(pre) = incoming {
        if let Some(chat) = pre.raw_message {
            scoring::fired_in_order(cfg, chat.raw_message);
            scoring::moderate_scores_fit(
                cfg,
                rules_met(last, cfg, chat.user_uuid7, chat.raw_message, now),
            );
        }
    }
}

/// Counting one more character.
proof fn occurrences_step(s: Seq<char>, n: int, c: char)
    requires
        0 <= n < s.len(),
    ensures
        occurrences(s.take(n + 1), c) == occurrences(s.take(n), c) + if s[n] == c {
            1nat
        } else {
            0nat
        },
{
    assert(s.take(n + 1).drop_last() =~= s.take(n));
}

/// Characters other than `c` count for nothing.
proof fn occurrences_skip(s: Seq<char>, from: int, to: int, c: char)
    requires
        0 <= from <= to <= s.len(),
        forall|i: int| from <= i < to ==> s[i] != c,
    ensures
        occurrences(s.take(to), c) == occurrences(s.take(from), c),
    decreases to - from,
{
    if from < to {
        occurrences_step(s, to - 1, c);
        occurrences_skip(s, from, to - 1, c);
    }
}

/// The id of a prompt has the shape of a UUID.
pub proof fn prompt_ids_are_uuid_shaped(id: Seq<char>)
    requires
        crate::prompt::uuid7_text(id),
    ensures
        uuid_shaped(id),
{
    assert(forall|i: int| 0 <= i < 36 && i != 8 && i != 13 && i != 18 && i != 23 ==> id[i] != '-');
    assert(id[8] == '-' && id[13] == '-' && id[18] == '-' && id[23] == '-');
    assert(id.take(0).len() == 0);
    occurrences_skip(id, 0, 8, '-');
    occurrences_step(id, 8, '-');
    occurrences_skip(id, 9, 13, '-');
    occurrences_step(id, 13, '-');
    occurrences_skip(id, 14, 18, '-');
    occurrences_step(id, 18, '-');
    occurrences_skip(id, 19, 23, '-');
    occurrences_step(id, 23, '-');
    occurrences_skip(id, 24, 36, '-');
    assert(id.take(36) =~= id);
    assert(vstd::utf8::is_ascii_chars(id)) by {
        assert forall|i: int| 0 <= i < id.len() implies 0 <= #[trigger] id[i] as nat <= 127 by {
            if i == 8 || i == 13 || i == 18 || i == 23 {
                assert(id[i] == '-');
            }
        }
    }
    vstd::utf8::is_ascii_chars_encode_utf8(id);
}

/// Counting is what a multiset does.
proof fn occurrences_are_counted(s: Seq<char>, c: char)
    ensures
        occurrences(s, c) == s.to_multiset().count(c),
    decreases s.len(),
{
    broadcast use vstd::seq_lib::group_to_multiset_ensures;

    if s.len() > 0 {
        occurrences_are_counted(s.drop_last(), c);
        assert(s.drop_last().push(s.last()) =~= s);
    } else {
        assert(!s.contains(c));
    }
}

/// An id has the shape of a UUID exactly if it takes 36 bytes and four of its characters are
/// hyphens, wherever they stand.
pub proof fn uuids_have_four_hyphens_in_36_bytes(id: &str, r: bool)
    requires
        call_ensures(is_uuid_shaped, (id,), r),
    ensures
        r <==> vstd::utf8::encode_utf8(id@).len() == 36 && id@.to_multiset().count('-') == 4,
        r == uuid_shaped(id@),
{
    occurrences_are_counted(id@, '-');
}

/// The keys of a query's arguments differ.
proof fn argument_keys_differ()
    ensures
        "uuid7"@ != "reason"@,
        "platform"@ != "reason"@,
        "handle"@ != "reason"@,
        "platform"@ != "handle"@,
        "uuid7"@ != "handle"@,
        "uuid7"@ != "platform"@,
{
    reveal_strlit("uuid7");
    reveal_strlit("reason");
    reveal_strlit("platform");
    reveal_strlit("handle");
    assert("uuid7"@[0] == 'u' && "reason"@[0] == 'r' && "platform"@[0] == 'p' && "handle"@[0]
        == 'h');
}

/// A query, of either sign, names the user that it is about: by `uuid7` alone where the id has the
/// shape of a UUID, and otherwise by `platform` and `handle`. The reason lists the rules. A query
/// commends for a positive score and reprimands otherwise, and has no parameters.
pub proof fn queries_name_their_user(
    delta: i64,
    user: &str,
    platform: &str,
    notes: &Vec<String>,
    r: DatabaseQuery,
)
    requires
        call_ensures(score_query, (delta, user, platform, notes), r),
    ensures
        r.query_id@ == "mod_commend"@ <==> delta > 0,
        r.query_id@ == "mod_reprimand"@ <==> delta <= 0,
        r.params@.len() == 0,
        exists|o: Map<Seq<char>, JsonView>|
            {
                let shaped = vstd::utf8::encode_utf8(user@).len() == 36
                    && user@.to_multiset().count('-') == 4;
                &&& r.sql@ == #[trigger] json::json_text(JsonView::Object(o))
                &&& shaped ==> o.dom() == set!["uuid7"@, "reason"@] && o["uuid7"@]
                    == JsonView::Text(user@)
                &&& !shaped ==> o.dom() == set!["platform"@, "handle"@, "reason"@] && o["handle"@]
                    == JsonView::Text(user@) && o["platform"@] == JsonView::Text(platform@)
                &&& o["reason"@] == JsonView::Text(
                    "score-messages: "@ + text::joined(notes@.map_values(|s: String| s@)),
                )
            },
{
    reveal_strlit("mod_commend");
    reveal_strlit("mod_reprimand");
    assert("mod_commend"@.len() != "mod_reprimand"@.len());
    assert(r@.params.len() == r.params@.len());
    occurrences_are_counted(user@, '-');
    argument_keys_differ();
    let o = arguments(user@, platform@, scoring::texts(notes@))->Object_0;
    assert(JsonView::Object(o) == arguments(user@, platform@, scoring::texts(notes@)));
    assert(scoring::texts(notes@) =~= notes@.map_values(|s: String| s@));
    if uuid_shaped(user@) {
        assert(o.dom() =~= set!["uuid7"@, "reason"@]);
    } else {
        assert(o.dom() =~= set!["platform"@, "handle"@, "reason"@]);
    }
    assert(r.sql@ == json::json_text(JsonView::Object(o)));
}

/// A score is applied by a query of the module itself, about the user and the platform of the chat
/// message, with the score's sign and the notes that are reported with it.
pub proof fn scores_are_applied_to_who_wrote(
    t: &mut Tracker,
    pre: MessagePreProcess,
    cfg: &Config,
    sender: &Sender,
    now: u128,
    r: Reaction,
)
    requires
        call_ensures(Tracker::handle, (t, Incoming::MessagePreProcess(pre), cfg, sender, now), r),
    ensures
        r matches Reaction::Apply { query, delta, notes } ==> {
            &&& pre.raw_message is Some
            &&& query.version == 1
            &&& query.auth_token@ == sender.auth_token@
            &&& query.module_name@ == sender.module_name@
            &&& query.module_instance_uuid7@ == sender.instance_uuid@
            &&& query.payload is DatabaseQuery
            &&& {
                let q = query.payload->DatabaseQuery_0;
                let user = pre.raw_message->Some_0.user_uuid7@;
                let platform = pre.raw_message->Some_0.platform@;
                let shaped = vstd::utf8::encode_utf8(user).len() == 36
                    && user.to_multiset().count('-') == 4;
                &&& delta > 0 ==> q.query_id@ == "mod_commend"@
                &&& delta < 0 ==> q.query_id@ == "mod_reprimand"@
                &&& q.params@.len() == 0
                &&& exists|o: Map<Seq<char>, JsonView>|
                    {
                        &&& q.sql@ == #[trigger] json::json_text(JsonView::Object(o))
                        &&& shaped ==> o.dom() == set!["uuid7"@, "reason"@] && o["uuid7"@]
                            == JsonView::Text(user)
                        &&& !shaped ==> o.dom() == set!["platform"@, "handle"@, "reason"@]
                            && o["handle"@] == JsonView::Text(user) && o["platform"@]
                            == JsonView::Text(platform)
                        &&& o["reason"@] == JsonView::Text(
                            "score-messages: "@ + text::joined(notes@.map_values(|s: String| s@)),
                        )
                    }
            }
        },
{
    if let Reaction::Apply { query, delta, notes } = r {
        let chat = pre.raw_message->Some_0;
        let user = chat.user_uuid7@;
        occurrences_are_counted(user, '-');
        argument_keys_differ();
        assert(scoring::texts(notes@) =~= notes@.map_values(|s: String| s@));
        let q = query.payload->DatabaseQuery_0;
        assert(query@.payload == PayloadView::DatabaseQuery(q@));
        assert(q@.params.len() == q.params@.len());
        let all = arguments(user, chat.platform@, scoring::texts(notes@));
        let o = all->Object_0;
        assert(JsonView::Object(o) == all);
        if uuid_shaped(user) {
            assert(o.dom() =~= set!["uuid7"@, "reason"@]);
        } else {
            assert(o.dom() =~= set!["platform"@, "handle"@, "reason"@]);
        }
        assert(q.sql@ == json::json_text(JsonView::Object(o)));
    }
}

/// A chat message scores what its text does, and the frequency rule adds its score and its note
/// last where it is on and the user has an id and wrote less than the interval ago. The message is
/// ignored exactly if that comes to 0 or it has no id, and the scores overflow exactly if a step of
/// the sum leaves an `i64`. Unless they do, the time of the message is kept for a user with an id,
/// while the rule is on, and that of no one else.
pub proof fn chat_messages_are_scored(
    t: &mut Tracker,
    pre: MessagePreProcess,
    cfg: &Config,
    sender: &Sender,
    now: u128,
    r: Reaction,
)
    requires
        call_ensures(Tracker::handle, (t, Incoming::MessagePreProcess(pre), cfg, sender, now), r),
        pre.raw_message is Some,
    ensures
        ({
            let chat = pre.raw_message->Some_0;
            let user = chat.user_uuid7@;
            let rules = scoring::fired(*cfg, chat.raw_message@);
            let again = cfg.frequency.toggle && user != Seq::<char>::empty() && old(
                t,
            )@.contains_key(user) && cfg.frequency.interval_secs > 0 && now < old(t)@[user]
                + cfg.frequency.interval_secs * 1_000_000_000;
            let sum = if again {
                scoring::total(*cfg, rules) + cfg.frequency.score
            } else {
                scoring::total(*cfg, rules)
            };
            let fits = scoring::totals_fit(*cfg, rules) && -9_223_372_036_854_775_808 <= sum
                <= 9_223_372_036_854_775_807;
            &&& r is Overflow <==> !fits
            &&& r is Ignore <==> fits && (sum == 0 || pre.message_uuid7@.len() == 0)
            &&& !(r is Forward)
            &&& r matches Reaction::Apply { delta, notes, .. } ==> {
                &&& delta == sum
                &&& notes@.map_values(|s: String| s@) == if again {
                    scoring::names(rules).push("frequency"@)
                } else {
                    scoring::names(rules)
                }
            }
            &&& final(t)@ == if fits && cfg.frequency.toggle && user != Seq::<char>::empty() {
                old(t)@.insert(user, now)
            } else {
                old(t)@
            }
        }),
{
    let chat = pre.raw_message->Some_0;
    let rules = scoring::fired(*cfg, chat.raw_message@);
    one_more_rule(*cfg, rules, RuleName::Frequency);
    assert(rules.take(rules.len() as int) =~= rules);
    if scoring::totals_fit(*cfg, rules) {
        assert(i64::MIN <= scoring::total(*cfg, rules.take(rules.len() as int)) <= i64::MAX);
    }
    assert(chat.user_uuid7@.len() == 0 ==> chat.user_uuid7@ =~= Seq::<char>::empty());
    if let Reaction::Apply { notes, .. } = r {
        assert(scoring::texts(notes@) =~= notes@.map_values(|s: String| s@));
    }
}

/// Answers to prompts are forwarded as they came, and nothing but chat messages is scored or kept.
pub proof fn only_chat_messages_are_scored(
    t: &mut Tracker,
    incoming: Incoming,
    cfg: &Config,
    sender: &Sender,
    now: u128,
    r: Reaction,
)
    requires
        call_ensures(Tracker::handle, (t, incoming, cfg, sender, now), r),
        incoming matches Incoming::MessagePreProcess(pre) ==> pre.raw_message is None,
    ensures
        final(t)@ == old(t)@,
        incoming matches Incoming::PromptResponse(resp) ==> (r matches Reaction::Forward(same)
            && same.prompt_id_uuid7@ == resp.prompt_id_uuid7@ && same.accepted == resp.accepted
            && same.reason@ == resp.reason@),
        !(incoming is PromptResponse) ==> r is Ignore,
{
}

/// A user who writes again is punished exactly within the interval after the last message, whatever
/// the shape of the id, while the rule is on: the next message scores what its text does and the
/// rule's score, and its notes end with the rule's name.
pub proof fn writing_again_within_the_interval_is_punished(
    t1: &mut Tracker,
    first: MessagePreProcess,
    cfg1: &Config,
    sender1: &Sender,
    then: u128,
    r1: Reaction,
    t2: &mut Tracker,
    second: MessagePreProcess,
    cfg2: &Config,
    sender2: &Sender,
    now: u128,
    r2: Reaction,
)
    requires
        call_ensures(
            Tracker::handle,
            (t1, Incoming::MessagePreProcess(first), cfg1, sender1, then),
            r1,
        ),
        call_ensures(
            Tracker::handle,
            (t2, Incoming::MessagePreProcess(second), cfg2, sender2, now),
            r2,
        ),
        old(t2)@ == final(t1)@,
        first.raw_message is Some,
        second.raw_message is Some,
        first.raw_message->Some_0.user_uuid7@ == second.raw_message->Some_0.user_uuid7@,
        first.raw_message->Some_0.user_uuid7@.len() > 0,
        cfg1.frequency.toggle,
        cfg2.frequency.toggle,
        !(r1 is Overflow),
        then <= now,
    ensures
        ({
            let chat = second.raw_message->Some_0;
            let rules = scoring::fired(*cfg2, chat.raw_message@);
            let own = scoring::total(*cfg2, rules);
            if now - then < cfg2.frequency.interval_secs * 1_000_000_000 {
                &&& rules_met(final(t1)@, *cfg2, chat.user_uuid7@, chat.raw_message@, now)
                    == rules.push(RuleName::Frequency)
                &&& r2 is Ignore ==> own + cfg2.frequency.score == 0 || second.message_uuid7@.len()
                    == 0
                &&& r2 matches Reaction::Apply { delta, notes, .. } ==> {
                    &&& delta == own + cfg2.frequency.score
                    &&& notes@.map_values(|s: String| s@) == scoring::names(rules).push(
                        "frequency"@,
                    )
                }
            } else {
                &&& rules_met(final(t1)@, *cfg2, chat.user_uuid7@, chat.raw_message@, now) == rules
                &&& r2 is Ignore ==> own == 0 || second.message_uuid7@.len() == 0
                &&& r2 matches Reaction::Apply { delta, notes, .. } ==> {
                    &&& delta == own
                    &&& notes@.map_values(|s: String| s@) == scoring::names(rules)
                }
            }
        }),
{
    let chat = second.raw_message->Some_0;
    let rules = scoring::fired(*cfg2, chat.raw_message@);
    one_more_rule(*cfg2, rules, RuleName::Frequency);
    if let Reaction::Apply { notes, .. } = r2 {
        assert(scoring::texts(notes@) =~= notes@.map_values(|s: String| s@));
    }
}

/// A message says nothing of when anyone else wrote.
pub proof fn others_keep_their_times(
    t: &mut Tracker,
    pre: MessagePreProcess,
    cfg: &Config,
    sender: &Sender,
    now: u128,
    r: Reaction,
    other: Seq<char>,
)
    requires
        call_ensures(Tracker::handle, (t, Incoming::MessagePreProcess(pre), cfg, sender, now), r),
        pre.raw_message matches Some(chat) ==> chat.user_uuid7@ != other,
    ensures
        final(t)@.contains_key(other) <==> old(t)@.contains_key(other),
        old(t)@.contains_key(other) ==> final(t)@[other] == old(t)@[other],
{
}

/// Before anyone wrote, nobody is too soon; afterwards, those who wrote less than the interval ago.
pub proof fn too_soon_is_within_the_interval(
    t: &Tracker,
    cfg: &Config,
    user: &str,
    now: u128,
    r: bool,
)
    requires
        call_ensures(Tracker::is_too_soon, (t, cfg, user, now), r),
    ensures
        call_ensures(Tracker::new, (), *t) ==> !r,
        !t@.contains_key(user@) ==> !r,
        t@.contains_key(user@) ==> (r <==> cfg.frequency.interval_secs > 0 && now < t@[user@]
            + cfg.frequency.interval_secs * 1_000_000_000),
{
}

} // verus!
