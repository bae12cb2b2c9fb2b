//! Subscription management for WebSocket channels: which channels are
//! requested and which are confirmed, and the subscribe and unsubscribe
//! messages.

use crate::data::Channel;
use crate::error::SubscriptionError;
use crate::json_text::{array_of_strings, json_quoted, member_text, push_member, quote, string_array};
use crate::middleware::new_request_id;
use crate::parser::{as_text, field, json_of, parse_json_text, JsonValue};
use crate::text::{contains, contains_text, lemma_prefix_of_concat};
use vstd::prelude::*;

verus! {

broadcast use vstd::string::group_string_axioms;

/// The key of a channel: its name, then `:symbol` and `:interval` where given.
pub open spec fn key_of(c: Channel) -> Seq<char> {
    c.name@ + match c.symbol {
        Some(s) => ":"@ + s@,
        None => Seq::empty(),
    } + match c.interval {
        Some(i) => ":"@ + i@,
        None => Seq::empty(),
    }
}

/// The channel names Kraken accepts.
pub open spec fn valid_names() -> Seq<Seq<char>> {
    seq!["ticker"@, "ohlc"@, "trade"@, "book"@, "spread"@]
}

/// The OHLC intervals Kraken accepts, in minutes.
pub open spec fn valid_intervals() -> Seq<Seq<char>> {
    seq!["1"@, "5"@, "15"@, "30"@, "60"@, "240"@, "1440"@, "10080"@, "21600"@]
}

/// What is wrong with a channel, if anything: an unknown name, or an OHLC
/// interval Kraken does not offer.
pub open spec fn channel_problem(c: Channel) -> Option<Seq<char>> {
    if !valid_names().contains(c.name@) {
        Some(
            "Invalid channel name: "@ + c.name@
                + ". Valid channels: [\"ticker\", \"ohlc\", \"trade\", \"book\", \"spread\"]"@,
        )
    } else if c.name@ == "ohlc"@ && c.interval is Some && !valid_intervals().contains(c.interval->0@) {
        Some(
            "Invalid OHLC interval: "@ + c.interval->0@
                + ". Valid intervals: [\"1\", \"5\", \"15\", \"30\", \"60\", \"240\", \"1440\", \"10080\", \"21600\"]"@,
        )
    } else {
        None
    }
}

/// The first problem among channels.
pub open spec fn first_problem(cs: Seq<Channel>) -> Option<Seq<char>>
    decreases cs.len(),
{
    if cs.len() == 0 {
        None
    } else if channel_problem(cs[0]) is Some {
        channel_problem(cs[0])
    } else {
        first_problem(cs.drop_first())
    }
}

/// The symbols of the channels with the given name, in order.
pub open spec fn pairs_named(cs: Seq<Channel>, name: Seq<char>) -> Seq<Seq<char>>
    decreases cs.len(),
{
    if cs.len() == 0 {
        Seq::empty()
    } else {
        let rest = pairs_named(cs.drop_last(), name);
        let c = cs.last();
        if c.name@ == name && c.symbol is Some {
            rest.push(c.symbol->0@)
        } else {
            rest
        }
    }
}

/// The symbols of all channels that have one, in order.
pub open spec fn all_symbols(cs: Seq<Channel>) -> Seq<Seq<char>>
    decreases cs.len(),
{
    if cs.len() == 0 {
        Seq::empty()
    } else {
        let rest = all_symbols(cs.drop_last());
        match cs.last().symbol {
            Some(s) => rest.push(s@),
            None => rest,
        }
    }
}

/// A subscribe message for the given pairs of one channel.
pub open spec fn subscribe_text(pairs: Seq<Seq<char>>, name: Seq<char>) -> Seq<char> {
    "{"@ + member_text("event"@, json_quoted("subscribe"@)) + ","@ + member_text("pair"@, string_array(pairs)) + ","@
        + member_text("subscription"@, "{"@ + member_text("name"@, json_quoted(name)) + "}"@) + "}"@
}

/// What a subscribe request for channels gives: the message, or the
/// reason it is refused.
pub open spec fn subscribe_outcome(cs: Seq<Channel>) -> Result<Seq<char>, Seq<char>> {
    if cs.len() == 0 {
        Err("No channels provided"@)
    } else if first_problem(cs) is Some {
        Err(first_problem(cs)->0)
    } else if pairs_named(cs, "ticker"@).len() > 0 {
        Ok(subscribe_text(pairs_named(cs, "ticker"@), "ticker"@))
    } else if pairs_named(cs, "trade"@).len() > 0 {
        Ok(subscribe_text(pairs_named(cs, "trade"@), "trade"@))
    } else {
        Err("No valid pairs found"@)
    }
}

/// The subscription part of an unsubscribe message, keys in sorted order.
pub open spec fn unsubscribe_details(c: Channel) -> Seq<char> {
    let interval = match c.interval {
        Some(i) => member_text("interval"@, json_quoted(i@)) + ","@,
        None => Seq::empty(),
    };
    let symbol = match c.symbol {
        Some(s) => ","@ + member_text("symbol"@, json_quoted(s@)),
        None => Seq::empty(),
    };
    "{"@ + interval + member_text("name"@, json_quoted(c.name@)) + symbol + "}"@
}

/// An unsubscribe message for channels, the first of which gives the
/// subscription details, with a request id.
pub open spec fn unsubscribe_text(cs: Seq<Channel>, reqid: Seq<char>) -> Seq<char> {
    "{"@ + member_text("event"@, json_quoted("unsubscribe"@)) + ","@ + member_text("pair"@, string_array(all_symbols(cs)))
        + ","@ + member_text("reqid"@, json_quoted(reqid)) + ","@ + member_text("subscription"@, unsubscribe_details(cs[0]))
        + "}"@
}

/// The pending channels after adding channels, a later one replacing an
/// earlier one of the same key.
pub open spec fn pending_after(m: Map<Seq<char>, Channel>, cs: Seq<Channel>) -> Map<Seq<char>, Channel>
    decreases cs.len(),
{
    if cs.len() == 0 {
        m
    } else {
        pending_after(m, cs.drop_last()).insert(key_of(cs.last()), cs.last())
    }
}

/// Whether a sequence has no repeated item.
pub open spec fn distinct(s: Seq<Seq<char>>) -> bool {
    forall|i: int, j: int| 0 <= i < j < s.len() ==> s[i] != s[j]
}

/// A field of a JSON value as text.
pub open spec fn text_field(v: JsonValue, key: Seq<char>) -> Option<Seq<char>> {
    match field(v, key) {
        Some(x) => as_text(x),
        None => None,
    }
}

/// The channel name confirmed by a status message with the given status.
pub open spec fn confirmed_name(v: JsonValue, status: Seq<char>) -> Option<Seq<char>> {
    if text_field(v, "event"@) == Some("subscriptionStatus"@) && text_field(v, "status"@) == Some(status) {
        match field(v, "subscription"@) {
            Some(s) => text_field(s, "name"@),
            None => None,
        }
    } else {
        None
    }
}

/// Whether a status message reports a failed subscription.
pub open spec fn reports_error(v: JsonValue) -> bool {
    text_field(v, "event"@) == Some("subscriptionStatus"@) && text_field(v, "status"@) == Some("error"@)
}

/// The error text of a failed subscription.
pub open spec fn error_text(v: JsonValue) -> Seq<char> {
    match text_field(v, "errorMessage"@) {
        Some(m) => m,
        None => "Unknown subscription error"@,
    }
}

/// Keys without one key.
pub open spec fn without(s: Seq<Seq<char>>, k: Seq<char>) -> Seq<Seq<char>>
    decreases s.len(),
{
    if s.len() == 0 {
        s
    } else if s.last() == k {
        without(s.drop_last(), k)
    } else {
        without(s.drop_last(), k).push(s.last())
    }
}

proof fn lemma_without(s: Seq<Seq<char>>, k: Seq<char>)
    ensures
        forall|x: Seq<char>| #[trigger] without(s, k).contains(x) ==> s.contains(x) && x != k,
        distinct(s) ==> distinct(without(s, k)),
    decreases s.len(),
{
    if s.len() > 0 {
        let t = s.drop_last();
        lemma_without(t, k);
        assert forall|x: Seq<char>| #[trigger] t.contains(x) implies s.contains(x) by {
            let w = choose|w: int| 0 <= w < t.len() && t[w] == x;
            assert(s[w] == x);
        }
        if s.last() != k {
            let w0 = without(t, k);
            assert forall|x: Seq<char>| #[trigger] without(s, k).contains(x) implies s.contains(x) && x != k by {
                if x != s.last() {
                    let w = choose|w: int| 0 <= w < w0.push(s.last()).len() && w0.push(s.last())[w] == x;
                    assert(w < w0.len());
                    assert(w0.contains(x));
                } else {
                    assert(s[s.len() - 1] == x);
                }
            }
            if distinct(s) {
                assert forall|a: int, b: int| 0 <= a < b < without(s, k).len() implies without(s, k)[a] != without(s, k)[b] by {
                    if b == w0.len() {
                        assert(w0.contains(w0[a]));
                        assert(t.contains(w0[a]));
                        let w = choose|w: int| 0 <= w < t.len() && t[w] == w0[a];
                        assert(s[w] != s[s.len() - 1]);
                    }
                }
            }
        }
    }
}

/// Keys with one more key at the end, unless it is there already.
pub open spec fn with_key(s: Seq<Seq<char>>, k: Seq<char>) -> Seq<Seq<char>> {
    if s.contains(k) {
        s
    } else {
        s.push(k)
    }
}

/// The prefix of the message for a confirmation that is not JSON.
pub open spec fn invalid_confirmation_prefix() -> Seq<char> {
    "Invalid confirmation message: "@
}

/// Whether `r` and the manager `after` are what handling a subscription
/// status message's JSON value `v` gives from `before`: a confirmed
/// subscription moves its channel name from pending to confirmed, a
/// reported error is returned, and anything else changes nothing.
pub open spec fn confirmation_applied(
    before: SubscriptionManager,
    after: SubscriptionManager,
    v: JsonValue,
    r: Result<(), SubscriptionError>,
) -> bool {
    match confirmed_name(v, "subscribed"@) {
        Some(n) => r is Ok && after.active_keys() == with_key(before.active_keys(), n) && after.pending_map()
            == before.pending_map().remove(n),
        None => after.active_keys() == before.active_keys() && after.pending_map() == before.pending_map() && if reports_error(v) {
            r matches Err(SubscriptionError::SubscriptionFailed(m)) && m@ == error_text(v)
        } else {
            r is Ok
        },
    }
}

/// Whether `r` and the manager `after` are what handling an unsubscription
/// status message's JSON value `v` gives from `before`: a confirmed
/// unsubscription removes the channel name from the confirmed ones.
pub open spec fn unconfirmation_applied(
    before: SubscriptionManager,
    after: SubscriptionManager,
    v: JsonValue,
    r: Result<(), SubscriptionError>,
) -> bool {
    r is Ok && match confirmed_name(v, "unsubscribed"@) {
        Some(n) => after.active_keys() == without(before.active_keys(), n),
        None => after.active_keys() == before.active_keys(),
    }
}

/// Whether `r` is the error for a status message that is not JSON, with the
/// manager unchanged.
pub open spec fn confirmation_rejected(
    before: SubscriptionManager,
    after: SubscriptionManager,
    r: Result<(), SubscriptionError>,
) -> bool {
    &&& r matches Err(SubscriptionError::SubscriptionFailed(m)) && invalid_confirmation_prefix().is_prefix_of(m@)
    &&& after.active_keys() == before.active_keys()
    &&& after.pending_map() == before.pending_map()
}

/// Requested and confirmed channel subscriptions.
#[derive(Debug)]
pub struct SubscriptionManager {
    active: Vec<String>,
    pending: Vec<(String, Channel)>,
}

impl Default for SubscriptionManager {
    fn default() -> (m: Self)
        ensures
            m.wf(),
            m.active_keys() == Seq::<Seq<char>>::empty(),
            m.pending_map() == Map::<Seq<char>, Channel>::empty(),
    {
        SubscriptionManager::new()
    }
}

impl SubscriptionManager {
    /// The keys of the confirmed subscriptions, in the order confirmed.
    pub closed spec fn active_keys(&self) -> Seq<Seq<char>> {
        self.active@.map_values(|s: String| s@)
    }

    /// The requested, unconfirmed channels by key.
    pub closed spec fn pending_map(&self) -> Map<Seq<char>, Channel> {
        Map::new(
            |k: Seq<char>| exists|i: int| 0 <= i < self.pending@.len() && self.pending@[i].0@ == k,
            |k: Seq<char>| self.pending@[choose|i: int| 0 <= i < self.pending@.len() && self.pending@[i].0@ == k].1,
        )
    }

    /// Each key once among the confirmed and among the pending.
    pub closed spec fn wf(&self) -> bool {
        &&& distinct(self.active_keys())
        &&& forall|i: int, j: int|
            0 <= i < j < self.pending@.len() ==> #[trigger] self.pending@[i].0@ != #[trigger] self.pending@[j].0@
    }

    /// No subscriptions.
    pub fn new() -> (m: Self)
        ensures
            m.wf(),
            m.active_keys() == Seq::<Seq<char>>::empty(),
            m.pending_map() == Map::<Seq<char>, Channel>::empty(),
    {
        let m = SubscriptionManager { active: Vec::new(), pending: Vec::new() };
        assert(m.active_keys() =~= Seq::<Seq<char>>::empty());
        assert(m.pending_map() =~= Map::<Seq<char>, Channel>::empty());
        m
    }

    /// The subscribe message for channels: an error for no channels or for
    /// the first invalid one; otherwise the ticker symbols, or failing those
    /// the trade symbols, under their channel name (an error if neither has
    /// one). On success every channel is recorded as pending under its key.
    pub fn create_subscription_message(&mut self, channels: &[Channel]) -> (r: Result<String, SubscriptionError>)
        requires
            old(self).wf(),
        ensures
            final(self).wf(),
            final(self).active_keys() == old(self).active_keys(),
            match subscribe_outcome(channels@) {
                Ok(t) => r matches Ok(m) && m@ == t,
                Err(e) => r matches Err(SubscriptionError::InvalidChannel(m)) && m@ == e,
            },
            r is Ok ==> final(self).pending_map() == pending_after(old(self).pending_map(), channels@),
            r is Err ==> final(self).pending_map() == old(self).pending_map(),
    {
        if channels.len() == 0 {
            return Err(SubscriptionError::InvalidChannel("No channels provided".to_string()));
        }
        match validate_all(channels) {
            Err(e) => return Err(e),
            Ok(()) => {},
        }
        let ticker = symbols_named(channels, "ticker");
        let trade = symbols_named(channels, "trade");
        let (pairs, name) = if ticker.len() > 0 {
            (ticker, "ticker")
        } else if trade.len() > 0 {
            (trade, "trade")
        } else {
            return Err(SubscriptionError::InvalidChannel("No valid pairs found".to_string()));
        };
        let mut message = "{".to_string();
        push_member(&mut message, "event", quote("subscribe").as_str());
        message.append(",");
        push_member(&mut message, "pair", array_of_strings(&pairs).as_str());
        message.append(",");
        let mut details = "{".to_string();
        push_member(&mut details, "name", quote(name).as_str());
        details.append("}");
        push_member(&mut message, "subscription", details.as_str());
        message.append("}");
        assert(message@ =~= subscribe_text(pairs@.map_values(|s: String| s@), name@));
        self.add_pending(channels);
        Ok(message)
    }

    /// The unsubscribe message for channels, with the given request id: an
    /// error for no channels, or when the first channel is not subscribed.
    pub fn unsubscription_message(&self, channels: &[Channel], reqid: &str) -> (r: Result<String, SubscriptionError>)
        ensures
            channels@.len() == 0 ==> (r matches Err(SubscriptionError::InvalidChannel(m)) && m@
                == "No channels provided"@),
            channels@.len() > 0 && !self.active_keys().contains(key_of(channels@[0])) ==> (r matches Err(
                SubscriptionError::NotSubscribed(m),
            ) && m@ == "Not subscribed to channel: "@ + channels@[0].name@),
            channels@.len() > 0 && self.active_keys().contains(key_of(channels@[0])) ==> (r matches Ok(t) && t@
                == unsubscribe_text(channels@, reqid@)),
    {
        if channels.len() == 0 {
            return Err(SubscriptionError::InvalidChannel("No channels provided".to_string()));
        }
        let key = subscription_key(&channels[0]);
        if !self.has_active(&key) {
            let mut m = "Not subscribed to channel: ".to_string();
            m.append(channels[0].name.as_str());
            return Err(SubscriptionError::NotSubscribed(m));
        }
        let c = &channels[0];
        let mut details = "{".to_string();
        if let Some(interval) = &c.interval {
            push_member(&mut details, "interval", quote(interval.as_str()).as_str());
            details.append(",");
        }
        push_member(&mut details, "name", quote(c.name.as_str()).as_str());
        if let Some(symbol) = &c.symbol {
            details.append(",");
            push_member(&mut details, "symbol", quote(symbol.as_str()).as_str());
        }
        details.append("}");
        assert(details@ =~= unsubscribe_details(channels@[0]));
        let symbols = symbols_of(channels);
        let mut message = "{".to_string();
        push_member(&mut message, "event", quote("unsubscribe").as_str());
        message.append(",");
        push_member(&mut message, "pair", array_of_strings(&symbols).as_str());
        message.append(",");
        push_member(&mut message, "reqid", quote(reqid).as_str());
        message.append(",");
        push_member(&mut message, "subscription", details.as_str());
        message.append("}");
        assert(message@ =~= unsubscribe_text(channels@, reqid@));
        Ok(message)
    }

    /// The unsubscribe message for channels, with a fresh random request id:
    /// refused as `unsubscription_message` refuses, and otherwise that
    /// message for some request id.
    pub fn create_unsubscription_message(&self, channels: &[Channel]) -> (r: Result<String, SubscriptionError>)
        ensures
            channels@.len() == 0 ==> (r matches Err(SubscriptionError::InvalidChannel(m)) && m@
                == "No channels provided"@),
            channels@.len() > 0 && !self.active_keys().contains(key_of(channels@[0])) ==> (r matches Err(
                SubscriptionError::NotSubscribed(m),
            ) && m@ == "Not subscribed to channel: "@ + channels@[0].name@),
            channels@.len() > 0 && self.active_keys().contains(key_of(channels@[0])) ==> (r matches Ok(t) && exists|
                id: Seq<char>,
            | t@ == unsubscribe_text(channels@, id)),
    {
        let reqid = new_request_id();
        self.unsubscription_message(channels, reqid.as_str())
    }

    /// Handles a subscription status message (`Err` with the parser's reason
    /// when it is not JSON): a confirmed subscription moves its channel name
    /// from pending to confirmed; a reported error is returned.
    pub fn handle_subscription_confirmation(&mut self, message: Result<&JsonValue, String>) -> (r: Result<
        (),
        SubscriptionError,
    >)
        requires
            old(self).wf(),
        ensures
            final(self).wf(),
            match message {
                Err(reason) => (r matches Err(SubscriptionError::SubscriptionFailed(m)) && m@
                    == invalid_confirmation_prefix() + reason@) && final(self).active_keys() == old(self).active_keys()
                    && final(self).pending_map() == old(self).pending_map(),
                Ok(v) => confirmation_applied(*old(self), *final(self), *v, r),
            },
    {
        let v = match message {
            Err(reason) => {
                let mut m = "Invalid confirmation message: ".to_string();
                m.append(reason.as_str());
                return Err(SubscriptionError::SubscriptionFailed(m));
            },
            Ok(v) => v,
        };
        proof {
            reveal_strlit("subscribed");
            reveal_strlit("error");
            assert("subscribed"@.len() != "error"@.len());
        }
        if text_is(v.get("event"), "subscriptionStatus") {
            let status = v.get("status");
            if text_is(status, "subscribed") {
                if let Some(sub) = v.get("subscription") {
                    if let Some(name_value) = sub.get("name") {
                        if let Some(name) = name_value.as_str() {
                            let key = subscription_key(&Channel::new(name));
                            assert(key@ =~= name@);
                            self.remove_pending(&key);
                            self.add_active(key);
                            return Ok(());
                        }
                    }
                }
            } else if text_is(status, "error") {
                let m = match v.get("errorMessage") {
                    Some(e) => match e.as_str() {
                        Some(t) => t.to_string(),
                        None => "Unknown subscription error".to_string(),
                    },
                    None => "Unknown subscription error".to_string(),
                };
                return Err(SubscriptionError::SubscriptionFailed(m));
            }
        }
        Ok(())
    }

    /// Handles an unsubscription status message (`Err` with the parser's
    /// reason when it is not JSON): a confirmed unsubscription removes the
    /// channel name from the confirmed subscriptions.
    pub fn handle_unsubscription_confirmation(&mut self, message: Result<&JsonValue, String>) -> (r: Result<
        (),
        SubscriptionError,
    >)
        requires
            old(self).wf(),
        ensures
            final(self).wf(),
            final(self).pending_map() == old(self).pending_map(),
            match message {
                Err(reason) => (r matches Err(SubscriptionError::SubscriptionFailed(m)) && m@
                    == invalid_confirmation_prefix() + reason@) && final(self).active_keys() == old(self).active_keys(),
                Ok(v) => unconfirmation_applied(*old(self), *final(self), *v, r),
            },
    {
        let v = match message {
            Err(reason) => {
                let mut m = "Invalid confirmation message: ".to_string();
                m.append(reason.as_str());
                return Err(SubscriptionError::SubscriptionFailed(m));
            },
            Ok(v) => v,
        };
        if text_is(v.get("event"), "subscriptionStatus") && text_is(v.get("status"), "unsubscribed") {
            if let Some(sub) = v.get("subscription") {
                if let Some(name_value) = sub.get("name") {
                    if let Some(name) = name_value.as_str() {
                        let key = subscription_key(&Channel::new(name));
                        assert(key@ =~= name@);
                        self.remove_active(&key);
                        return Ok(());
                    }
                }
            }
        }
        Ok(())
    }

    /// Handles a subscription status message given as text.
    pub fn handle_subscription_confirmation_text(&mut self, message: &str) -> (r: Result<(), SubscriptionError>)
        requires
            old(self).wf(),
        ensures
            final(self).wf(),
            match json_of(message@) {
                Some(v) => confirmation_applied(*old(self), *final(self), v, r),
                None => confirmation_rejected(*old(self), *final(self), r),
            },
    {
        let parsed = parse_json_text(message);
        match parsed {
            Ok(v) => self.handle_subscription_confirmation(Ok(&v)),
            Err(reason) => {
                proof {
                    lemma_prefix_of_concat(invalid_confirmation_prefix(), reason@);
                }
                self.handle_subscription_confirmation(Err(reason))
            },
        }
    }

    /// Handles an unsubscription status message given as text.
    pub fn handle_unsubscription_confirmation_text(&mut self, message: &str) -> (r: Result<(), SubscriptionError>)
        requires
            old(self).wf(),
        ensures
            final(self).wf(),
            final(self).pending_map() == old(self).pending_map(),
            match json_of(message@) {
                Some(v) => unconfirmation_applied(*old(self), *final(self), v, r),
                None => confirmation_rejected(*old(self), *final(self), r),
            },
    {
        let parsed = parse_json_text(message);
        match parsed {
            Ok(v) => self.handle_unsubscription_confirmation(Ok(&v)),
            Err(reason) => {
                proof {
                    lemma_prefix_of_concat(invalid_confirmation_prefix(), reason@);
                }
                self.handle_unsubscription_confirmation(Err(reason))
            },
        }
    }

    /// Handles a message when it is a subscription status message, that is
    /// when its text mentions `subscriptionStatus`; for any other message it
    /// gives `None` and changes nothing.
    pub fn handle_status_message(&mut self, message: &str) -> (r: Option<Result<(), SubscriptionError>>)
        requires
            old(self).wf(),
        ensures
            final(self).wf(),
            !contains(message@, "subscriptionStatus"@) ==> r is None && final(self).active_keys() == old(
                self,
            ).active_keys() && final(self).pending_map() == old(self).pending_map(),
            contains(message@, "subscriptionStatus"@) ==> (r matches Some(res) && match json_of(message@) {
                Some(v) => confirmation_applied(*old(self), *final(self), v, res),
                None => confirmation_rejected(*old(self), *final(self), res),
            }),
    {
        proof {
            reveal_strlit("subscriptionStatus");
        }
        if contains_text(message, "subscriptionStatus") {
            Some(self.handle_subscription_confirmation_text(message))
        } else {
            None
        }
    }

    /// Whether the channel's subscription is confirmed.
    pub fn is_subscribed(&self, channel: &Channel) -> (b: bool)
        ensures
            b == self.active_keys().contains(key_of(*channel)),
    {
        let key = subscription_key(channel);
        self.has_active(&key)
    }

    /// The keys of the confirmed subscriptions, in the order confirmed.
    pub fn get_active_subscriptions(&self) -> (r: Vec<String>)
        ensures
            r@.map_values(|s: String| s@) == self.active_keys(),
    {
        let mut out: Vec<String> = Vec::new();
        let mut i: usize = 0;
        while i < self.active.len()
            invariant
                i <= self.active@.len(),
                out@.map_values(|s: String| s@) == self.active_keys().take(i as int),
            decreases self.active@.len() - i,
        {
            let ghost prev = out@;
            let item = self.active[i].clone();
            out.push(item);
            assert(self.active_keys()[i as int] == self.active@[i as int]@);
            assert(out@ == prev.push(self.active@[i as int]));
            assert(out@.map_values(|s: String| s@) =~= prev.map_values(|s: String| s@).push(self.active@[i as int]@));
            assert(out@.map_values(|s: String| s@) =~= self.active_keys().take(i + 1));
            i = i + 1;
        }
        assert(self.active_keys().take(i as int) =~= self.active_keys());
        out
    }

    /// Whether a key is among the confirmed subscriptions.
    fn has_active(&self, key: &String) -> (b: bool)
        ensures
            b == self.active_keys().contains(key@),
    {
        let mut i: usize = 0;
        while i < self.active.len()
            invariant
                i <= self.active@.len(),
                forall|j: int| 0 <= j < i ==> self.active_keys()[j] != key@,
            decreases self.active@.len() - i,
        {
            if self.active[i] == *key {
                assert(self.active_keys()[i as int] == key@);
                return true;
            }
            i = i + 1;
        }
        false
    }

    /// Adds a confirmed key at the end, unless it is there.
    fn add_active(&mut self, key: String)
        requires
            old(self).wf(),
        ensures
            final(self).wf(),
            final(self).active_keys() == with_key(old(self).active_keys(), key@),
            final(self).pending@ == old(self).pending@,
    {
        if !self.has_active(&key) {
            let ghost before = self.active_keys();
            self.active.push(key);
            assert(self.active_keys() =~= before.push(key@));
        }
    }

    /// Removes a confirmed key.
    fn remove_active(&mut self, key: &String)
        requires
            old(self).wf(),
        ensures
            final(self).wf(),
            final(self).active_keys() == without(old(self).active_keys(), key@),
            final(self).pending@ == old(self).pending@,
    {
        let ghost before = self.active_keys();
        let mut kept: Vec<String> = Vec::new();
        let mut i: usize = 0;
        while i < self.active.len()
            invariant
                i <= self.active@.len(),
                before == self.active_keys(),
                kept@.map_values(|s: String| s@) == without(before.take(i as int), key@),
            decreases self.active@.len() - i,
        {
            assert(before.take(i + 1).drop_last() =~= before.take(i as int));
            assert(before.take(i + 1).last() == before[i as int]);
            let ghost prev = kept@.map_values(|s: String| s@);
            if self.active[i] != *key {
                kept.push(self.active[i].clone());
                assert(kept@.map_values(|s: String| s@) =~= prev.push(before[i as int]));
            }
            i = i + 1;
        }
        assert(before.take(i as int) =~= before);
        proof {
            lemma_without(before, key@);
        }
        self.active = kept;
    }

    /// Removes a pending key.
    fn remove_pending(&mut self, key: &String)
        requires
            old(self).wf(),
        ensures
            final(self).wf(),
            final(self).pending_map() == old(self).pending_map().remove(key@),
            final(self).active@ == old(self).active@,
    {
        let ghost before = self.pending@;
        let ghost old_map = self.pending_map();
        let mut i: usize = 0;
        while i < self.pending.len()
            invariant
                i <= self.pending@.len(),
                self.pending@ == before,
                before == old(self).pending@,
                self.active@ == old(self).active@,
                old_map == old(self).pending_map(),
                self.wf(),
                forall|j: int| 0 <= j < i ==> #[trigger] before[j].0@ != key@,
            decreases self.pending@.len() - i,
        {
            if self.pending[i].0 == *key {
                let ghost idx = i as int;
                self.pending.remove(i);
                proof {
                    assert forall|a: int, b: int| 0 <= a < b < self.pending@.len() implies #[trigger] self.pending@[a].0@
                        != #[trigger] self.pending@[b].0@ by {
                        let a2 = if a < idx { a } else { a + 1 };
                        let b2 = if b < idx { b } else { b + 1 };
                        assert(self.pending@[a] == before[a2]);
                        assert(self.pending@[b] == before[b2]);
                        assert(before[a2].0@ != before[b2].0@);
                    }
                    assert(self.pending_map() =~= old_map.remove(key@)) by {
                        assert forall|k: Seq<char>| #[trigger] self.pending_map().contains_key(k) <==> old_map.remove(key@).contains_key(k) by {
                            if self.pending_map().contains_key(k) {
                                let w = choose|w: int| 0 <= w < self.pending@.len() && self.pending@[w].0@ == k;
                                let w2 = if w < idx { w } else { w + 1 };
                                assert(self.pending@[w] == before[w2]);
                                assert(before[w2].0@ != before[idx].0@);
                            }
                            if old_map.remove(key@).contains_key(k) {
                                let w = choose|w: int| 0 <= w < before.len() && before[w].0@ == k;
                                assert(w != idx);
                                let w2 = if w < idx { w } else { w - 1 };
                                assert(self.pending@[w2] == before[w]);
                            }
                        }
                        assert forall|k: Seq<char>| #[trigger] self.pending_map().contains_key(k) implies self.pending_map()[k]
                            == old_map.remove(key@)[k] by {
                            let w = choose|w: int| 0 <= w < self.pending@.len() && self.pending@[w].0@ == k;
                            let w2 = if w < idx { w } else { w + 1 };
                            assert(self.pending@[w] == before[w2]);
                            let v = choose|v: int| 0 <= v < before.len() && before[v].0@ == k;
                            if v != w2 {
                                assert(before[v].0@ != before[w2].0@);
                            }
                        }
                    }
                }
                return;
            }
            i = i + 1;
        }
        assert(old_map.remove(key@) =~= old_map) by {
            assert(!old_map.contains_key(key@)) by {
                if old_map.contains_key(key@) {
                    let w = choose|w: int| 0 <= w < before.len() && before[w].0@ == key@;
                    assert(before[w].0@ != key@);
                }
            }
        }
    }

    /// Records channels as pending, each under its key.
    fn add_pending(&mut self, channels: &[Channel])
        requires
            old(self).wf(),
        ensures
            final(self).wf(),
            final(self).active_keys() == old(self).active_keys(),
            final(self).pending_map() == pending_after(old(self).pending_map(), channels@),
    {
        let mut i: usize = 0;
        while i < channels.len()
            invariant
                i <= channels@.len(),
                self.wf(),
                self.active_keys() == old(self).active_keys(),
                self.pending_map() == pending_after(old(self).pending_map(), channels@.take(i as int)),
            decreases channels@.len() - i,
        {
            let key = subscription_key(&channels[i]);
            let c = copy_channel(&channels[i]);
            self.put_pending(key, c);
            assert(channels@.take(i + 1).drop_last() =~= channels@.take(i as int));
            i = i + 1;
        }
        assert(channels@.take(i as int) =~= channels@);
    }

    /// Records one pending channel under its key.
    fn put_pending(&mut self, key: String, channel: Channel)
        requires
            old(self).wf(),
        ensures
            final(self).wf(),
            final(self).active_keys() == old(self).active_keys(),
            final(self).pending_map() == old(self).pending_map().insert(key@, channel),
    {
        let ghost before = self.pending@;
        let mut i: usize = 0;
        while i < self.pending.len()
            invariant
                i <= self.pending@.len(),
                self.pending@ == before,
                before == old(self).pending@,
                self.active@ == old(self).active@,
                self.wf(),
                forall|j: int| 0 <= j < i ==> #[trigger] self.pending@[j].0@ != key@,
            decreases self.pending@.len() - i,
        {
            if self.pending[i].0 == key {
                let ghost old_map = self.pending_map();
                self.pending.set(i, (key, channel));
                proof {
                    assert forall|a: int, b: int| 0 <= a < b < self.pending@.len() implies #[trigger] self.pending@[a].0@
                        != #[trigger] self.pending@[b].0@ by {
                        assert(before[a].0@ != before[b].0@);
                    }
                    assert(self.pending_map() =~= old_map.insert(key@, channel)) by {
                        assert forall|k: Seq<char>| #[trigger] self.pending_map().contains_key(k) <==> old_map.insert(key@, channel).contains_key(k) by {
                            if self.pending_map().contains_key(k) {
                                let w = choose|w: int| 0 <= w < self.pending@.len() && self.pending@[w].0@ == k;
                                if w != i {
                                    assert(before[w].0@ == k);
                                }
                            }
                            if old_map.contains_key(k) && k != key@ {
                                let w = choose|w: int| 0 <= w < before.len() && before[w].0@ == k;
                                assert(self.pending@[w].0@ == k);
                            }
                            if k == key@ {
                                assert(self.pending@[i as int].0@ == k);
                            }
                        }
                        assert forall|k: Seq<char>| #[trigger] self.pending_map().contains_key(k) implies self.pending_map()[k]
                            == old_map.insert(key@, channel)[k] by {
                            let w = choose|w: int| 0 <= w < self.pending@.len() && self.pending@[w].0@ == k;
                            if k == key@ {
                                assert(w == i);
                            } else {
                                let v = choose|v: int| 0 <= v < before.len() && before[v].0@ == k;
                                assert(w == v);
                            }
                        }
                    }
                }
                return;
            }
            i = i + 1;
        }
        let ghost old_map = self.pending_map();
        let ghost n = before.len() as int;
        self.pending.push((key, channel));
        proof {
            assert forall|a: int, b: int| 0 <= a < b < self.pending@.len() implies #[trigger] self.pending@[a].0@
                != #[trigger] self.pending@[b].0@ by {
                if b < n {
                    assert(before[a].0@ != before[b].0@);
                }
            }
            assert(self.pending_map() =~= old_map.insert(key@, channel)) by {
                assert forall|k: Seq<char>| #[trigger] self.pending_map().contains_key(k) <==> old_map.insert(key@, channel).contains_key(k) by {
                    if old_map.contains_key(k) && k != key@ {
                        let w = choose|w: int| 0 <= w < before.len() && before[w].0@ == k;
                        assert(self.pending@[w].0@ == k);
                    }
                    if k == key@ {
                        assert(self.pending@[n].0@ == k);
                    }
                    if self.pending_map().contains_key(k) {
                        let w = choose|w: int| 0 <= w < self.pending@.len() && self.pending@[w].0@ == k;
                        if w < n {
                            assert(before[w].0@ == k);
                        }
                    }
                }
                assert forall|k: Seq<char>| #[trigger] self.pending_map().contains_key(k) implies self.pending_map()[k]
                    == old_map.insert(key@, channel)[k] by {
                    let w = choose|w: int| 0 <= w < self.pending@.len() && self.pending@[w].0@ == k;
                    if k == key@ {
                        assert(w == n);
                    } else {
                        let v = choose|v: int| 0 <= v < before.len() && before[v].0@ == k;
                        assert(w == v);
                    }
                }
            }
        }
    }
}

/// Checks a channel: its name must be one Kraken offers, and an OHLC
/// interval one of Kraken's.
fn validate_channel(channel: &Channel) -> (r: Result<(), SubscriptionError>)
    ensures
        match channel_problem(*channel) {
            Some(m) => r matches Err(SubscriptionError::InvalidChannel(t)) && t@ == m,
            None => r is Ok,
        },
{
    let name = channel.name.as_str();
    if !is_one_of(name, &valid_name_list()) {
        let mut m = "Invalid channel name: ".to_string();
        m.append(name);
        m.append(". Valid channels: [\"ticker\", \"ohlc\", \"trade\", \"book\", \"spread\"]");
        return Err(SubscriptionError::InvalidChannel(m));
    }
    if channel.name == "ohlc".to_string() {
        if let Some(interval) = &channel.interval {
            if !is_one_of(interval.as_str(), &valid_interval_list()) {
                let mut m = "Invalid OHLC interval: ".to_string();
                m.append(interval.as_str());
                m.append(
                    ". Valid intervals: [\"1\", \"5\", \"15\", \"30\", \"60\", \"240\", \"1440\", \"10080\", \"21600\"]",
                );
                return Err(SubscriptionError::InvalidChannel(m));
            }
        }
    }
    Ok(())
}

/// Whether an optional JSON value is the given text.
fn text_is(v: Option<&JsonValue>, t: &str) -> (b: bool)
    ensures
        b == (match v {
            Some(x) => as_text(*x) == Some(t@),
            None => false,
        }),
{
    match v {
        Some(x) => match x.as_str() {
            Some(s) => s.to_string() == t.to_string(),
            None => false,
        },
        None => false,
    }
}

/// Checks channels in order, stopping at the first invalid one.
fn validate_all(channels: &[Channel]) -> (r: Result<(), SubscriptionError>)
    ensures
        match first_problem(channels@) {
            Some(m) => r matches Err(SubscriptionError::InvalidChannel(t)) && t@ == m,
            None => r is Ok,
        },
{
    let mut i: usize = 0;
    assert(channels@.skip(0) =~= channels@);
    while i < channels.len()
        invariant
            i <= channels@.len(),
            first_problem(channels@) == first_problem(channels@.skip(i as int)),
        decreases channels@.len() - i,
    {
        assert(channels@.skip(i as int).drop_first() =~= channels@.skip(i + 1));
        assert(channels@.skip(i as int)[0] == channels@[i as int]);
        match validate_channel(&channels[i]) {
            Err(e) => return Err(e),
            Ok(()) => {},
        }
        i = i + 1;
    }
    assert(channels@.skip(i as int) =~= Seq::<Channel>::empty());
    Ok(())
}

/// The valid channel names.
fn valid_name_list() -> (v: Vec<String>)
    ensures
        v@.map_values(|s: String| s@) == valid_names(),
{
    let v = vec!["ticker".to_string(), "ohlc".to_string(), "trade".to_string(), "book".to_string(), "spread".to_string()];
    assert(v@.map_values(|s: String| s@) =~= valid_names());
    v
}

/// The valid OHLC intervals.
fn valid_interval_list() -> (v: Vec<String>)
    ensures
        v@.map_values(|s: String| s@) == valid_intervals(),
{
    let v = vec![
        "1".to_string(),
        "5".to_string(),
        "15".to_string(),
        "30".to_string(),
        "60".to_string(),
        "240".to_string(),
        "1440".to_string(),
        "10080".to_string(),
        "21600".to_string(),
    ];
    assert(v@.map_values(|s: String| s@) =~= valid_intervals());
    v
}

/// Whether a text is one of the given texts.
fn is_one_of(s: &str, options: &Vec<String>) -> (r: bool)
    ensures
        r == options@.map_values(|o: String| o@).contains(s@),
{
    let ghost views = options@.map_values(|o: String| o@);
    let t = s.to_string();
    let mut i: usize = 0;
    while i < options.len()
        invariant
            i <= options@.len(),
            t@ == s@,
            views == options@.map_values(|o: String| o@),
            forall|j: int| 0 <= j < i ==> views[j] != s@,
        decreases options@.len() - i,
    {
        if options[i] == t {
            assert(views[i as int] == s@);
            return true;
        }
        i = i + 1;
    }
    false
}

/// The key of a channel.
pub fn subscription_key(channel: &Channel) -> (k: String)
    ensures
        k@ == key_of(*channel),
{
    let mut key = channel.name.clone();
    if let Some(symbol) = &channel.symbol {
        key.append(":");
        key.append(symbol.as_str());
    }
    if let Some(interval) = &channel.interval {
        key.append(":");
        key.append(interval.as_str());
    }
    key
}

/// A channel equal to the given one.
fn copy_channel(c: &Channel) -> (r: Channel)
    ensures
        r == *c,
{
    let symbol = match &c.symbol {
        Some(s) => Some(s.clone()),
        None => None,
    };
    let interval = match &c.interval {
        Some(i) => Some(i.clone()),
        None => None,
    };
    Channel { name: c.name.clone(), symbol, interval }
}

/// The symbols of the channels with the given name.
fn symbols_named(channels: &[Channel], name: &str) -> (r: Vec<String>)
    ensures
        r@.map_values(|s: String| s@) == pairs_named(channels@, name@),
{
    let target = name.to_string();
    let mut out: Vec<String> = Vec::new();
    let mut i: usize = 0;
    while i < channels.len()
        invariant
            i <= channels@.len(),
            target@ == name@,
            out@.map_values(|s: String| s@) == pairs_named(channels@.take(i as int), name@),
        decreases channels@.len() - i,
    {
        assert(channels@.take(i + 1).drop_last() =~= channels@.take(i as int));
        assert(channels@.take(i + 1).last() == channels@[i as int]);
        if channels[i].name == target {
            if let Some(symbol) = &channels[i].symbol {
                out.push(symbol.clone());
            }
        }
        assert(out@.map_values(|s: String| s@) =~= pairs_named(channels@.take(i + 1), name@));
        i = i + 1;
    }
    assert(channels@.take(i as int) =~= channels@);
    out
}

/// The symbols of all channels that have one.
fn symbols_of(channels: &[Channel]) -> (r: Vec<String>)
    ensures
        r@.map_values(|s: String| s@) == all_symbols(channels@),
{
    let mut out: Vec<String> = Vec::new();
    let mut i: usize = 0;
    while i < channels.len()
        invariant
            i <= channels@.len(),
            out@.map_values(|s: String| s@) == all_symbols(channels@.take(i as int)),
        decreases channels@.len() - i,
    {
        assert(channels@.take(i + 1).drop_last() =~= channels@.take(i as int));
        assert(channels@.take(i + 1).last() == channels@[i as int]);
        if let Some(symbol) = &channels[i].symbol {
            out.push(symbol.clone());
        }
        assert(out@.map_values(|s: String| s@) =~= all_symbols(channels@.take(i + 1)));
        i = i + 1;
    }
    assert(channels@.take(i as int) =~= channels@);
    out
}

} // verus!
