//! Alerts: severities and the filter on them, the alert channels'
//! settings, the texts of the alerts that carry no amounts, and the alert
//! history.
//!
//! Alerts that carry prices or amounts format them as floating-point
//! numbers; their payload is a type of the caller (`P`), which this module
//! only stores.

use vstd::prelude::*;

verus! {

broadcast use vstd::string::group_string_axioms;

/// Alert severity levels.
#[derive(Debug, Clone, Copy, PartialEq, Eq, Structural)]
pub enum AlertSeverity {
    Info,
    Warning,
    Critical,
}

/// The rank of a severity: info 0, warning 1, critical 2.
pub open spec fn severity_rank(s: AlertSeverity) -> int {
    match s {
        AlertSeverity::Info => 0,
        AlertSeverity::Warning => 1,
        AlertSeverity::Critical => 2,
    }
}

/// Whether an alert of a severity is below the minimum and so not sent.
pub fn is_dominated(severity: AlertSeverity, min_severity: AlertSeverity) -> (b: bool)
    ensures
        b == (severity_rank(severity) < severity_rank(min_severity)),
{
    match (severity, min_severity) {
        (AlertSeverity::Info, AlertSeverity::Warning) => true,
        (AlertSeverity::Info, AlertSeverity::Critical) => true,
        (AlertSeverity::Warning, AlertSeverity::Critical) => true,
        _ => false,
    }
}

/// The emoji that opens an alert's message.
pub open spec fn emoji_of(s: AlertSeverity) -> Seq<char> {
    match s {
        AlertSeverity::Info => "ℹ️"@,
        AlertSeverity::Warning => "⚠️"@,
        AlertSeverity::Critical => "🚨"@,
    }
}

/// The colour of a severity in webhook embeds (blue, yellow, red).
pub open spec fn color_of(s: AlertSeverity) -> u32 {
    match s {
        AlertSeverity::Info => 3447003,
        AlertSeverity::Warning => 16776960,
        AlertSeverity::Critical => 15158332,
    }
}

/// The name of a severity as `Debug` shows it.
pub open spec fn severity_name(s: AlertSeverity) -> Seq<char> {
    match s {
        AlertSeverity::Info => "Info"@,
        AlertSeverity::Warning => "Warning"@,
        AlertSeverity::Critical => "Critical"@,
    }
}

impl AlertSeverity {
    /// The emoji that opens an alert's message.
    pub fn emoji(&self) -> (t: &'static str)
        ensures
            t@ == emoji_of(*self),
    {
        match self {
            AlertSeverity::Info => "ℹ️",
            AlertSeverity::Warning => "⚠️",
            AlertSeverity::Critical => "🚨",
        }
    }

    /// The colour of the severity in webhook embeds.
    pub fn color(&self) -> (c: u32)
        ensures
            c == color_of(*self),
    {
        match self {
            AlertSeverity::Info => 3447003,
            AlertSeverity::Warning => 16776960,
            AlertSeverity::Critical => 15158332,
        }
    }

    /// The title of a webhook embed: the severity's name and `Alert`.
    pub fn title(&self) -> (t: String)
        ensures
            t@ == severity_name(*self) + " Alert"@,
    {
        let mut t = match self {
            AlertSeverity::Info => "Info".to_string(),
            AlertSeverity::Warning => "Warning".to_string(),
            AlertSeverity::Critical => "Critical".to_string(),
        };
        t.append(" Alert");
        t
    }
}

/// The first eight characters of a transaction id (all of a shorter one).
pub open spec fn short_id(txid: Seq<char>) -> Seq<char> {
    if txid.len() <= 8 {
        txid
    } else {
        txid.take(8)
    }
}

/// The first eight characters of a transaction id.
pub fn short_txid(txid: &str) -> (r: &str)
    ensures
        r@ == short_id(txid@),
{
    let n = txid.unicode_len();
    if n <= 8 {
        proof {
            assert(txid@.take(n as int) =~= txid@);
        }
        txid
    } else {
        txid.substring_char(0, 8)
    }
}

/// `Order cancelled: <id> - <reason>`.
pub fn cancelled_text(txid: &str, reason: &str) -> (t: String)
    ensures
        t@ == "Order cancelled: "@ + short_id(txid@) + " - "@ + reason@,
{
    let mut t = "Order cancelled: ".to_string();
    t.append(short_txid(txid));
    t.append(" - ");
    t.append(reason);
    t
}

/// `[<strategy>] <event>`.
pub fn strategy_text(strategy_name: &str, event: &str) -> (t: String)
    ensures
        t@ == "["@ + strategy_name@ + "] "@ + event@,
{
    let mut t = "[".to_string();
    t.append(strategy_name);
    t.append("] ");
    t.append(event);
    t
}

/// `Connected: <message>` or `Disconnected: <message>`.
pub fn connection_text(connected: bool, message: &str) -> (t: String)
    ensures
        t@ == (if connected { "Connected"@ } else { "Disconnected"@ }) + ": "@ + message@,
{
    let mut t = if connected { "Connected".to_string() } else { "Disconnected".to_string() };
    t.append(": ");
    t.append(message);
    t
}

/// `<title>: <message>`.
pub fn custom_text(title: &str, message: &str) -> (t: String)
    ensures
        t@ == title@ + ": "@ + message@,
{
    let mut t = title.to_string();
    t.append(": ");
    t.append(message);
    t
}

/// A message opened by the severity's emoji: `<emoji> <body>`.
pub fn with_emoji(severity: AlertSeverity, body: &str) -> (t: String)
    ensures
        t@ == emoji_of(severity) + " "@ + body@,
{
    let mut t = severity.emoji().to_string();
    t.append(" ");
    t.append(body);
    t
}

/// The console channel: prints alerts.
#[derive(Debug, Clone, Copy)]
pub struct ConsoleChannel;

impl ConsoleChannel {
    /// The channel's name.
    pub fn name(&self) -> (n: &'static str)
        ensures
            n@ == "console"@,
    {
        "console"
    }
}

/// A webhook channel: the URL posted to and the extra headers.
#[derive(Debug, Clone)]
pub struct WebhookChannel {
    pub url: String,
    /// Each name once, in the order first set
    pub headers: Vec<(String, String)>,
}

/// The headers after setting one: replaced in place when the name is there,
/// added at the end otherwise.
pub open spec fn headers_after(h: Seq<(Seq<char>, Seq<char>)>, key: Seq<char>, value: Seq<char>) -> Seq<(Seq<char>, Seq<char>)> {
    if exists|i: int| 0 <= i < h.len() && h[i].0 == key {
        h.update(choose|i: int| 0 <= i < h.len() && h[i].0 == key, (key, value))
    } else {
        h.push((key, value))
    }
}

/// Headers as texts.
pub open spec fn header_texts(h: Seq<(String, String)>) -> Seq<(Seq<char>, Seq<char>)> {
    h.map_values(|p: (String, String)| (p.0@, p.1@))
}

/// Whether no header name appears twice.
pub open spec fn names_distinct(h: Seq<(Seq<char>, Seq<char>)>) -> bool {
    forall|i: int, j: int| 0 <= i < j < h.len() ==> h[i].0 != h[j].0
}

/// The Telegram `sendMessage` URL of a bot and chat.
pub open spec fn telegram_url(bot_token: Seq<char>, chat_id: Seq<char>) -> Seq<char> {
    "https://api.telegram.org/bot"@ + bot_token + "/sendMessage?chat_id="@ + chat_id
}

impl WebhookChannel {
    /// A webhook posting to a URL, with no extra headers.
    pub fn new(url: &str) -> (c: Self)
        ensures
            c.url@ == url@,
            c.headers@.len() == 0,
    {
        WebhookChannel { url: url.to_string(), headers: Vec::new() }
    }

    /// A Discord webhook.
    pub fn discord(webhook_url: &str) -> (c: Self)
        ensures
            c.url@ == webhook_url@,
            c.headers@.len() == 0,
    {
        Self::new(webhook_url)
    }

    /// A Telegram bot's `sendMessage` endpoint for a chat.
    pub fn telegram(bot_token: &str, chat_id: &str) -> (c: Self)
        ensures
            c.url@ == telegram_url(bot_token@, chat_id@),
            c.headers@.len() == 0,
    {
        let mut url = "https://api.telegram.org/bot".to_string();
        url.append(bot_token);
        url.append("/sendMessage?chat_id=");
        url.append(chat_id);
        Self::new(url.as_str())
    }

    /// The channel with a header set.
    pub fn with_header(self, key: &str, value: &str) -> (c: Self)
        requires
            names_distinct(header_texts(self.headers@)),
        ensures
            c.url == self.url,
            header_texts(c.headers@) == headers_after(header_texts(self.headers@), key@, value@),
            names_distinct(header_texts(c.headers@)),
    {
        let mut this = self;
        let ghost h0 = header_texts(this.headers@);
        let k = key.to_string();
        let mut i: usize = 0;
        while i < this.headers.len()
            invariant
                i <= this.headers@.len(),
                h0 == header_texts(this.headers@),
                h0 == header_texts(self.headers@),
                names_distinct(h0),
                this.url == self.url,
                k@ == key@,
                forall|j: int| 0 <= j < i ==> h0[j].0 != key@,
            decreases this.headers@.len() - i,
        {
            if this.headers[i].0 == k {
                this.headers.set(i, (k, value.to_string()));
                proof {
                    assert(h0[i as int].0 == key@);
                    let w = i as int;
                    assert(exists|i: int| 0 <= i < h0.len() && h0[i].0 == key@) by {
                        assert(0 <= w < h0.len() && h0[w].0 == key@);
                    }
                    let c = choose|i: int| 0 <= i < h0.len() && h0[i].0 == key@;
                    assert(c == w) by {
                        if c != w {
                            if c < w {
                                assert(h0[c].0 != h0[w].0);
                            } else {
                                assert(h0[w].0 != h0[c].0);
                            }
                        }
                    }
                    assert(header_texts(this.headers@) =~= h0.update(i as int, (key@, value@)));
                    assert forall|a: int, b: int| 0 <= a < b < header_texts(this.headers@).len() implies header_texts(
                        this.headers@,
                    )[a].0 != header_texts(this.headers@)[b].0 by {
                        assert(h0[a].0 != h0[b].0);
                    }
                }
                return this;
            }
            i = i + 1;
        }
        this.headers.push((k, value.to_string()));
        proof {
            assert(header_texts(this.headers@) =~= h0.push((key@, value@)));
            assert forall|a: int, b: int| 0 <= a < b < header_texts(this.headers@).len() implies header_texts(
                this.headers@,
            )[a].0 != header_texts(this.headers@)[b].0 by {
                if b < h0.len() {
                    assert(h0[a].0 != h0[b].0);
                }
            }
        }
        this
    }

    /// The channel's name.
    pub fn name(&self) -> (n: &'static str)
        ensures
            n@ == "webhook"@,
    {
        "webhook"
    }
}

/// An alert as kept: its id, severity, time, whether acknowledged, and the
/// caller's payload.
#[derive(Debug, Clone)]
pub struct AlertRecord<P> {
    pub id: String,
    pub severity: AlertSeverity,
    /// Microseconds since the Unix epoch (UTC)
    pub timestamp: i64,
    pub acknowledged: bool,
    pub payload: P,
}

/// The alert history: the minimum severity sent, and the alerts sent, the
/// oldest dropped beyond the limit.
#[derive(Debug)]
pub struct AlertLog<P> {
    history: Vec<AlertRecord<P>>,
    max_history: usize,
    min_severity: AlertSeverity,
}

impl<P> AlertLog<P> {
    /// The alerts kept, oldest first.
    pub closed spec fn records(&self) -> Seq<AlertRecord<P>> {
        self.history@
    }

    /// The minimum severity sent.
    pub closed spec fn minimum(&self) -> AlertSeverity {
        self.min_severity
    }

    /// The number of alerts kept.
    pub closed spec fn limit(&self) -> nat {
        self.max_history as nat
    }

    /// An empty history keeping 1000 alerts, sending every severity.
    pub fn new() -> (l: Self)
        ensures
            l.records() == Seq::<AlertRecord<P>>::empty(),
            l.minimum() == AlertSeverity::Info,
            l.limit() == 1000,
    {
        AlertLog { history: Vec::new(), max_history: 1000, min_severity: AlertSeverity::Info }
    }

    /// Sets the minimum severity sent.
    pub fn set_min_severity(&mut self, severity: AlertSeverity)
        ensures
            final(self).minimum() == severity,
            final(self).records() == old(self).records(),
            final(self).limit() == old(self).limit(),
    {
        self.min_severity = severity;
    }

    /// Whether an alert of this severity is sent.
    pub fn accepts(&self, severity: AlertSeverity) -> (b: bool)
        ensures
            b == (severity_rank(severity) >= severity_rank(self.minimum())),
    {
        !is_dominated(severity, self.min_severity)
    }

    /// Keeps a sent alert (one the minimum severity lets through): it is
    /// added last, and the oldest dropped beyond the limit. Returns whether
    /// it was kept.
    pub fn record(&mut self, alert: AlertRecord<P>) -> (kept: bool)
        ensures
            kept == (severity_rank(alert.severity) >= severity_rank(old(self).minimum())),
            kept ==> final(self).records() == (if old(self).records().len() + 1 > old(self).limit() {
                old(self).records().push(alert).skip(1)
            } else {
                old(self).records().push(alert)
            }),
            !kept ==> final(self).records() == old(self).records(),
            final(self).minimum() == old(self).minimum(),
            final(self).limit() == old(self).limit(),
    {
        if is_dominated(alert.severity, self.min_severity) {
            return false;
        }
        self.history.push(alert);
        if self.history.len() > self.max_history {
            self.history.remove(0);
            assert(self.history@ =~= old(self).records().push(alert).skip(1));
        }
        true
    }

    /// The most recent alerts, newest first, at most `count`.
    pub fn get_history(&self, count: usize) -> (r: Vec<&AlertRecord<P>>)
        ensures
            r@.len() == (if count < self.records().len() { count as nat } else { self.records().len() }),
            forall|i: int| 0 <= i < r@.len() ==> *r@[i] == self.records()[self.records().len() - 1 - i],
    {
        let n = self.history.len();
        let mut out: Vec<&AlertRecord<P>> = Vec::new();
        let mut i: usize = 0;
        while i < count && i < n
            invariant
                n == self.history@.len(),
                i <= n,
                i <= count,
                out@.len() == i,
                forall|j: int| 0 <= j < i ==> *out@[j] == self.history@[n - 1 - j],
            decreases n - i,
        {
            out.push(&self.history[n - 1 - i]);
            i = i + 1;
        }
        out
    }

    /// The alerts not acknowledged, oldest first.
    pub fn get_unacknowledged(&self) -> (r: Vec<&AlertRecord<P>>)
        ensures
            forall|i: int| 0 <= i < r@.len() ==> !(#[trigger] r@[i]).acknowledged && self.records().contains(*r@[i]),
            r@.len() == self.records().filter(|a: AlertRecord<P>| !a.acknowledged).len(),
    {
        let mut out: Vec<&AlertRecord<P>> = Vec::new();
        let mut i: usize = 0;
        while i < self.history.len()
            invariant
                i <= self.history@.len(),
                forall|j: int| 0 <= j < out@.len() ==> !(#[trigger] out@[j]).acknowledged && self.history@.contains(*out@[j]),
                out@.len() == self.history@.take(i as int).filter(|a: AlertRecord<P>| !a.acknowledged).len(),
            decreases self.history@.len() - i,
        {
            proof {
                let s = self.history@.take(i + 1);
                assert(s.drop_last() =~= self.history@.take(i as int));
                reveal(Seq::filter);
                assert(s.last() == self.history@[i as int]);
            }
            if !self.history[i].acknowledged {
                out.push(&self.history[i]);
            }
            i = i + 1;
        }
        assert(self.history@.take(i as int) =~= self.history@);
        out
    }

    /// Marks the first alert with the id acknowledged.
    pub fn acknowledge(&mut self, alert_id: &str)
        ensures
            final(self).records().len() == old(self).records().len(),
            final(self).minimum() == old(self).minimum(),
            final(self).limit() == old(self).limit(),
            forall|i: int|
                0 <= i < old(self).records().len() ==> {
                    let a = old(self).records()[i];
                    let b = #[trigger] final(self).records()[i];
                    &&& b.id == a.id
                    &&& b.severity == a.severity
                    &&& b.timestamp == a.timestamp
                    &&& b.payload == a.payload
                    &&& b.acknowledged == (a.acknowledged || (a.id@ == alert_id@ && forall|j: int|
                        0 <= j < i ==> old(self).records()[j].id@ != alert_id@))
                },
    {
        let key = alert_id.to_string();
        let mut i: usize = 0;
        while i < self.history.len()
            invariant
                i <= self.history@.len(),
                key@ == alert_id@,
                self.history@ == old(self).history@,
                self.min_severity == old(self).min_severity,
                self.max_history == old(self).max_history,
                forall|j: int| 0 <= j < i ==> self.history@[j].id@ != alert_id@,
            decreases self.history@.len() - i,
        {
            if self.history[i].id == key {
                let ghost before = self.history@;
                let mut a = self.history.remove(i);
                a.acknowledged = true;
                self.history.insert(i, a);
                proof {
                    assert forall|t: int| 0 <= t < before.len() implies #[trigger] self.history@[t] == (if t == i {
                        a
                    } else {
                        before[t]
                    }) by {}
                }
                return;
            }
            i = i + 1;
        }
    }
}

} // verus!
