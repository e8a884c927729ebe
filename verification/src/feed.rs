//! The live article feed: articles published on Redis Pub/Sub channels, buffered for
//! display, and the connection status shown in the headset.

use std::collections::VecDeque;
use std::sync::mpsc::Receiver;
use std::sync::Mutex;
use vstd::prelude::*;
use crate::health::strings_view;
use crate::text::{
    chars_of, decimal, lemma_split_step, parse_unsigned, parse_usize, push_str, slice_subrange, split,
    string_from_chars, trim, trim_bounds,
};
use vstd::utf8::{decode_utf8, valid_utf8};

verus! {

broadcast use vstd::string::group_string_axioms;

/// Connection state of the Redis subscriber, shown as red / yellow / green.
#[derive(Clone, Copy, Debug, PartialEq, Eq, Structural)]
pub enum RedisConnectionStatus {
    Disabled,
    Connecting,
    Connected,
    Disconnected,
}

impl Default for RedisConnectionStatus {
    /// Until a subscriber is started the feed is disabled.
    fn default() -> (s: RedisConnectionStatus)
        ensures
            s == RedisConnectionStatus::Disabled,
    {
        RedisConnectionStatus::Disabled
    }
}

/// One article received on a feed channel.
#[derive(Clone, Debug)]
pub struct LiveArticle {
    pub id: String,
    pub title: String,
    pub channel: String,
    pub quality_score: Option<i32>,
    pub published_at: String,
    pub topics: Vec<String>,
}

/// Publisher metadata of a raw feed message.
#[derive(Clone, Debug)]
pub struct PublisherMeta {
    pub channel: Option<String>,
    pub published_at: Option<String>,
}

/// A feed message as published, every field optional.
#[derive(Clone, Debug)]
pub struct LiveArticleRaw {
    pub id: Option<String>,
    pub title: Option<String>,
    pub quality_score: Option<i32>,
    pub topics: Option<Vec<String>>,
    pub publisher: Option<PublisherMeta>,
}

/// The view of an optional string, empty when absent.
pub open spec fn string_or_empty(s: Option<String>) -> Seq<char> {
    match s {
        Some(t) => t@,
        None => Seq::empty(),
    }
}

/// The channel an article is attributed to: the publisher's channel when the message
/// names one, else the channel the message arrived on.
pub open spec fn article_channel(raw: LiveArticleRaw, channel_from_msg: Seq<char>) -> Seq<char> {
    match raw.publisher {
        Some(p) => match p.channel {
            Some(c) => c@,
            None => channel_from_msg,
        },
        None => channel_from_msg,
    }
}

/// The publication time of an article: the publisher's, or empty.
pub open spec fn article_published_at(raw: LiveArticleRaw) -> Seq<char> {
    match raw.publisher {
        Some(p) => string_or_empty(p.published_at),
        None => Seq::empty(),
    }
}

/// `a` is the article that `raw`, received on `channel_from_msg`, completes to.
pub open spec fn completes(a: LiveArticle, raw: LiveArticleRaw, channel_from_msg: Seq<char>) -> bool {
    &&& a.id@ == string_or_empty(raw.id)
    &&& a.title@ == string_or_empty(raw.title)
    &&& a.channel@ == article_channel(raw, channel_from_msg)
    &&& a.quality_score == raw.quality_score
    &&& a.published_at@ == article_published_at(raw)
    &&& raw.topics matches Some(t) ==> a.topics == t
    &&& raw.topics is None ==> a.topics@.len() == 0
}

impl LiveArticle {
    /// Completes a raw message: absent text fields become empty, absent topics an empty
    /// list, and the channel falls back to the one the message arrived on.
    pub fn from_raw(raw: LiveArticleRaw, channel_from_msg: String) -> (a: LiveArticle)
        ensures
            completes(a, raw, channel_from_msg@),
    {
        let id = match raw.id {
            Some(s) => s,
            None => String::new(),
        };
        let title = match raw.title {
            Some(s) => s,
            None => String::new(),
        };
        let (channel, published_at) = match raw.publisher {
            Some(p) => {
                let c = match p.channel {
                    Some(c) => c,
                    None => channel_from_msg,
                };
                let t = match p.published_at {
                    Some(t) => t,
                    None => String::new(),
                };
                (c, t)
            },
            None => (channel_from_msg, String::new()),
        };
        let topics = match raw.topics {
            Some(t) => t,
            None => Vec::new(),
        };
        LiveArticle { id, title, channel, quality_score: raw.quality_score, published_at, topics }
    }
}

/// What the subscriber reports to the buffer.
pub enum FeedMessage {
    Connected,
    Disconnected,
    Article(LiveArticle),
}

#[verifier::external_type_specification]
#[verifier::external_body]
#[verifier::reject_recursive_types(T)]
pub struct ExMutex<T: ?Sized>(std::sync::Mutex<T>);

#[verifier::external_type_specification]
#[verifier::external_body]
#[verifier::reject_recursive_types(T)]
pub struct ExReceiver<T>(std::sync::mpsc::Receiver<T>);

#[verifier::external_type_specification]
#[verifier::external_body]
#[verifier::reject_recursive_types(T)]
pub struct ExMutexGuard<'a, T: ?Sized + 'a>(std::sync::MutexGuard<'a, T>);

/// `Mutex::new`: wraps a value in a new, unlocked mutex. Nothing is claimed of the
/// result, which is opaque here.
pub assume_specification<T>[ std::sync::Mutex::<T>::new ](t: T) -> std::sync::Mutex<T>;

/// The receiving end of the subscriber's channel, shareable between threads.
#[derive(Debug)]
pub struct RedisReceiver(pub Mutex<Receiver<FeedMessage>>);

/// `Mutex::lock` on the receiver's mutex: the guard, or `None` when the mutex is
/// poisoned. Nothing is claimed of which outcome comes.
#[verifier::external_body]
fn lock_receiver<'a>(r: &'a RedisReceiver) -> Option<std::sync::MutexGuard<'a, Receiver<FeedMessage>>> {
    r.0.lock().ok()
}

/// `Receiver::try_iter`, collected: the messages queued at this moment, in the order they
/// were sent, without waiting. What is queued depends on the other thread, so nothing is
/// claimed of the result.
#[verifier::external_body]
fn take_queued(guard: &std::sync::MutexGuard<'_, Receiver<FeedMessage>>) -> Vec<FeedMessage> {
    guard.try_iter().collect()
}

} // verus!

verus! {

/// The newest `max` elements of `s` (all of `s` when it has no more than `max`).
pub open spec fn keep_newest<T>(s: Seq<T>, max: nat) -> Seq<T> {
    if s.len() > max {
        s.subrange(s.len() - max, s.len() as int)
    } else {
        s
    }
}

/// The feed after one message: a status message sets the status; an article is appended,
/// and the oldest articles are dropped beyond `max`.
pub open spec fn after_message(
    items: Seq<LiveArticle>,
    status: RedisConnectionStatus,
    max: nat,
    msg: FeedMessage,
) -> (Seq<LiveArticle>, RedisConnectionStatus) {
    match msg {
        FeedMessage::Connected => (items, RedisConnectionStatus::Connected),
        FeedMessage::Disconnected => (items, RedisConnectionStatus::Disconnected),
        FeedMessage::Article(a) => (keep_newest(items.push(a), max), status),
    }
}

/// The feed after the messages, in order.
pub open spec fn after_messages(
    items: Seq<LiveArticle>,
    status: RedisConnectionStatus,
    max: nat,
    msgs: Seq<FeedMessage>,
) -> (Seq<LiveArticle>, RedisConnectionStatus)
    decreases msgs.len(),
{
    if msgs.len() == 0 {
        (items, status)
    } else {
        let prev = after_messages(items, status, max, msgs.drop_last());
        after_message(prev.0, prev.1, max, msgs.last())
    }
}

/// Buffer of the most recent live articles, with the subscriber's connection status.
pub struct LiveFeedBuffer {
    pub items: VecDeque<LiveArticle>,
    pub max_items: usize,
    pub connection_status: RedisConnectionStatus,
    pub receiver: Option<RedisReceiver>,
}

impl LiveFeedBuffer {
    /// The buffer keeps at least one article and never more than `max_items`.
    pub open spec fn wf(&self) -> bool {
        &&& self.max_items >= 1
        &&& self.items@.len() <= self.max_items
    }

    /// A buffer fed by `receiver`, connecting, holding at most `max(max_items, 1)` articles.
    pub fn new(receiver: Receiver<FeedMessage>, max_items: usize) -> (b: LiveFeedBuffer)
        ensures
            b.wf(),
            b.items@.len() == 0,
            b.max_items == if max_items >= 1 { max_items } else { 1 },
            b.connection_status == RedisConnectionStatus::Connecting,
            b.receiver is Some,
    {
        LiveFeedBuffer {
            items: VecDeque::new(),
            max_items: if max_items >= 1 { max_items } else { 1 },
            connection_status: RedisConnectionStatus::Connecting,
            receiver: Some(RedisReceiver(Mutex::new(receiver))),
        }
    }

    /// A buffer with no subscriber behind it.
    pub fn disabled(max_items: usize) -> (b: LiveFeedBuffer)
        ensures
            b.wf(),
            b.items@.len() == 0,
            b.max_items == if max_items >= 1 { max_items } else { 1 },
            b.connection_status == RedisConnectionStatus::Disabled,
            b.receiver is None,
    {
        LiveFeedBuffer {
            items: VecDeque::new(),
            max_items: if max_items >= 1 { max_items } else { 1 },
            connection_status: RedisConnectionStatus::Disabled,
            receiver: None,
        }
    }

    /// Whether a subscriber feeds this buffer.
    pub fn is_enabled(&self) -> (r: bool)
        ensures
            r == self.receiver is Some,
    {
        self.receiver.is_some()
    }

    /// Appends an article, dropping the oldest ones beyond `max_items`.
    pub fn push(&mut self, item: LiveArticle)
        ensures
            final(self).items@ == keep_newest(old(self).items@.push(item), old(self).max_items as nat),
            final(self).max_items == old(self).max_items,
            final(self).connection_status == old(self).connection_status,
            final(self).receiver == old(self).receiver,
            old(self).wf() ==> final(self).wf(),
    {
        let ghost s = old(self).items@.push(item);
        self.items.push_back(item);
        let ghost mut k: int = 0;
        while self.items.len() > self.max_items
            invariant
                0 <= k <= s.len(),
                self.items@ == s.subrange(k, s.len() as int),
                self.max_items == old(self).max_items,
                self.connection_status == old(self).connection_status,
                self.receiver == old(self).receiver,
                s.len() - k >= self.max_items || k == 0,
            decreases self.items@.len(),
        {
            self.items.pop_front();
            proof {
                k = k + 1;
            }
            assert(self.items@ == s.subrange(k, s.len() as int));
        }
        assert(self.items@ == keep_newest(s, self.max_items as nat));
    }

    /// Applies one message from the subscriber.
    pub fn apply_message(&mut self, msg: FeedMessage)
        ensures
            (final(self).items@, final(self).connection_status) == after_message(
                old(self).items@,
                old(self).connection_status,
                old(self).max_items as nat,
                msg,
            ),
            final(self).max_items == old(self).max_items,
            final(self).receiver == old(self).receiver,
            old(self).wf() ==> final(self).wf(),
    {
        match msg {
            FeedMessage::Connected => self.connection_status = RedisConnectionStatus::Connected,
            FeedMessage::Disconnected => self.connection_status =
            RedisConnectionStatus::Disconnected,
            FeedMessage::Article(a) => self.push(a),
        }
    }

    /// Applies the subscriber's messages in order.
    pub fn apply_messages(&mut self, msgs: Vec<FeedMessage>)
        ensures
            (final(self).items@, final(self).connection_status) == after_messages(
                old(self).items@,
                old(self).connection_status,
                old(self).max_items as nat,
                msgs@,
            ),
            final(self).max_items == old(self).max_items,
            final(self).receiver == old(self).receiver,
            old(self).wf() ==> final(self).wf(),
    {
        let ghost all = msgs@;
        for msg in it: msgs
            invariant
                it.seq() == all,
                (self.items@, self.connection_status) == after_messages(
                    old(self).items@,
                    old(self).connection_status,
                    old(self).max_items as nat,
                    all.take(it.index() as int),
                ),
                self.max_items == old(self).max_items,
                self.receiver == old(self).receiver,
                old(self).wf() ==> self.wf(),
        {
            assert(all.take(it.index() + 1).drop_last() == all.take(it.index() as int));
            self.apply_message(msg);
        }
        assert(all.take(all.len() as int) == all);
    }

    /// Takes the messages queued by the subscriber, if any, and applies them in order.
    /// When the buffer has no subscriber, or its channel's lock is poisoned, nothing changes.
    pub fn drain_receiver(&mut self)
        ensures
            exists|msgs: Seq<FeedMessage>|
                (final(self).items@, final(self).connection_status) == after_messages(
                    old(self).items@,
                    old(self).connection_status,
                    old(self).max_items as nat,
                    msgs,
                ),
            old(self).receiver is None ==> final(self).items@ == old(self).items@
                && final(self).connection_status == old(self).connection_status,
            final(self).max_items == old(self).max_items,
            final(self).receiver == old(self).receiver,
            old(self).wf() ==> final(self).wf(),
    {
        let queued = match &self.receiver {
            Some(r) => match lock_receiver(r) {
                Some(guard) => Some(take_queued(&guard)),
                None => None,
            },
            None => None,
        };
        match queued {
            Some(msgs) => {
                self.apply_messages(msgs);
            },
            None => {
                assert(after_messages(
                    self.items@,
                    self.connection_status,
                    self.max_items as nat,
                    Seq::empty(),
                ) == (self.items@, self.connection_status));
            },
        }
    }
}

} // verus!

verus! {

/// The articles among `msgs`, in order.
pub open spec fn articles_of(msgs: Seq<FeedMessage>) -> Seq<LiveArticle>
    decreases msgs.len(),
{
    if msgs.len() == 0 {
        Seq::empty()
    } else {
        match msgs.last() {
            FeedMessage::Article(a) => articles_of(msgs.drop_last()).push(a),
            _ => articles_of(msgs.drop_last()),
        }
    }
}

/// The status after `msgs`: that of the last status message, or `status` when none.
pub open spec fn status_after(status: RedisConnectionStatus, msgs: Seq<FeedMessage>) -> RedisConnectionStatus
    decreases msgs.len(),
{
    if msgs.len() == 0 {
        status
    } else {
        match msgs.last() {
            FeedMessage::Connected => RedisConnectionStatus::Connected,
            FeedMessage::Disconnected => RedisConnectionStatus::Disconnected,
            FeedMessage::Article(_) => status_after(status, msgs.drop_last()),
        }
    }
}

proof fn lemma_keep_newest_push<T>(s: Seq<T>, a: T, max: nat)
    requires
        max >= 1,
    ensures
        keep_newest(keep_newest(s, max).push(a), max) == keep_newest(s.push(a), max),
{
    if s.len() > max {
        assert(keep_newest(keep_newest(s, max).push(a), max) =~= keep_newest(s.push(a), max));
    }
}

/// Law: whatever the messages, a well-formed feed ends up holding the newest `max` of its
/// articles followed by the received ones, in arrival order, and shows the status of the
/// last status message (or keeps its own when none came).
pub proof fn law_feed_keeps_newest(
    items: Seq<LiveArticle>,
    status: RedisConnectionStatus,
    max: nat,
    msgs: Seq<FeedMessage>,
)
    requires
        max >= 1,
        items.len() <= max,
    ensures
        after_messages(items, status, max, msgs).0 == keep_newest(items + articles_of(msgs), max),
        after_messages(items, status, max, msgs).1 == status_after(status, msgs),
        after_messages(items, status, max, msgs).0.len() <= max,
    decreases msgs.len(),
{
    if msgs.len() == 0 {
        assert(items + articles_of(msgs) =~= items);
    } else {
        law_feed_keeps_newest(items, status, max, msgs.drop_last());
        let prev = items + articles_of(msgs.drop_last());
        match msgs.last() {
            FeedMessage::Article(a) => {
                lemma_keep_newest_push(prev, a, max);
                assert(items + articles_of(msgs) =~= prev.push(a));
            },
            _ => {
                assert(items + articles_of(msgs) =~= prev);
            },
        }
    }
}

} // verus!

verus! {

/// The trimmed, non-empty pieces, in order.
pub open spec fn nonempty_trimmed(pieces: Seq<Seq<char>>) -> Seq<Seq<char>>
    decreases pieces.len(),
{
    if pieces.len() == 0 {
        Seq::empty()
    } else {
        let rest = nonempty_trimmed(pieces.drop_last());
        let t = trim(pieces.last());
        if t.len() > 0 {
            rest.push(t)
        } else {
            rest
        }
    }
}

/// The channel names in a comma-separated list: each piece trimmed, empty ones dropped.
pub open spec fn channel_list(s: Seq<char>) -> Seq<Seq<char>> {
    nonempty_trimmed(split(s, ','))
}

/// Parses a comma-separated list of channel names: each piece is trimmed of white space
/// and empty pieces are dropped.
pub fn parse_channel_list(s: &str) -> (r: Vec<String>)
    ensures
        strings_view(r@) == channel_list(s@),
        forall|i: int| 0 <= i < r@.len() ==> (#[trigger] r@[i])@.len() > 0,
{
    let cs = chars_of(s);
    let ghost sv = s@;
    let mut out: Vec<String> = Vec::new();
    let mut start: usize = 0;
    let mut i: usize = 0;
    proof {
        assert(sv.take(0) =~= Seq::<char>::empty());
        assert(split(sv.take(0), ',').drop_last() =~= Seq::<Seq<char>>::empty());
    }
    while i < cs.len()
        invariant
            cs@ == sv,
            start <= i <= cs.len(),
            split(sv.take(i as int), ',').len() >= 1,
            strings_view(out@) == nonempty_trimmed(split(sv.take(i as int), ',').drop_last()),
            split(sv.take(i as int), ',').last() == cs@.subrange(start as int, i as int),
            forall|j: int| 0 <= j < out@.len() ==> (#[trigger] out@[j])@.len() > 0,
        decreases cs.len() - i,
    {
        proof {
            lemma_split_step(sv, i as int, ',');
        }
        let ghost prev = split(sv.take(i as int), ',');
        if cs[i] == ',' {
            let (a, b) = trim_bounds(&cs, start, i);
            assert(prev.drop_last().push(prev.last()) == prev);
            if a < b {
                let piece = string_from_chars(slice_subrange(cs.as_slice(), a, b));
                let ghost before = out@;
                out.push(piece);
                assert(strings_view(out@) =~= strings_view(before).push(piece@));
            }
            start = i + 1;
            i += 1;
            assert(split(sv.take(i as int), ',').drop_last() == prev);
        } else {
            i += 1;
        }
        assert(cs@.subrange(start as int, i as int) == split(sv.take(i as int), ',').last());
    }
    assert(sv.take(cs.len() as int) == sv);
    let ghost all = split(sv, ',');
    assert(all.drop_last().push(all.last()) == all);
    let (a, b) = trim_bounds(&cs, start, cs.len());
    if a < b {
        let piece = string_from_chars(slice_subrange(cs.as_slice(), a, b));
        let ghost before = out@;
        out.push(piece);
        assert(strings_view(out@) =~= strings_view(before).push(piece@));
    }
    out
}

} // verus!

verus! {

/// Settings of the live feed.
#[derive(Clone, Debug)]
pub struct RedisFeedConfig {
    pub addr: String,
    pub password: Option<String>,
    pub channels: Vec<String>,
    pub max_items: usize,
}

/// Why no feed configuration could be made.
#[derive(Clone, Copy, Debug, PartialEq, Eq, Structural)]
pub enum FeedConfigError {
    /// The channel list names no channel.
    NoChannels,
}

/// The channel subscribed to when no channel list is given, so that the status still
/// shows whether Redis is reachable.
pub open spec fn default_channels() -> Seq<Seq<char>> {
    seq!["test"@]
}

/// The channels a setting names: those of the list, or the default channel when unset.
pub open spec fn channels_setting(s: Option<String>) -> Seq<Seq<char>> {
    match s {
        Some(c) => channel_list(c@),
        None => default_channels(),
    }
}

/// The address used when none is given.
pub open spec fn default_redis_addr() -> Seq<char> {
    "127.0.0.1:6379"@
}

/// The buffer size from its setting: the number when it parses, else 20; at least 1.
pub open spec fn max_items_setting(s: Option<String>) -> nat {
    let v = match s {
        Some(t) => match parse_unsigned(t@, usize::MAX as nat) {
            Some(n) => n,
            None => 20,
        },
        None => 20,
    };
    if v >= 1 {
        v
    } else {
        1
    }
}

impl RedisFeedConfig {
    /// Builds the configuration from the settings `REDIS_ADDR`, `REDIS_PASSWORD`,
    /// `REDIS_CHANNELS` and `REDIS_MAX_ITEMS` (each `None` when unset). Without a channel
    /// list the feed subscribes to channel `test`; a list that names no channel is refused.
    pub fn from_settings(
        addr: Option<String>,
        password: Option<String>,
        channels: Option<String>,
        max_items: Option<String>,
    ) -> (r: Result<RedisFeedConfig, FeedConfigError>)
        ensures
            channels_setting(channels).len() == 0 ==> r == Err::<RedisFeedConfig, FeedConfigError>(
                FeedConfigError::NoChannels,
            ),
            channels_setting(channels).len() > 0 ==> (r matches Ok(cfg) && {
                &&& strings_view(cfg.channels@) == channels_setting(channels)
                &&& cfg.addr@ == match addr {
                    Some(a) => a@,
                    None => default_redis_addr(),
                }
                &&& cfg.password == password
                &&& cfg.max_items == max_items_setting(max_items)
                &&& max_items matches Some(t) ==> (parse_unsigned(t@, usize::MAX as nat) matches Some(
                    n,
                ) ==> (n >= 1 ==> cfg.max_items == n))
            }),
    {
        let list = match &channels {
            Some(c) => parse_channel_list(c.as_str()),
            None => {
                let mut v: Vec<String> = Vec::new();
                v.push("test".to_string());
                assert(strings_view(v@) =~= default_channels());
                v
            },
        };
        if list.len() == 0 {
            return Err(FeedConfigError::NoChannels);
        }
        let addr = match addr {
            Some(a) => a,
            None => "127.0.0.1:6379".to_string(),
        };
        let parsed = match &max_items {
            Some(t) => parse_usize(t.as_str()),
            None => None,
        };
        let n: usize = match parsed {
            Some(n) => n,
            None => 20,
        };
        let max_items: usize = if n >= 1 {
            n
        } else {
            1
        };
        Ok(RedisFeedConfig { addr, password, channels: list, max_items })
    }
}

/// The URL of the Redis server: `redis://:<password>@<addr>` or `redis://<addr>`.
pub open spec fn redis_url(addr: Seq<char>, password: Option<Seq<char>>) -> Seq<char> {
    match password {
        Some(p) => "redis://:"@ + p + "@"@ + addr,
        None => "redis://"@ + addr,
    }
}

/// The URL the subscriber connects to.
pub fn subscriber_url(addr: &str, password: Option<&str>) -> (r: String)
    ensures
        r@ == redis_url(
            addr@,
            match password {
                Some(p) => Some(p@),
                None => None,
            },
        ),
{
    let mut url = String::new();
    match password {
        Some(p) => {
            push_str(&mut url, "redis://:");
            push_str(&mut url, p);
            push_str(&mut url, "@");
        },
        None => {
            push_str(&mut url, "redis://");
        },
    }
    push_str(&mut url, addr);
    url
}

/// A parse error is logged when it is the first, every 50th, or when the quiet interval
/// has passed since the last logged one.
pub fn parse_error_should_log(error_number: u32, interval_elapsed: bool) -> (r: bool)
    ensures
        r == (interval_elapsed || error_number == 1 || error_number % 50 == 0),
{
    interval_elapsed || error_number == 1 || error_number % 50 == 0
}

/// `String::from_utf8`: the decoded text when the bytes are valid UTF-8, else the error.
#[verifier::external_body]
fn string_from_utf8(bytes: Vec<u8>) -> (r: Result<String, std::string::FromUtf8Error>)
    ensures
        r is Ok <==> valid_utf8(bytes@),
        r matches Ok(s) ==> s@ == decode_utf8(bytes@),
{
    String::from_utf8(bytes)
}

#[verifier::external_type_specification]
#[verifier::external_body]
pub struct ExFromUtf8Error(std::string::FromUtf8Error);

/// Decodes a message payload as UTF-8; on failure, the error's message.
pub fn decode_payload(payload: Vec<u8>) -> (r: Result<String, String>)
    ensures
        r is Ok <==> valid_utf8(payload@),
        r matches Ok(s) ==> s@ == decode_utf8(payload@),
{
    match string_from_utf8(payload) {
        Ok(s) => Ok(s),
        Err(e) => Err(e.to_string()),
    }
}

} // verus!

verus! {

/// How many times the subscriber tries to connect and subscribe at startup.
pub const SETUP_ATTEMPTS: u32 = 5;

/// What happens to the subscriber.
pub enum SubscriberEvent {
    /// Attempt number `n` (counting from 1) to open the client, connect, or subscribe to
    /// every channel failed.
    SetupFailed(u32),
    /// Every channel is subscribed.
    Subscribed,
    /// Reading the next message failed.
    ReceiveFailed,
    /// A message arrived whose payload could not be read or parsed.
    Unreadable,
    /// A message arrived on the named channel, its payload parsed.
    Received(LiveArticleRaw, String),
}

/// What the subscriber does next: what it reports to the buffer, whether it logs a parse
/// error, whether it tries the setup again, and whether it stops (at once, or when the
/// report cannot be delivered).
pub struct SubscriberAction {
    pub report: Option<FeedMessage>,
    pub log_parse_error: bool,
    pub retry_setup: bool,
    pub stop: bool,
    pub stop_if_undelivered: bool,
}

/// `report` is the article `raw` completes to.
pub open spec fn reports_article(report: Option<FeedMessage>, raw: LiveArticleRaw, channel: Seq<char>) -> bool {
    match report {
        Some(FeedMessage::Article(art)) => completes(art, raw, channel),
        _ => false,
    }
}

/// The subscriber's decision for an event: a failed setup is tried again, reporting
/// nothing, while attempts are left, and after the last attempt reports a disconnection
/// and stops; a failed read reports a disconnection and stops; a completed subscription
/// reports the connection; an unreadable payload is logged and skipped; a parsed one is
/// reported as an article, and the subscriber stops when nobody receives it any more.
pub fn subscriber_step(event: SubscriberEvent) -> (a: SubscriberAction)
    ensures
        match event {
            SubscriberEvent::SetupFailed(n) => if n < SETUP_ATTEMPTS {
                a.report is None && a.retry_setup && !a.stop && !a.stop_if_undelivered
                    && !a.log_parse_error
            } else {
                a.report matches Some(FeedMessage::Disconnected) && a.stop && !a.retry_setup
                    && !a.log_parse_error
            },
            SubscriberEvent::ReceiveFailed => a.report matches Some(FeedMessage::Disconnected)
                && a.stop && !a.retry_setup && !a.log_parse_error,
            SubscriberEvent::Subscribed => a.report matches Some(FeedMessage::Connected) && !a.stop
                && !a.stop_if_undelivered && !a.retry_setup && !a.log_parse_error,
            SubscriberEvent::Unreadable => a.report is None && a.log_parse_error && !a.stop
                && !a.stop_if_undelivered && !a.retry_setup,
            SubscriberEvent::Received(raw, channel) => reports_article(a.report, raw, channel@)
                && !a.stop && a.stop_if_undelivered && !a.retry_setup && !a.log_parse_error,
        },
{
    match event {
        SubscriberEvent::SetupFailed(n) => if n < SETUP_ATTEMPTS {
            SubscriberAction {
                report: None,
                log_parse_error: false,
                retry_setup: true,
                stop: false,
                stop_if_undelivered: false,
            }
        } else {
            SubscriberAction {
                report: Some(FeedMessage::Disconnected),
                log_parse_error: false,
                retry_setup: false,
                stop: true,
                stop_if_undelivered: false,
            }
        },
        SubscriberEvent::ReceiveFailed => SubscriberAction {
            report: Some(FeedMessage::Disconnected),
            log_parse_error: false,
            retry_setup: false,
            stop: true,
            stop_if_undelivered: false,
        },
        SubscriberEvent::Subscribed => SubscriberAction {
            report: Some(FeedMessage::Connected),
            log_parse_error: false,
            retry_setup: false,
            stop: false,
            stop_if_undelivered: false,
        },
        SubscriberEvent::Unreadable => SubscriberAction {
            report: None,
            log_parse_error: true,
            retry_setup: false,
            stop: false,
            stop_if_undelivered: false,
        },
        SubscriberEvent::Received(raw, channel) => SubscriberAction {
            report: Some(FeedMessage::Article(LiveArticle::from_raw(raw, channel))),
            log_parse_error: false,
            retry_setup: false,
            stop: false,
            stop_if_undelivered: true,
        },
    }
}

} // verus!

verus! {

/// Law: the buffer size setting is taken as written: a setting that spells a number
/// `n >= 1` (that fits a `usize`) gives exactly `n`, with no upper bound; `0` gives 1; an
/// unset or unreadable setting gives 20.
pub proof fn law_max_items_as_written(t: String, n: nat)
    ensures
        (1 <= n <= usize::MAX && t@ == decimal(n)) ==> max_items_setting(Some(t)) == n,
        t@ == decimal(0) ==> max_items_setting(Some(t)) == 1,
        parse_unsigned(t@, usize::MAX as nat) is None ==> max_items_setting(Some(t)) == 20,
        max_items_setting(None) == 20,
{
    if n <= usize::MAX {
        crate::text::law_parse_decimal_roundtrip(n, usize::MAX as nat);
    }
    crate::text::law_parse_decimal_roundtrip(0, usize::MAX as nat);
}

/// Law: every channel name read from a list is non-empty and has no leading or trailing
/// white space.
pub proof fn law_channel_names_trimmed(s: Seq<char>)
    ensures
        forall|i: int|
            0 <= i < channel_list(s).len() ==> (#[trigger] channel_list(s)[i]).len() > 0 && trim(
                channel_list(s)[i],
            ) == channel_list(s)[i],
{
    lemma_nonempty_trimmed(split(s, ','));
}

proof fn lemma_nonempty_trimmed(pieces: Seq<Seq<char>>)
    ensures
        forall|i: int|
            0 <= i < nonempty_trimmed(pieces).len() ==> (#[trigger] nonempty_trimmed(pieces)[i]).len()
                > 0 && trim(nonempty_trimmed(pieces)[i]) == nonempty_trimmed(pieces)[i],
    decreases pieces.len(),
{
    if pieces.len() > 0 {
        lemma_nonempty_trimmed(pieces.drop_last());
        crate::text::law_trim_idempotent(pieces.last());
        let rest = nonempty_trimmed(pieces.drop_last());
        let r = nonempty_trimmed(pieces);
        assert forall|i: int| 0 <= i < r.len() implies (#[trigger] r[i]).len() > 0 && trim(r[i])
            == r[i] by {
            if i < rest.len() {
                assert(r[i] == rest[i]);
            }
        }
    }
}

} // verus!
