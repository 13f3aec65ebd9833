//! Telegram delivery: message formatting and the queue consumer, as a
//! state machine from what came of its last action to its next action.
//!
//! The application performs the actions: it takes messages from the queue,
//! posts them to the Bot API, and waits.

use vstd::prelude::*;
use crate::text::{html_escaped, push_html_escaped};

verus! {

/// A message queued for delivery to Telegram.
#[derive(Debug, Clone)]
pub struct QueuedMessage {
    pub text: String,
}

/// Escape special HTML characters for Telegram's HTML parse mode.
pub fn escape_html(s: &str) -> (r: String)
    ensures
        r@ == html_escaped(s@),
{
    let mut r = String::new();
    push_html_escaped(&mut r, s);
    assert(r@ =~= html_escaped(s@));
    r
}

/// The HTML message for a feed item: the site in bold, the escaped title
/// (a link when the item has a URL), and the escaped preview on the next line.
pub open spec fn feed_item_text(
    site: Seq<char>,
    title: Seq<char>,
    url: Seq<char>,
    preview: Seq<char>,
) -> Seq<char> {
    if url.len() == 0 {
        "<b>["@ + site + "]</b> "@ + html_escaped(title) + "\n"@ + html_escaped(preview)
    } else {
        "<b>["@ + site + "]</b> "@ + "<a href=\""@ + url + "\">"@ + html_escaped(title) + "</a>"@
            + "\n"@ + html_escaped(preview)
    }
}

/// Formats a feed item message.
pub fn feed_item_message(site: &str, title: &str, url: &str, preview: &str) -> (r: String)
    ensures
        r@ == feed_item_text(site@, title@, url@, preview@),
{
    let mut r = String::new();
    r.append("<b>[");
    r.append(site);
    r.append("]</b> ");
    if url.unicode_len() == 0 {
        push_html_escaped(&mut r, title);
    } else {
        r.append("<a href=\"");
        r.append(url);
        r.append("\">");
        push_html_escaped(&mut r, title);
        r.append("</a>");
    }
    r.append("\n");
    push_html_escaped(&mut r, preview);
    assert(r@ =~= feed_item_text(site@, title@, url@, preview@));
    r
}

/// The Bot API endpoint that sends a message with the bot `token`.
pub fn send_message_url(token: &str) -> (r: String)
    ensures
        r@ == "https://api.telegram.org/bot"@ + token@ + "/sendMessage"@,
{
    let mut r = String::new();
    r.append("https://api.telegram.org/bot");
    r.append(token);
    r.append("/sendMessage");
    r
}

/// Why a send failed.
#[derive(Debug, Clone)]
pub enum TelegramError {
    /// The request did not complete.
    Http(String),
    /// The API answered with a non-success status.
    Api { status: u16, body: String },
}

/// The HTTP status of a rate-limited reply.
pub const TOO_MANY_REQUESTS: u16 = 429;

/// Seconds to back off after a rate-limited reply that names no delay.
pub const DEFAULT_RETRY_AFTER_SECS: u64 = 10;

/// Seconds between two messages of the queue.
pub const DRAIN_INTERVAL_SECS: u64 = 1;

/// What the consumer does after a send attempt.
#[derive(Debug, Clone, Copy, PartialEq, Eq)]
pub enum ConsumerStep {
    /// Wait, then send the same message again.
    Resend { wait_secs: u64 },
    /// The message is done with (sent or dropped): wait, then take the next.
    Advance { wait_secs: u64 },
}

/// The consumer's decision after a send: a rate-limited message is sent
/// again after the delay the reply names (or the default); any other
/// outcome moves on to the next message after the drain interval.
/// `retry_after` is what the reply's body says of `parameters.retry_after`.
pub open spec fn next_step(result: Result<(), TelegramError>, retry_after: Option<u64>) -> ConsumerStep {
    match result {
        Err(TelegramError::Api { status, body: _ }) if status == TOO_MANY_REQUESTS => {
            ConsumerStep::Resend {
                wait_secs: match retry_after {
                    Some(s) => s,
                    None => DEFAULT_RETRY_AFTER_SECS,
                },
            }
        },
        _ => ConsumerStep::Advance { wait_secs: DRAIN_INTERVAL_SECS },
    }
}

/// Decides what the consumer does after a send attempt.
pub fn after_send(result: &Result<(), TelegramError>, retry_after: Option<u64>) -> (r: ConsumerStep)
    ensures
        r == next_step(*result, retry_after),
{
    match result {
        Err(TelegramError::Api { status, body: _ }) => {
            if *status == TOO_MANY_REQUESTS {
                ConsumerStep::Resend {
                    wait_secs: match retry_after {
                        Some(s) => s,
                        None => DEFAULT_RETRY_AFTER_SECS,
                    },
                }
            } else {
                ConsumerStep::Advance { wait_secs: DRAIN_INTERVAL_SECS }
            }
        },
        _ => ConsumerStep::Advance { wait_secs: DRAIN_INTERVAL_SECS },
    }
}

impl TelegramError {
    /// The error's message.
    pub fn describe(&self) -> (r: String)
        ensures
            r@ == (match self {
                TelegramError::Http(e) => "telegram HTTP error: "@ + e@,
                TelegramError::Api { status, body } => "telegram API error ("@ + crate::decimal::decimal_of(
                    *status as nat,
                ) + "): "@ + body@,
            }),
    {
        let mut r = String::new();
        match self {
            TelegramError::Http(e) => {
                r.append("telegram HTTP error: ");
                r.append(e.as_str());
            },
            TelegramError::Api { status, body } => {
                r.append("telegram API error (");
                crate::decimal::push_decimal(&mut r, *status as u64);
                r.append("): ");
                r.append(body.as_str());
            },
        }
        r
    }
}

// ---------------------------------------------------------------------------
// The consumer loop
// ---------------------------------------------------------------------------

/// Where the consumer stands.
#[derive(Debug, Clone)]
pub enum ConsumerPhase {
    /// Not started.
    Idle,
    /// Waiting for the next queued message.
    Waiting,
    /// `text` was handed to the API.
    Sending { text: String },
    /// `text` was rate limited; waiting to send it again.
    BackingOff { text: String },
    /// The last message is done with; waiting out the drain interval.
    Draining,
    /// The queue is closed and empty.
    Stopped,
}

/// What came of the consumer's last action.
#[derive(Debug)]
pub enum ConsumerEvent {
    /// The loop starts.
    Started,
    /// The next queued message, or `None` when the queue is closed and
    /// drained.
    Received(Option<String>),
    /// The API's reply to a send, with the `retry_after` its body names.
    Replied { result: Result<(), TelegramError>, retry_after: Option<u64> },
    /// A wait ended.
    Slept,
}

/// What the consumer does next.
#[derive(Debug, Clone, PartialEq, Eq)]
pub enum ConsumerAction {
    /// Take the next message from the queue (waiting for one).
    Receive,
    /// Send this text to the API.
    Send { text: String },
    /// Wait this many seconds.
    Sleep { secs: u64 },
    /// End the loop.
    Stop,
}

/// The view of a phase: texts as characters.
pub enum ConsumerPhaseV {
    Idle,
    Waiting,
    Sending(Seq<char>),
    BackingOff(Seq<char>),
    Draining,
    Stopped,
}

/// The view of an event.
pub enum ConsumerEventV {
    Started,
    Received(Option<Seq<char>>),
    Replied(Result<(), TelegramError>, Option<u64>),
    Slept,
}

/// The view of an action.
pub enum ConsumerActionV {
    Receive,
    Send(Seq<char>),
    Sleep(u64),
    Stop,
}

impl View for ConsumerPhase {
    type V = ConsumerPhaseV;

    open spec fn view(&self) -> ConsumerPhaseV {
        match self {
            ConsumerPhase::Idle => ConsumerPhaseV::Idle,
            ConsumerPhase::Waiting => ConsumerPhaseV::Waiting,
            ConsumerPhase::Sending { text } => ConsumerPhaseV::Sending(text@),
            ConsumerPhase::BackingOff { text } => ConsumerPhaseV::BackingOff(text@),
            ConsumerPhase::Draining => ConsumerPhaseV::Draining,
            ConsumerPhase::Stopped => ConsumerPhaseV::Stopped,
        }
    }
}

impl View for ConsumerEvent {
    type V = ConsumerEventV;

    open spec fn view(&self) -> ConsumerEventV {
        match self {
            ConsumerEvent::Started => ConsumerEventV::Started,
            ConsumerEvent::Received(m) => ConsumerEventV::Received(
                match m {
                    Some(t) => Some(t@),
                    None => None,
                },
            ),
            ConsumerEvent::Replied { result, retry_after } => ConsumerEventV::Replied(
                *result,
                *retry_after,
            ),
            ConsumerEvent::Slept => ConsumerEventV::Slept,
        }
    }
}

impl View for ConsumerAction {
    type V = ConsumerActionV;

    open spec fn view(&self) -> ConsumerActionV {
        match self {
            ConsumerAction::Receive => ConsumerActionV::Receive,
            ConsumerAction::Send { text } => ConsumerActionV::Send(text@),
            ConsumerAction::Sleep { secs } => ConsumerActionV::Sleep(*secs),
            ConsumerAction::Stop => ConsumerActionV::Stop,
        }
    }
}

/// The consumer's transition: a received message is sent; a reply decides
/// (by `next_step`) between waiting to resend the same text and waiting out
/// the drain interval before taking the next message; a closed queue
/// stops the loop. An event that does not fit the phase repeats the
/// phase's action.
pub open spec fn consumer_transition(p: ConsumerPhaseV, e: ConsumerEventV) -> (
    ConsumerPhaseV,
    ConsumerActionV,
) {
    match p {
        ConsumerPhaseV::Idle => (ConsumerPhaseV::Waiting, ConsumerActionV::Receive),
        ConsumerPhaseV::Waiting => match e {
            ConsumerEventV::Received(Some(t)) => (
                ConsumerPhaseV::Sending(t),
                ConsumerActionV::Send(t),
            ),
            ConsumerEventV::Received(None) => (ConsumerPhaseV::Stopped, ConsumerActionV::Stop),
            _ => (ConsumerPhaseV::Waiting, ConsumerActionV::Receive),
        },
        ConsumerPhaseV::Sending(t) => match e {
            ConsumerEventV::Replied(r, ra) => match next_step(r, ra) {
                ConsumerStep::Resend { wait_secs } => (
                    ConsumerPhaseV::BackingOff(t),
                    ConsumerActionV::Sleep(wait_secs),
                ),
                ConsumerStep::Advance { wait_secs } => (
                    ConsumerPhaseV::Draining,
                    ConsumerActionV::Sleep(wait_secs),
                ),
            },
            _ => (ConsumerPhaseV::Sending(t), ConsumerActionV::Send(t)),
        },
        ConsumerPhaseV::BackingOff(t) => (ConsumerPhaseV::Sending(t), ConsumerActionV::Send(t)),
        ConsumerPhaseV::Draining => (ConsumerPhaseV::Waiting, ConsumerActionV::Receive),
        ConsumerPhaseV::Stopped => (ConsumerPhaseV::Stopped, ConsumerActionV::Stop),
    }
}

/// The consumer's state machine.
#[derive(Debug, Clone)]
pub struct Consumer {
    phase: ConsumerPhase,
}

impl Consumer {
    /// Where the consumer stands.
    pub closed spec fn phase(&self) -> ConsumerPhaseV {
        self.phase@
    }

    /// A consumer before its loop starts.
    pub fn new() -> (r: Self)
        ensures
            r.phase() == ConsumerPhaseV::Idle,
    {
        Consumer { phase: ConsumerPhase::Idle }
    }

    /// Advances the loop with what came of the last action and returns the
    /// next action.
    pub fn step(&mut self, event: ConsumerEvent) -> (action: ConsumerAction)
        ensures
            (final(self).phase(), action@) == consumer_transition(old(self).phase(), event@),
    {
        let (phase, action) = match &self.phase {
            ConsumerPhase::Idle => (ConsumerPhase::Waiting, ConsumerAction::Receive),
            ConsumerPhase::Waiting => match event {
                ConsumerEvent::Received(Some(t)) => (
                    ConsumerPhase::Sending { text: t.clone() },
                    ConsumerAction::Send { text: t },
                ),
                ConsumerEvent::Received(None) => (ConsumerPhase::Stopped, ConsumerAction::Stop),
                _ => (ConsumerPhase::Waiting, ConsumerAction::Receive),
            },
            ConsumerPhase::Sending { text } => match &event {
                ConsumerEvent::Replied { result, retry_after } => match after_send(result, *retry_after) {
                    ConsumerStep::Resend { wait_secs } => (
                        ConsumerPhase::BackingOff { text: text.clone() },
                        ConsumerAction::Sleep { secs: wait_secs },
                    ),
                    ConsumerStep::Advance { wait_secs } => (
                        ConsumerPhase::Draining,
                        ConsumerAction::Sleep { secs: wait_secs },
                    ),
                },
                _ => (
                    ConsumerPhase::Sending { text: text.clone() },
                    ConsumerAction::Send { text: text.clone() },
                ),
            },
            ConsumerPhase::BackingOff { text } => (
                ConsumerPhase::Sending { text: text.clone() },
                ConsumerAction::Send { text: text.clone() },
            ),
            ConsumerPhase::Draining => (ConsumerPhase::Waiting, ConsumerAction::Receive),
            ConsumerPhase::Stopped => (ConsumerPhase::Stopped, ConsumerAction::Stop),
        };
        self.phase = phase;
        action
    }
}

/// The phase reached and the actions requested when the events `evs` come
/// in one after another, from phase `p`.
pub open spec fn consumer_run(p: ConsumerPhaseV, evs: Seq<ConsumerEventV>) -> (
    ConsumerPhaseV,
    Seq<ConsumerActionV>,
)
    decreases evs.len(),
{
    if evs.len() == 0 {
        (p, Seq::empty())
    } else {
        let (p1, a1) = consumer_transition(p, evs[0]);
        let (pn, rest) = consumer_run(p1, evs.drop_first());
        (pn, seq![a1] + rest)
    }
}

/// An API reply (with the `retry_after` its body names).
pub type Reply = (Result<(), TelegramError>, Option<u64>);

/// Whether a reply is a rate limit.
pub open spec fn rate_limited(r: Reply) -> bool {
    match r.0 {
        Err(TelegramError::Api { status, body: _ }) => status == TOO_MANY_REQUESTS,
        _ => false,
    }
}

/// The replies one message gets: rate limits, then one reply that is not.
pub open spec fn replies_end(rs: Seq<Reply>) -> bool {
    &&& rs.len() >= 1
    &&& forall|j: int| 0 <= j < rs.len() - 1 ==> rate_limited(#[trigger] rs[j])
    &&& !rate_limited(rs.last())
}

/// The delay before resending a rate-limited message.
pub open spec fn retry_wait(retry_after: Option<u64>) -> u64 {
    match retry_after {
        Some(s) => s,
        None => DEFAULT_RETRY_AFTER_SECS,
    }
}

/// The events of the replies `rs`: each reply, then the end of the wait it
/// causes.
pub open spec fn reply_events(rs: Seq<Reply>) -> Seq<ConsumerEventV>
    decreases rs.len(),
{
    if rs.len() == 0 {
        Seq::empty()
    } else {
        seq![ConsumerEventV::Replied(rs[0].0, rs[0].1), ConsumerEventV::Slept] + reply_events(
            rs.drop_first(),
        )
    }
}

/// The actions after `t` is first sent, for the replies `rs`: after each
/// rate limit, the wait it names and `t` sent again; after the first other
/// reply, the drain interval and the next message taken.
pub open spec fn reply_actions(t: Seq<char>, rs: Seq<Reply>) -> Seq<ConsumerActionV>
    decreases rs.len(),
{
    if rs.len() == 0 {
        Seq::empty()
    } else if rate_limited(rs[0]) {
        seq![ConsumerActionV::Sleep(retry_wait(rs[0].1)), ConsumerActionV::Send(t)]
            + reply_actions(t, rs.drop_first())
    } else {
        seq![ConsumerActionV::Sleep(DRAIN_INTERVAL_SECS), ConsumerActionV::Receive]
    }
}

/// The events of the queued messages from `k` on: each message received,
/// then its replies.
pub open spec fn queue_events(ms: Seq<(Seq<char>, Seq<Reply>)>, k: int) -> Seq<ConsumerEventV>
    decreases ms.len() - k,
{
    if 0 <= k < ms.len() {
        seq![ConsumerEventV::Received(Some(ms[k].0))] + reply_events(ms[k].1) + queue_events(
            ms,
            k + 1,
        )
    } else {
        Seq::empty()
    }
}

/// The actions for the queued messages from `k` on: each message sent,
/// then what its replies call for.
pub open spec fn queue_actions(ms: Seq<(Seq<char>, Seq<Reply>)>, k: int) -> Seq<ConsumerActionV>
    decreases ms.len() - k,
{
    if 0 <= k < ms.len() {
        seq![ConsumerActionV::Send(ms[k].0)] + reply_actions(ms[k].0, ms[k].1) + queue_actions(
            ms,
            k + 1,
        )
    } else {
        Seq::empty()
    }
}

/// Running two event sequences one after the other.
pub proof fn lemma_consumer_run_append(p: ConsumerPhaseV, a: Seq<ConsumerEventV>, b: Seq<
    ConsumerEventV,
>)
    ensures
        consumer_run(p, a + b) == (
            consumer_run(consumer_run(p, a).0, b).0,
            consumer_run(p, a).1 + consumer_run(consumer_run(p, a).0, b).1,
        ),
    decreases a.len(),
{
    if a.len() == 0 {
        assert(a + b =~= b);
        assert(consumer_run(p, a).1 + consumer_run(p, b).1 =~= consumer_run(p, b).1);
    } else {
        let (p1, a1) = consumer_transition(p, a[0]);
        assert((a + b)[0] == a[0]);
        assert((a + b).drop_first() =~= a.drop_first() + b);
        lemma_consumer_run_append(p1, a.drop_first(), b);
        let q = consumer_run(p1, a.drop_first()).0;
        assert(consumer_run(p, a + b).1 =~= seq![a1] + (consumer_run(p1, a.drop_first()).1
            + consumer_run(q, b).1));
    }
}

proof fn lemma_replies_run(t: Seq<char>, rs: Seq<Reply>)
    requires
        replies_end(rs),
    ensures
        consumer_run(ConsumerPhaseV::Sending(t), reply_events(rs)) == (
            ConsumerPhaseV::Waiting,
            reply_actions(t, rs),
        ),
    decreases rs.len(),
{
    let first = seq![ConsumerEventV::Replied(rs[0].0, rs[0].1), ConsumerEventV::Slept];
    let rest = rs.drop_first();
    assert(reply_events(rs) == first + reply_events(rest));
    lemma_consumer_run_append(ConsumerPhaseV::Sending(t), first, reply_events(rest));
    reveal_with_fuel(consumer_run, 3);
    assert(first.drop_first().drop_first().len() == 0);
    if rate_limited(rs[0]) {
        assert(rs.len() >= 2) by {
            if rs.len() == 1 {
                assert(rs.last() == rs[0]);
            }
        }
        assert(replies_end(rest)) by {
            assert forall|j: int| 0 <= j < rest.len() - 1 implies rate_limited(#[trigger] rest[j]) by {
                assert(rest[j] == rs[j + 1]);
            }
            assert(rest.last() == rs.last());
        }
        lemma_replies_run(t, rest);
        let (q, acts) = consumer_run(ConsumerPhaseV::Sending(t), first);
        assert(acts =~= seq![ConsumerActionV::Sleep(retry_wait(rs[0].1)), ConsumerActionV::Send(t)]);
    } else {
        assert(rs.len() == 1) by {
            if rs.len() > 1 {
                assert(rate_limited(rs[0]));
            }
        }
        assert(reply_events(rest) =~= Seq::<ConsumerEventV>::empty());
        let (q, acts) = consumer_run(ConsumerPhaseV::Sending(t), first);
        assert(acts =~= seq![
            ConsumerActionV::Sleep(DRAIN_INTERVAL_SECS),
            ConsumerActionV::Receive,
        ]);
        assert(acts + Seq::<ConsumerActionV>::empty() =~= acts);
    }
}

proof fn lemma_queue_run(ms: Seq<(Seq<char>, Seq<Reply>)>, k: int)
    requires
        0 <= k <= ms.len(),
        forall|j: int| 0 <= j < ms.len() ==> replies_end(#[trigger] ms[j].1),
    ensures
        consumer_run(ConsumerPhaseV::Waiting, queue_events(ms, k)) == (
            ConsumerPhaseV::Waiting,
            queue_actions(ms, k),
        ),
    decreases ms.len() - k,
{
    if k < ms.len() {
        let t = ms[k].0;
        let head = seq![ConsumerEventV::Received(Some(t))];
        let rest = reply_events(ms[k].1) + queue_events(ms, k + 1);
        assert(queue_events(ms, k) =~= head + rest);
        lemma_consumer_run_append(ConsumerPhaseV::Waiting, head, rest);
        reveal_with_fuel(consumer_run, 2);
        assert(head.drop_first().len() == 0);
        lemma_consumer_run_append(ConsumerPhaseV::Sending(t), reply_events(ms[k].1), queue_events(
            ms,
            k + 1,
        ));
        lemma_replies_run(t, ms[k].1);
        lemma_queue_run(ms, k + 1);
        assert(queue_actions(ms, k) =~= seq![ConsumerActionV::Send(t)] + (reply_actions(
            t,
            ms[k].1,
        ) + queue_actions(ms, k + 1)));
    } else {
        assert(queue_events(ms, k) =~= Seq::<ConsumerEventV>::empty());
        assert(queue_actions(ms, k) =~= Seq::<ConsumerActionV>::empty());
    }
}

/// The consumer delivers the queue in order: given the messages `ms`
/// (each text with the replies its sends get) enqueued in this order and
/// then the queue closed, the consumer, once started, takes each message,
/// sends it, sends it again after the named delay (or ten seconds) for each
/// rate-limited reply, gives it up at the first other reply, waits the one
/// second drain interval before taking the next, and stops once the queue
/// is closed and empty.
pub proof fn lemma_consumer_delivers_in_order(ms: Seq<(Seq<char>, Seq<Reply>)>)
    requires
        forall|j: int| 0 <= j < ms.len() ==> replies_end(#[trigger] ms[j].1),
    ensures
        consumer_run(
            ConsumerPhaseV::Idle,
            seq![ConsumerEventV::Started] + queue_events(ms, 0) + seq![
                ConsumerEventV::Received(None),
            ],
        ) == (
            ConsumerPhaseV::Stopped,
            seq![ConsumerActionV::Receive] + queue_actions(ms, 0) + seq![ConsumerActionV::Stop],
        ),
{
    let start = seq![ConsumerEventV::Started];
    let end = seq![ConsumerEventV::Received(None)];
    lemma_queue_run(ms, 0);
    lemma_consumer_run_append(ConsumerPhaseV::Idle, start + queue_events(ms, 0), end);
    lemma_consumer_run_append(ConsumerPhaseV::Idle, start, queue_events(ms, 0));
    reveal_with_fuel(consumer_run, 2);
    assert(start.drop_first().len() == 0);
    assert(end.drop_first().len() == 0);
}

} // verus!
