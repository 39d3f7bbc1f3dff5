//! The event stream generator: for a request with count `c` it yields the
//! decimal texts of `0, 1, ..., c - 1` and then the sentinel `[DONE]`, and
//! nothing after that.
use vstd::prelude::*;
use vstd::string::StringExecFns;
use crate::decimal::{decimal_string, decimal_text};

verus! {

/// The count used when a request names none.
pub const DEFAULT_COUNT: u64 = 15;

/// The sentinel text that ends every stream.
pub open spec fn done_text() -> Seq<char> {
    seq!['[', 'D', 'O', 'N', 'E', ']']
}

/// The payload of the event pulled at `position` from a stream of `count`.
pub open spec fn event_payload(count: nat, position: nat) -> Seq<char> {
    if position < count {
        decimal_text(position)
    } else {
        done_text()
    }
}

/// Every payload of a stream of `count`, in order.
pub open spec fn stream_events(count: nat) -> Seq<Seq<char>> {
    Seq::new(count + 1, |i: int| event_payload(count, i as nat))
}

/// What a client asked for: how many counter values precede the sentinel.
#[derive(Clone, Copy, Debug, PartialEq, Eq, Structural)]
pub struct StreamRequest {
    pub count: u64,
}

impl StreamRequest {
    pub fn new(count: u64) -> (r: StreamRequest)
        ensures
            r.count == count,
    {
        StreamRequest { count }
    }

    /// The request made when the client names no count.
    pub fn with_default_count() -> (r: StreamRequest)
        ensures
            r.count == DEFAULT_COUNT,
    {
        StreamRequest { count: DEFAULT_COUNT }
    }
}

/// The abstract state of a stream: its count and how many pulls have
/// produced an event so far (at most `count + 1`).
pub struct EventStreamView {
    pub count: nat,
    pub pulled: nat,
}

/// The state of one stream after `k` more pulls.
pub open spec fn advance(v: EventStreamView, k: nat) -> EventStreamView {
    EventStreamView {
        count: v.count,
        pulled: if v.pulled + k <= v.count + 1 {
            v.pulled + k
        } else if v.pulled <= v.count + 1 {
            v.count + 1
        } else {
            v.pulled
        },
    }
}

/// What one pull yields: the next payload, or nothing once the sentinel
/// has been given.
pub open spec fn pull_output(v: EventStreamView) -> Option<Seq<char>> {
    if v.pulled <= v.count {
        Some(event_payload(v.count, v.pulled))
    } else {
        None
    }
}

/// The state after one pull.
pub open spec fn pull_state(v: EventStreamView) -> EventStreamView {
    advance(v, 1)
}

/// The outputs of `k` pulls in a row.
pub open spec fn pulls(v: EventStreamView, k: nat) -> Seq<Option<Seq<char>>>
    decreases k,
{
    if k == 0 {
        Seq::empty()
    } else {
        pulls(v, (k - 1) as nat).push(pull_output(advance(v, (k - 1) as nat)))
    }
}

/// The text of an optional string.
pub open spec fn payload_of(r: Option<String>) -> Option<Seq<char>> {
    match r {
        Some(s) => Some(s@),
        None => None,
    }
}

/// One stream's state, owned by that stream alone.
pub struct EventStream {
    count: u64,
    position: u64,
    finished: bool,
}

impl View for EventStream {
    type V = EventStreamView;

    closed spec fn view(&self) -> EventStreamView {
        EventStreamView {
            count: self.count as nat,
            pulled: if self.finished {
                self.position as nat + 1
            } else {
                self.position as nat
            },
        }
    }
}

impl EventStream {
    #[verifier::type_invariant]
    spec fn well_formed(&self) -> bool {
        &&& self.position <= self.count
        &&& self.finished ==> self.position == self.count
    }

    /// A fresh stream of `count`, positioned at 0.
    pub fn start(count: u64) -> (r: EventStream)
        ensures
            r@ == (EventStreamView { count: count as nat, pulled: 0 }),
    {
        EventStream { count, position: 0, finished: false }
    }

    /// A fresh stream for `request`.
    pub fn from_request(request: &StreamRequest) -> (r: EventStream)
        ensures
            r@ == (EventStreamView { count: request.count as nat, pulled: 0 }),
    {
        EventStream::start(request.count)
    }

    pub fn count(&self) -> (r: u64)
        ensures
            r as nat == self@.count,
    {
        self.count
    }

    /// Whether the sentinel has been given.
    pub fn is_exhausted(&self) -> (r: bool)
        ensures
            r == (self@.pulled > self@.count),
    {
        proof {
            use_type_invariant(self);
        }
        self.finished
    }

    /// Pulls the next event: the decimal text of the position while it is
    /// below the count, then the sentinel once, then nothing.
    pub fn next_event(&mut self) -> (r: Option<String>)
        ensures
            final(self)@ == pull_state(old(self)@),
            payload_of(r) == pull_output(old(self)@),
    {
        proof {
            use_type_invariant(&*self);
        }
        if self.finished {
            None
        } else if self.position < self.count {
            let s = decimal_string(self.position);
            self.position = self.position + 1;
            Some(s)
        } else {
            self.finished = true;
            proof {
                reveal_strlit("[DONE]");
            }
            let s = String::from_str("[DONE]");
            assert(s@ =~= done_text());
            Some(s)
        }
    }
}

/// Runs a stream of `count` to its end and gathers its payloads.
pub fn collect_events(count: u64) -> (r: Vec<String>)
    ensures
        r@.len() == count + 1,
        forall|i: int| 0 <= i <= count ==> #[trigger] r@[i]@ == stream_events(count as nat)[i],
{
    let mut stream = EventStream::start(count);
    let mut out: Vec<String> = Vec::new();
    loop
        invariant
            stream@.count == count,
            stream@.pulled == out@.len(),
            out@.len() <= count + 1,
            forall|i: int| 0 <= i < out@.len() ==> #[trigger] out@[i]@ == stream_events(count as nat)[i],
        decreases count + 1 - out@.len(),
    {
        match stream.next_event() {
            Some(s) => {
                out.push(s);
            },
            None => {
                return out;
            },
        }
    }
}

/// How many entries of a pull schedule go to `side`.
pub open spec fn count_picks(schedule: Seq<bool>, side: bool) -> nat
    decreases schedule.len(),
{
    if schedule.len() == 0 {
        0
    } else {
        count_picks(schedule.drop_last(), side) + if schedule.last() == side {
            1nat
        } else {
            0nat
        }
    }
}

/// Two streams pulled in the order that `schedule` gives (`true` pulls the
/// first, `false` the second): their final states and what each yielded.
pub open spec fn run_pair(
    a: EventStreamView,
    b: EventStreamView,
    schedule: Seq<bool>,
) -> (EventStreamView, EventStreamView, Seq<Option<Seq<char>>>, Seq<Option<Seq<char>>>)
    decreases schedule.len(),
{
    if schedule.len() == 0 {
        (a, b, Seq::empty(), Seq::empty())
    } else {
        let prev = run_pair(a, b, schedule.drop_last());
        if schedule.last() {
            (pull_state(prev.0), prev.1, prev.2.push(pull_output(prev.0)), prev.3)
        } else {
            (prev.0, pull_state(prev.1), prev.2, prev.3.push(pull_output(prev.1)))
        }
    }
}

/// The `i`-th of `k` pulls in a row yields what the stream holds after `i`
/// pulls.
pub proof fn lemma_pulls_index(v: EventStreamView, k: nat)
    ensures
        pulls(v, k).len() == k,
        forall|i: int| 0 <= i < k ==> #[trigger] pulls(v, k)[i] == pull_output(advance(v, i as nat)),
    decreases k,
{
    if k > 0 {
        lemma_pulls_index(v, (k - 1) as nat);
    }
}

/// A stream of `count` pulled `k` times yields the decimal texts of
/// `0, 1, ..., count - 1`, then the sentinel, then nothing: exactly
/// `count + 1` events, in increasing order.
pub proof fn lemma_stream_yields_all(count: nat, k: nat)
    ensures
        stream_events(count).len() == count + 1,
        forall|i: int| 0 <= i < count ==> #[trigger] stream_events(count)[i] == decimal_text(i as nat),
        stream_events(count)[count as int] == done_text(),
        pulls(EventStreamView { count, pulled: 0 }, k).len() == k,
        forall|i: int|
            0 <= i < k ==> #[trigger] pulls(EventStreamView { count, pulled: 0 }, k)[i] == (if i
                <= count {
                Some(stream_events(count)[i])
            } else {
                None
            }),
{
    let v = EventStreamView { count, pulled: 0 };
    lemma_pulls_index(v, k);
    assert forall|i: int| 0 <= i < k implies #[trigger] pulls(v, k)[i] == (if i <= count {
        Some(stream_events(count)[i])
    } else {
        None
    }) by {
        assert(pulls(v, k)[i] == pull_output(advance(v, i as nat)));
    }
}

/// Pulling two streams in any interleaving gives each stream exactly what
/// it would give if pulled alone as often: neither observes nor changes the
/// other's position.
pub proof fn lemma_streams_independent(a: EventStreamView, b: EventStreamView, schedule: Seq<bool>)
    ensures
        run_pair(a, b, schedule) == (
            advance(a, count_picks(schedule, true)),
            advance(b, count_picks(schedule, false)),
            pulls(a, count_picks(schedule, true)),
            pulls(b, count_picks(schedule, false)),
        ),
    decreases schedule.len(),
{
    if schedule.len() > 0 {
        lemma_streams_independent(a, b, schedule.drop_last());
    }
}

} // verus!
