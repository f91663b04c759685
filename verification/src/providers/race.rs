//! A local read and a network fetch of the same lyrics run at once. Local lyrics are
//! authoritative: a network hit is held until the local read has failed.

use vstd::prelude::*;
use crate::error::general::GeneralError;
use crate::error::{LyrixError, LyrixResult};
use crate::providers::RawLyrics;
use crate::text::push_str_chars;

verus! {

/// Which of the two reads some lyrics came from.
#[derive(Debug, Clone, Copy, PartialEq, Eq)]
pub enum RawLyricsSource {
    Local,
    Network,
}

/// One of the two reads finished, or a task could not be joined.
#[derive(Debug)]
pub enum RaceEvent {
    /// The local read ended, with the lyrics or the text of its error.
    Local(Result<RawLyrics, String>),
    /// The network fetch ended, with the lyrics or the text of its error.
    Network(Result<RawLyrics, String>),
    /// A task could not be joined; the text of that error.
    JoinFailed(String),
}

/// What to do after an event.
#[derive(Debug, Clone)]
pub enum RaceAction {
    /// Wait for the next event.
    Wait,
    /// Stop the other task and hand back these lyrics.
    Deliver(RawLyrics, RawLyricsSource),
    /// Stop waiting: both reads have ended without lyrics to hand back.
    Stop,
}

/// What is known while the two reads run.
#[derive(Debug, Clone)]
pub struct RaceState {
    pub local_finished: bool,
    /// A network hit, held while the local read has not ended.
    pub network_lyrics: Option<RawLyrics>,
    pub local_error: Option<String>,
    pub network_error: Option<String>,
    pub join_error: Option<String>,
}

/// The state before any read has ended.
pub open spec fn race_start() -> RaceState {
    RaceState {
        local_finished: false,
        network_lyrics: None,
        local_error: None,
        network_error: None,
        join_error: None,
    }
}

/// The next state and action after `e`.
pub open spec fn race_step(s: RaceState, e: RaceEvent) -> (RaceState, RaceAction) {
    match e {
        RaceEvent::Local(Ok(l)) => (s, RaceAction::Deliver(l, RawLyricsSource::Local)),
        RaceEvent::Local(Err(m)) => {
            let s1 = RaceState { local_finished: true, local_error: Some(m), ..s };
            match s.network_lyrics {
                Some(n) => (
                    RaceState { network_lyrics: None, ..s1 },
                    RaceAction::Deliver(n, RawLyricsSource::Network),
                ),
                None => if s.network_error is Some {
                    (s1, RaceAction::Stop)
                } else {
                    (s1, RaceAction::Wait)
                },
            }
        },
        RaceEvent::Network(Ok(l)) => if s.local_finished {
            (s, RaceAction::Deliver(l, RawLyricsSource::Network))
        } else {
            (RaceState { network_lyrics: Some(l), ..s }, RaceAction::Wait)
        },
        RaceEvent::Network(Err(m)) => {
            let s1 = RaceState { network_error: Some(m), ..s };
            if s.local_finished {
                (s1, RaceAction::Stop)
            } else {
                (s1, RaceAction::Wait)
            }
        },
        RaceEvent::JoinFailed(m) => (RaceState { join_error: Some(m), ..s }, RaceAction::Wait),
    }
}

/// The first action other than `Wait` that `events` lead to from `s`, if any.
pub open spec fn race_run(s: RaceState, events: Seq<RaceEvent>) -> Option<RaceAction>
    decreases events.len(),
{
    if events.len() == 0 {
        None
    } else {
        let (s1, a) = race_step(s, events[0]);
        match a {
            RaceAction::Wait => race_run(s1, events.drop_first()),
            _ => Some(a),
        }
    }
}

impl RaceState {
    /// The state before any read has ended.
    pub fn new() -> (r: RaceState)
        ensures
            r == race_start(),
    {
        RaceState {
            local_finished: false,
            network_lyrics: None,
            local_error: None,
            network_error: None,
            join_error: None,
        }
    }

    /// Takes in `e` and says what to do next; see [`race_step`].
    pub fn on_event(&mut self, e: RaceEvent) -> (a: RaceAction)
        ensures
            (*final(self), a) == race_step(*old(self), e),
    {
        match e {
            RaceEvent::Local(Ok(l)) => RaceAction::Deliver(l, RawLyricsSource::Local),
            RaceEvent::Local(Err(m)) => {
                self.local_finished = true;
                self.local_error = Some(m);
                match self.network_lyrics.take() {
                    Some(n) => RaceAction::Deliver(n, RawLyricsSource::Network),
                    None => if self.network_error.is_some() {
                        RaceAction::Stop
                    } else {
                        RaceAction::Wait
                    },
                }
            },
            RaceEvent::Network(Ok(l)) => if self.local_finished {
                RaceAction::Deliver(l, RawLyricsSource::Network)
            } else {
                self.network_lyrics = Some(l);
                RaceAction::Wait
            },
            RaceEvent::Network(Err(m)) => {
                self.network_error = Some(m);
                if self.local_finished {
                    RaceAction::Stop
                } else {
                    RaceAction::Wait
                }
            },
            RaceEvent::JoinFailed(m) => {
                self.join_error = Some(m);
                RaceAction::Wait
            },
        }
    }

    /// After the last event, or a `Stop`: the held network hit, or else the refusal for
    /// missing content that names the source and each error seen.
    pub fn finish(self, label: &str) -> (r: LyrixResult<RawLyrics>)
        ensures
            self.network_lyrics is Some ==> r == Ok::<RawLyrics, LyrixError>(
                self.network_lyrics.unwrap(),
            ),
            self.network_lyrics is None ==> (r matches Err(
                LyrixError::General(GeneralError::MissingField { field }),
            ) && field@ == race_failure_text(label@, self)),
    {
        match self.network_lyrics {
            Some(l) => Ok(l),
            None => {
                let mut field: Vec<char> = Vec::new();
                push_str_chars(&mut field, label);
                push_str_chars(&mut field, ": no lyrics content");
                let ghost t0 = field@;
                if let Some(e) = &self.local_error {
                    push_str_chars(&mut field, "; local: ");
                    push_str_chars(&mut field, e.as_str());
                }
                assert(field@ =~= t0 + error_part("; local: "@, self.local_error));
                let ghost t1 = field@;
                if let Some(e) = &self.network_error {
                    push_str_chars(&mut field, "; network: ");
                    push_str_chars(&mut field, e.as_str());
                }
                assert(field@ =~= t1 + error_part("; network: "@, self.network_error));
                let ghost t2 = field@;
                if let Some(e) = &self.join_error {
                    push_str_chars(&mut field, "; join: ");
                    push_str_chars(&mut field, e.as_str());
                }
                assert(field@ =~= t2 + error_part("; join: "@, self.join_error));
                Err(
                    LyrixError::General(
                        GeneralError::MissingField {
                            field: crate::text::string_of_chars(&field),
                        },
                    ),
                )
            },
        }
    }
}

/// `prefix` and the error, when there is one; else nothing.
pub open spec fn error_part(prefix: Seq<char>, e: Option<String>) -> Seq<char> {
    match e {
        Some(m) => prefix + m@,
        None => seq![],
    }
}

/// The text of the refusal: the source, then each error seen.
pub open spec fn race_failure_text(label: Seq<char>, s: RaceState) -> Seq<char> {
    label + ": no lyrics content"@ + error_part("; local: "@, s.local_error) + error_part(
        "; network: "@,
        s.network_error,
    ) + error_part("; join: "@, s.join_error)
}

/// Whether `e` is the end of the local read.
pub open spec fn is_local(e: RaceEvent) -> bool {
    e is Local
}

/// Whether `e` is the end of the network fetch.
pub open spec fn is_network(e: RaceEvent) -> bool {
    e is Network
}

/// While the local read has not ended, a local hit is handed back as soon as it comes, however
/// the network fetch went before it.
pub proof fn lemma_local_hit_wins(s: RaceState, events: Seq<RaceEvent>, i: int, l: RawLyrics)
    requires
        !s.local_finished,
        0 <= i < events.len(),
        events[i] == RaceEvent::Local(Ok(l)),
        forall|j: int| 0 <= j < i ==> !is_local(#[trigger] events[j]),
    ensures
        race_run(s, events) == Some(RaceAction::Deliver(l, RawLyricsSource::Local)),
    decreases i,
{
    if i > 0 {
        let e = events[0];
        assert(!is_local(events[0]));
        let (s1, a) = race_step(s, e);
        assert(a is Wait);
        assert(!s1.local_finished);
        let rest = events.drop_first();
        assert forall|j: int| 0 <= j < i - 1 implies !is_local(#[trigger] rest[j]) by {
            assert(rest[j] == events[j + 1]);
        }
        lemma_local_hit_wins(s1, rest, i - 1, l);
    }
}

/// Network lyrics are handed back only after the local read has failed: from the start, a
/// run that hands back network lyrics has met a local failure.
pub proof fn lemma_network_waits_for_local(s: RaceState, events: Seq<RaceEvent>, l: RawLyrics)
    requires
        !s.local_finished,
        race_run(s, events) == Some(RaceAction::Deliver(l, RawLyricsSource::Network)),
    ensures
        exists|i: int| 0 <= i < events.len() && #[trigger] events[i] matches RaceEvent::Local(
            Err(_),
        ),
    decreases events.len(),
{
    let e = events[0];
    if e matches RaceEvent::Local(Err(_)) {
        assert(events[0] matches RaceEvent::Local(Err(_)));
    } else {
        let (s1, a) = race_step(s, e);
        assert(a is Wait);
        let rest = events.drop_first();
        lemma_network_waits_for_local(s1, rest, l);
        let i = choose|i: int| 0 <= i < rest.len() && #[trigger] rest[i] matches RaceEvent::Local(
            Err(_),
        );
        assert(events[i + 1] == rest[i]);
    }
}

/// Once the local read has failed and no network result is held or failed, the network hit is
/// handed back when it comes.
proof fn lemma_network_after_failure(s: RaceState, events: Seq<RaceEvent>, b: int, n: RawLyrics)
    requires
        s.local_finished,
        s.network_lyrics is None,
        s.network_error is None,
        0 <= b < events.len(),
        events[b] == RaceEvent::Network(Ok(n)),
        forall|j: int| 0 <= j < events.len() ==> !is_local(#[trigger] events[j]),
        forall|j: int| 0 <= j < events.len() && j != b ==> !is_network(#[trigger] events[j]),
    ensures
        race_run(s, events) == Some(RaceAction::Deliver(n, RawLyricsSource::Network)),
    decreases events.len(),
{
    if b > 0 {
        assert(!is_local(events[0]) && !is_network(events[0]));
        let (s1, a) = race_step(s, events[0]);
        let rest = events.drop_first();
        assert forall|j: int| 0 <= j < rest.len() implies !is_local(#[trigger] rest[j]) by {
            assert(rest[j] == events[j + 1]);
        }
        assert forall|j: int| 0 <= j < rest.len() && j != b - 1 implies !is_network(
            #[trigger] rest[j],
        ) by {
            assert(rest[j] == events[j + 1]);
        }
        lemma_network_after_failure(s1, rest, b - 1, n);
    }
}

/// A held network hit is handed back when the local read fails.
proof fn lemma_held_until_failure(s: RaceState, events: Seq<RaceEvent>, a: int, n: RawLyrics)
    requires
        !s.local_finished,
        s.network_lyrics == Some(n),
        0 <= a < events.len(),
        events[a] matches RaceEvent::Local(Err(_)),
        forall|j: int| 0 <= j < events.len() ==> !is_network(#[trigger] events[j]),
        forall|j: int| 0 <= j < events.len() && j != a ==> !is_local(#[trigger] events[j]),
    ensures
        race_run(s, events) == Some(RaceAction::Deliver(n, RawLyricsSource::Network)),
    decreases events.len(),
{
    if a > 0 {
        assert(!is_local(events[0]) && !is_network(events[0]));
        let (s1, act) = race_step(s, events[0]);
        let rest = events.drop_first();
        assert forall|j: int| 0 <= j < rest.len() implies !is_network(#[trigger] rest[j]) by {
            assert(rest[j] == events[j + 1]);
        }
        assert forall|j: int| 0 <= j < rest.len() && j != a - 1 implies !is_local(
            #[trigger] rest[j],
        ) by {
            assert(rest[j] == events[j + 1]);
        }
        lemma_held_until_failure(s1, rest, a - 1, n);
    }
}

/// When the local read fails and the network fetch succeeds, in either order, the network
/// lyrics are handed back.
pub proof fn lemma_network_used_when_local_fails(
    s: RaceState,
    events: Seq<RaceEvent>,
    a: int,
    b: int,
    n: RawLyrics,
)
    requires
        !s.local_finished,
        s.network_lyrics is None,
        s.network_error is None,
        0 <= a < events.len(),
        0 <= b < events.len(),
        events[a] matches RaceEvent::Local(Err(_)),
        events[b] == RaceEvent::Network(Ok(n)),
        forall|j: int| 0 <= j < events.len() && j != a ==> !is_local(#[trigger] events[j]),
        forall|j: int| 0 <= j < events.len() && j != b ==> !is_network(#[trigger] events[j]),
    ensures
        race_run(s, events) == Some(RaceAction::Deliver(n, RawLyricsSource::Network)),
    decreases events.len(),
{
    let (s1, act) = race_step(s, events[0]);
    let rest = events.drop_first();
    if a == 0 {
        assert forall|j: int| 0 <= j < rest.len() implies !is_local(#[trigger] rest[j]) by {
            assert(rest[j] == events[j + 1]);
        }
        assert forall|j: int| 0 <= j < rest.len() && j != b - 1 implies !is_network(
            #[trigger] rest[j],
        ) by {
            assert(rest[j] == events[j + 1]);
        }
        lemma_network_after_failure(s1, rest, b - 1, n);
    } else if b == 0 {
        assert forall|j: int| 0 <= j < rest.len() implies !is_network(#[trigger] rest[j]) by {
            assert(rest[j] == events[j + 1]);
        }
        assert forall|j: int| 0 <= j < rest.len() && j != a - 1 implies !is_local(
            #[trigger] rest[j],
        ) by {
            assert(rest[j] == events[j + 1]);
        }
        lemma_held_until_failure(s1, rest, a - 1, n);
    } else {
        assert(!is_local(events[0]) && !is_network(events[0]));
        assert forall|j: int| 0 <= j < rest.len() && j != a - 1 implies !is_local(
            #[trigger] rest[j],
        ) by {
            assert(rest[j] == events[j + 1]);
        }
        assert forall|j: int| 0 <= j < rest.len() && j != b - 1 implies !is_network(
            #[trigger] rest[j],
        ) by {
            assert(rest[j] == events[j + 1]);
        }
        lemma_network_used_when_local_fails(s1, rest, a - 1, b - 1, n);
    }
}

} // verus!
