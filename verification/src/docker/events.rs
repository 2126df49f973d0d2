//! Decisions of the Docker event watcher: what a container event means and
//! how long to wait before reconnecting the event stream.
use vstd::prelude::*;
use crate::text::str_eq;
use crate::writer::retry::pow4;

verus! {

/// What a Docker container event asks of the service.
#[derive(Debug, PartialEq, Eq)]
pub enum ContainerEvent {
    /// The container started: build its spec and upsert it.
    Started { id: String },
    /// The container died or was destroyed: remove its host.
    Stopped { id: String },
    /// Nothing to do.
    Ignored,
}

/// The meaning of an event with actor id `id` and action `action`.
pub open spec fn event_meaning(id: Option<Seq<char>>, action: Option<Seq<char>>) -> Option<(bool, Seq<char>)> {
    match id {
        None => None,
        Some(i) => if i.len() == 0 {
            None
        } else {
            match action {
                Some(a) => if a == "start"@ {
                    Some((true, i))
                } else if a == "die"@ || a == "destroy"@ {
                    Some((false, i))
                } else {
                    None
                },
                None => None,
            }
        },
    }
}

/// Classifies a container event: `start` starts, `die` and `destroy` stop;
/// events without an actor id are ignored.
pub fn classify_event(id: Option<String>, action: Option<&str>) -> (r: ContainerEvent)
    ensures
        match event_meaning(
            match id { Some(i) => Some(i@), None => None::<Seq<char>> },
            match action { Some(a) => Some(a@), None => None::<Seq<char>> },
        ) {
            Some((true, i)) => r matches ContainerEvent::Started { id: r_id } && r_id@ == i,
            Some((false, i)) => r matches ContainerEvent::Stopped { id: r_id } && r_id@ == i,
            None => r is Ignored,
        },
{
    let id = match id {
        Some(i) => i,
        None => return ContainerEvent::Ignored,
    };
    if id.as_str().unicode_len() == 0 {
        return ContainerEvent::Ignored;
    }
    let action = match action {
        Some(a) => a,
        None => return ContainerEvent::Ignored,
    };
    if str_eq(action, "start") {
        ContainerEvent::Started { id }
    } else if str_eq(action, "die") || str_eq(action, "destroy") {
        ContainerEvent::Stopped { id }
    } else {
        ContainerEvent::Ignored
    }
}

/// The first wait before reconnecting, in seconds.
pub const INITIAL_RECONNECT_SECS: u64 = 1;

/// The longest wait before reconnecting, in seconds.
pub const MAX_RECONNECT_SECS: u64 = 60;

/// The wait after `current`: four times longer, at most `MAX_RECONNECT_SECS`.
pub open spec fn next_wait(current: u64) -> u64 {
    if current * 4 < MAX_RECONNECT_SECS {
        (current * 4) as u64
    } else {
        MAX_RECONNECT_SECS
    }
}

/// The wait before reconnection number `k + 1` after `k + 1` failures in a
/// row: the first wait, grown `k` times.
pub open spec fn wait_after(k: nat) -> u64
    decreases k,
{
    if k == 0 {
        INITIAL_RECONNECT_SECS
    } else {
        next_wait(wait_after((k - 1) as nat))
    }
}

/// The waits between reconnections run 1, 4, 16, 60, 60, ... seconds: the
/// `k`-th (from 0) is `min(4^k, 60)`.
pub proof fn lemma_reconnect_waits(k: nat)
    ensures
        wait_after(k) == if pow4(k) < MAX_RECONNECT_SECS { pow4(k) } else { MAX_RECONNECT_SECS as nat },
    decreases k,
{
    if k > 0 {
        lemma_reconnect_waits((k - 1) as nat);
        assert(pow4(k) == 4 * pow4((k - 1) as nat));
    }
}

/// The wait after another failed reconnection: four times longer, at most a
/// minute.
pub fn next_reconnect_secs(current: u64) -> (r: u64)
    ensures
        r == next_wait(current),
{
    if current >= MAX_RECONNECT_SECS {
        MAX_RECONNECT_SECS
    } else if current * 4 < MAX_RECONNECT_SECS {
        current * 4
    } else {
        MAX_RECONNECT_SECS
    }
}

/// A `start` event of a container with an id starts it; `die` and `destroy`
/// stop it; other actions, and events without an id, mean nothing.
pub proof fn lemma_event_meanings(id: Seq<char>, action: Seq<char>)
    ensures
        id.len() > 0 && action == "start"@ ==> event_meaning(Some(id), Some(action)) == Some((true, id)),
        id.len() > 0 && (action == "die"@ || action == "destroy"@) ==> event_meaning(Some(id), Some(action)) == Some(
            (false, id),
        ),
        action != "start"@ && action != "die"@ && action != "destroy"@ ==> event_meaning(Some(id), Some(action)) is None,
        id.len() == 0 ==> event_meaning(Some(id), Some(action)) is None,
        event_meaning(None, Some(action)) is None,
        event_meaning(Some(id), None) is None,
{
    reveal_strlit("start");
    reveal_strlit("die");
    reveal_strlit("destroy");
    assert("die"@ != "start"@) by {
        assert("die"@.len() != "start"@.len());
    }
    assert("destroy"@ != "start"@) by {
        assert("destroy"@.len() != "start"@.len());
    }
}

} // verus!
