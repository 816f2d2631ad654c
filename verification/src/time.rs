//! How long things take, in milliseconds.

use vstd::prelude::*;

verus! {

/// How long to go without any signaling traffic before treating the websocket
/// as dead. The server echoes our pings, so a healthy idle connection reads at
/// least every `PING_INTERVAL`.
pub const READ_TIMEOUT: u64 = 30_000;

/// How often to ping.
pub const PING_INTERVAL: u64 = 15_000;

/// The first pause between two attempts at a transparent reconnect.
pub const MIN_RECONNECT_BACKOFF: u64 = 500;

/// The longest such pause.
pub const MAX_RECONNECT_BACKOFF: u64 = 8_000;

/// The pause that follows a pause: twice as long, up to the longest.
pub open spec fn backoff_after(backoff: u64) -> u64 {
    if 2 * backoff <= MAX_RECONNECT_BACKOFF {
        (2 * backoff) as u64
    } else {
        MAX_RECONNECT_BACKOFF
    }
}

/// The pause that follows a pause.
pub fn next_backoff(backoff: u64) -> (r: u64)
    ensures
        r == backoff_after(backoff),
{
    if backoff <= MAX_RECONNECT_BACKOFF / 2 {
        backoff * 2
    } else {
        MAX_RECONNECT_BACKOFF
    }
}

/// How much longer to wait for traffic, at `now`, after traffic was last there
/// at `heard_at`.
pub open spec fn patience(heard_at: u64, now: u64) -> u64 {
    if now <= heard_at {
        READ_TIMEOUT
    } else if now - heard_at >= READ_TIMEOUT {
        0
    } else {
        (READ_TIMEOUT - (now - heard_at)) as u64
    }
}

/// How much longer to wait for traffic, at `now`, after traffic was last there
/// at `heard_at`.
pub fn read_timeout(heard_at: u64, now: u64) -> (r: u64)
    ensures
        r == patience(heard_at, now),
{
    if now <= heard_at {
        READ_TIMEOUT
    } else if now - heard_at >= READ_TIMEOUT {
        0
    } else {
        READ_TIMEOUT - (now - heard_at)
    }
}

/// A pause is followed by one twice as long or by the longest, whichever is
/// shorter.
pub proof fn law_pauses_grow(backoff: u64)
    ensures
        backoff_after(backoff) <= 2 * backoff,
        backoff_after(backoff) <= MAX_RECONNECT_BACKOFF,
        backoff_after(backoff) == 2 * backoff || backoff_after(backoff) == MAX_RECONNECT_BACKOFF,
{
}

/// Waiting for as long as is left ends `READ_TIMEOUT` after traffic was last
/// there, unless that is past already; and nobody waits longer than that.
pub proof fn law_patience_ends_when_it_should(heard_at: u64, now: u64)
    ensures
        patience(heard_at, now) <= READ_TIMEOUT,
        heard_at <= now <= heard_at + READ_TIMEOUT ==> now + patience(heard_at, now) == heard_at
            + READ_TIMEOUT,
        now > heard_at + READ_TIMEOUT ==> patience(heard_at, now) == 0,
        now < heard_at ==> patience(heard_at, now) == READ_TIMEOUT,
{
}

}
