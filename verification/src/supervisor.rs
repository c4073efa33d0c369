//! The supervisor: heartbeat, pause flag, and what each turn of the poll loop does.
//!
//! There is no socket and no server. The supervisor's whole job is to poll the store,
//! spawn step scripts and block on them, so aliveness is a row in `meta` rather than a
//! connection you can dial.

use crate::db::event::{empty_payload, names, with, EventModel, Field, FieldModel, NewEvent};
use crate::error::{Error, ErrorModel};
use crate::text::{cat3, int_text, integer};
use vstd::prelude::*;

verus! {

/// Default poll interval, in milliseconds. Task creation is picked up on the next tick,
/// which is why this is the number: fast enough that it does not feel deferred.
pub const DEFAULT_POLL: u64 = 200;

/// A heartbeat older than this many seconds means the supervisor is wedged, not merely
/// busy.
pub const STALE_AFTER: i64 = 5;

/// Written at most once a second, so a status check never has to guess.
#[derive(Debug, Clone, Copy, PartialEq, Eq, Structural)]
pub struct Heartbeat {
    pub pid: i32,
    /// When this supervisor started.
    pub started: i64,
    /// When it last said anything.
    pub beat: i64,
}

/// What `shep status` reports. Correct with the supervisor up, shut down cleanly, or
/// killed outright.
#[derive(Debug, Clone, Copy, PartialEq, Eq, Structural)]
pub enum Health {
    /// No heartbeat row: never started, or stopped cleanly.
    Down,
    /// Beating, and the process is there.
    Running { heartbeat: Heartbeat, age: i64 },
    /// The process is there but has stopped beating.
    Stalled { heartbeat: Heartbeat, age: i64 },
    /// A heartbeat row left behind by a process that no longer exists.
    Dead { heartbeat: Heartbeat, age: i64 },
}

impl Health {
    pub open spec fn word(self) -> Seq<char> {
        match self {
            Health::Down => "down"@,
            Health::Running { .. } => "running"@,
            Health::Stalled { .. } => "stalled"@,
            Health::Dead { .. } => "dead"@,
        }
    }

    pub fn label(&self) -> (r: &'static str)
        ensures
            r@ == self.word(),
    {
        match self {
            Health::Down => "down",
            Health::Running { .. } => "running",
            Health::Stalled { .. } => "stalled",
            Health::Dead { .. } => "dead",
        }
    }

    pub fn heartbeat(&self) -> (r: Option<Heartbeat>)
        ensures
            r == (match *self {
                Health::Down => None,
                Health::Running { heartbeat, .. } => Some(heartbeat),
                Health::Stalled { heartbeat, .. } => Some(heartbeat),
                Health::Dead { heartbeat, .. } => Some(heartbeat),
            }),
    {
        match *self {
            Health::Down => None,
            Health::Running { heartbeat, .. } => Some(heartbeat),
            Health::Stalled { heartbeat, .. } => Some(heartbeat),
            Health::Dead { heartbeat, .. } => Some(heartbeat),
        }
    }

    /// True only when something is actually driving the store forward.
    pub fn is_healthy(&self) -> (r: bool)
        ensures
            r == (*self is Running),
    {
        match self {
            Health::Running { .. } => true,
            _ => false,
        }
    }
}

/// How old a heartbeat is. One from the future (clock skew) is not of negative age.
pub open spec fn age_at(heartbeat: Heartbeat, now: i64) -> int {
    if now > heartbeat.beat {
        now - heartbeat.beat
    } else {
        0
    }
}

/// The health that a heartbeat says, with its process there or not.
pub open spec fn health_of(heartbeat: Option<Heartbeat>, alive: bool, now: i64) -> Health {
    match heartbeat {
        None => Health::Down,
        Some(heartbeat) => {
            let age = age_at(heartbeat, now) as i64;
            if !alive {
                Health::Dead { heartbeat, age }
            } else if age > STALE_AFTER {
                Health::Stalled { heartbeat, age }
            } else {
                Health::Running { heartbeat, age }
            }
        },
    }
}

/// The health at a time. `alive` is whether the heartbeat's process is there.
pub fn health_at(heartbeat: Option<Heartbeat>, alive: bool, now: i64) -> (r: Health)
    requires
        heartbeat is Some ==> now - heartbeat->0.beat <= i64::MAX,
    ensures
        r == health_of(heartbeat, alive, now),
{
    match heartbeat {
        None => Health::Down,
        Some(heartbeat) => {
            let age: i64 = if now > heartbeat.beat {
                now - heartbeat.beat
            } else {
                0
            };
            if !alive {
                Health::Dead { heartbeat, age }
            } else if age > STALE_AFTER {
                Health::Stalled { heartbeat, age }
            } else {
                Health::Running { heartbeat, age }
            }
        },
    }
}

/// Is a pid a live process, by what sending it nothing came to? It succeeds, or is refused
/// because the process exists but belongs to someone else. No process has a pid below one.
pub fn pid_alive(pid: i32, sent: bool, refused: bool) -> (r: bool)
    ensures
        r == (pid > 0 && (sent || refused)),
{
    pid > 0 && (sent || refused)
}

/// The heartbeat to write.
pub fn beat(pid: i32, started: i64, now: i64) -> (r: Heartbeat)
    ensures
        r == (Heartbeat { pid, started, beat: now }),
{
    Heartbeat { pid, started, beat: now }
}

/// A supervisor that has just beaten is running for as long as its process is there and
/// the beat is not stale; one whose row is gone is down.
pub proof fn a_fresh_beat_is_healthy(pid: i32, started: i64, beaten: i64, now: i64)
    requires
        now <= beaten + STALE_AFTER,
    ensures
        health_of(Some(Heartbeat { pid, started, beat: beaten }), true, now) is Running,
        health_of(Some(Heartbeat { pid, started, beat: beaten }), false, now) is Dead,
        health_of(None, true, now) is Down,
{
}

/// What one tick saw.
#[derive(Debug, Clone, Copy, PartialEq, Eq, Structural)]
pub struct Tick {
    pub paused: bool,
    pub queued: usize,
    pub running: usize,
}

/// One pass over the store: while it is paused, nothing is looked at.
pub fn tick(paused: bool, queued: usize, running: usize) -> (r: Tick)
    ensures
        r == (if paused {
            Tick { paused: true, queued: 0, running: 0 }
        } else {
            Tick { paused: false, queued, running }
        }),
{
    if paused {
        return Tick { paused: true, queued: 0, running: 0 };
    }
    Tick { paused: false, queued, running }
}

/// Refuse to start a second supervisor over the same store: two of them would both be
/// advancing the same tasks. A heartbeat left behind by a dead one is in nobody's way.
pub fn ensure_sole(health: &Health) -> (r: Result<(), Error>)
    ensures
        match *health {
            Health::Running { heartbeat, .. } => r matches Err(e) && e@ == already_running(
                heartbeat.pid,
            ),
            Health::Stalled { heartbeat, .. } => r matches Err(e) && e@ == already_running(
                heartbeat.pid,
            ),
            _ => r is Ok,
        },
{
    match *health {
        Health::Running { heartbeat, .. } => Err(sole(heartbeat.pid)),
        Health::Stalled { heartbeat, .. } => Err(sole(heartbeat.pid)),
        _ => Ok(()),
    }
}

pub open spec fn already_running(pid: i32) -> ErrorModel {
    ErrorModel::Other(
        "a supervisor is already running as pid "@ + int_text(pid as int) + " — stop it first"@,
    )
}

fn sole(pid: i32) -> (r: Error)
    ensures
        r@ == already_running(pid),
{
    Error::Other(
        cat3("a supervisor is already running as pid ", &integer(pid as i64), " — stop it first"),
    )
}

/// Where the poll loop has got to.
#[derive(Debug)]
pub struct Loop {
    pub ticks: u64,
    pub last_beat: i64,
    pub last_report: Tick,
}

/// What one turn of the loop asks for.
#[derive(Debug)]
pub struct Turn {
    /// Say what was seen. Only when something changed, so the log stays readable.
    pub report: bool,
    /// Write a heartbeat.
    pub beat: bool,
    /// Stop: the number of ticks asked for is reached.
    pub stop: bool,
}

impl Loop {
    /// The loop of a supervisor that has just started, and beaten.
    pub fn new(started: i64) -> (r: Loop)
        ensures
            r.ticks == 0,
            r.last_beat == started,
            r.last_report == (Tick { paused: false, queued: 0, running: 0 }),
    {
        Loop {
            ticks: 0,
            last_beat: started,
            last_report: Tick { paused: false, queued: 0, running: 0 },
        }
    }

    /// One turn: what was seen, and at what time. A heartbeat is due once a second at
    /// most.
    pub fn turn(&mut self, observed: Tick, now: i64, max_ticks: Option<u64>) -> (r: Turn)
        requires
            old(self).ticks < u64::MAX,
        ensures
            final(self).ticks == old(self).ticks + 1,
            final(self).last_report == observed,
            final(self).last_beat == (if now > old(self).last_beat {
                now
            } else {
                old(self).last_beat
            }),
            r.report == (observed != old(self).last_report),
            r.beat == (now > old(self).last_beat),
            r.stop == (max_ticks is Some && old(self).ticks + 1 >= max_ticks->0),
    {
        self.ticks = self.ticks + 1;
        let report: bool = observed != self.last_report;
        if report {
            self.last_report = observed;
        }
        let due: bool = now > self.last_beat;
        if due {
            self.last_beat = now;
        }
        let stop: bool = match max_ticks {
            Some(max) => self.ticks >= max,
            None => false,
        };
        Turn { report, beat: due, stop }
    }
}

/// The record that a supervisor started.
pub fn started_event(pid: i64, poll_ms: i64) -> (r: NewEvent)
    ensures
        r@ == EventModel::of(names::SUPERVISOR_STARTED@).saying(
            seq![
                ("pid"@, FieldModel::Number(Some(pid))),
                ("poll_ms"@, FieldModel::Number(Some(poll_ms))),
            ],
        ),
{
    let p = with(empty_payload(), "pid", Field::Number(Some(pid)));
    let p = with(p, "poll_ms", Field::Number(Some(poll_ms)));
    assert(p.deep_view() =~= seq![
        ("pid"@, FieldModel::Number(Some(pid))),
        ("poll_ms"@, FieldModel::Number(Some(poll_ms))),
    ]);
    NewEvent::new(names::SUPERVISOR_STARTED).payload(p)
}

/// The record that a supervisor stopped.
pub fn stopped_event(pid: i64, ticks: i64) -> (r: NewEvent)
    ensures
        r@ == EventModel::of(names::SUPERVISOR_STOPPED@).saying(
            seq![
                ("pid"@, FieldModel::Number(Some(pid))),
                ("ticks"@, FieldModel::Number(Some(ticks))),
            ],
        ),
{
    let p = with(empty_payload(), "pid", Field::Number(Some(pid)));
    let p = with(p, "ticks", Field::Number(Some(ticks)));
    assert(p.deep_view() =~= seq![
        ("pid"@, FieldModel::Number(Some(pid))),
        ("ticks"@, FieldModel::Number(Some(ticks))),
    ]);
    NewEvent::new(names::SUPERVISOR_STOPPED).payload(p)
}

/// A supervisor is down exactly where it left no heartbeat, and dead where it left one but
/// its process is gone. With its process there it runs while its last beat is no more than
/// the limit ago, and is stalled after. A beat from the future has no age.
pub proof fn a_heartbeat_tells_the_health(heartbeat: Heartbeat, alive: bool, now: i64)
    requires
        now - heartbeat.beat <= i64::MAX,
    ensures
        health_of(None, alive, now) is Down,
        ({
            let health = health_of(Some(heartbeat), alive, now);
            let age = if now > heartbeat.beat {
                now - heartbeat.beat
            } else {
                0
            };
            &&& !alive ==> (health matches Health::Dead { heartbeat: h, age: a } && h == heartbeat
                && a == age)
            &&& alive && now - heartbeat.beat <= 5 ==> (health matches Health::Running {
                heartbeat: h,
                age: a,
            } && h == heartbeat && a == age)
            &&& alive && now - heartbeat.beat > 5 ==> (health matches Health::Stalled {
                heartbeat: h,
                age: a,
            } && h == heartbeat && a == age)
        }),
{
}

} // verus!
