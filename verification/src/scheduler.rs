//! The scaling scheduler: the registry of the loops of a run and the clock
//! of its ramp.
//!
//! The scheduler begins with a fleet of writers and readers and then only
//! ever adds to it, one loop per tick of a timer. It decides which loops
//! exist, when a new one is due and what each is bound to. Running the loops
//! and waiting for the next deadline is the caller's part: the caller runs
//! every loop of the registry at startup, then sleeps until
//! `next_deadline`, calls `advance_to` and runs what that returns, for as
//! long as the process lives.

use crate::engine::Task;
use crate::fleet::{
    lemma_after_all_concat, lemma_after_well_formed, lemma_count_total,
    lemma_initial_well_formed, Fleet,
};
use crate::timeline::{
    is_tick_instant, lemma_ticks_between_first, lemma_ticks_between_quiet,
    lemma_ticks_between_split, next_instant, ticks_at, ticks_between, Tick,
    READER_INTERVAL_SECS, WRITER_INTERVAL_SECS,
};
use vstd::arithmetic::div_mod::{
    lemma_fundamental_div_mod, lemma_mod_bound, lemma_mod_multiples_vanish, lemma_mod_self_0,
    lemma_small_mod,
};
use vstd::prelude::*;

verus! {

/// Counting up by one modulo `modulus`.
proof fn lemma_mod_successor(count: nat, modulus: nat)
    requires
        modulus > 0,
    ensures
        (count + 1) % modulus == if count % modulus + 1 == modulus {
            0
        } else {
            count % modulus + 1
        },
{
    let m = modulus as int;
    let quotient = count as int / m;
    let rest = count as int % m;
    lemma_fundamental_div_mod(count as int, m);
    lemma_mod_bound(count as int, m);
    lemma_mod_multiples_vanish(quotient, rest + 1, m);
    if rest + 1 == m {
        lemma_mod_self_0(m);
    } else {
        lemma_small_mod((rest + 1) as nat, modulus);
    }
}

/// The first instant after `clock` and no later than `now_secs` at which a
/// timer fires.
fn next_due(clock: u64, now_secs: u64) -> (due: Option<u64>)
    ensures
        match due {
            Some(next) => {
                &&& clock < next <= now_secs
                &&& is_tick_instant(next as nat)
                &&& forall|second: nat| clock < second < next ==> !is_tick_instant(second)
            },
            None => forall|second: nat| clock < second <= now_secs ==> !is_tick_instant(second),
        },
{
    match next_instant(clock) {
        Some(next) => if next <= now_secs {
            Some(next)
        } else {
            None
        },
        None => None,
    }
}

/// The scheduler: the registry of the loops started so far, in order, the
/// position of the round robin, and the clock of the ramp.
#[derive(Debug)]
pub struct Scheduler {
    followers: usize,
    payload_size: usize,
    tasks: Vec<Task>,
    writers: usize,
    readers: usize,
    cursor: usize,
    clock: u64,
}

impl View for Scheduler {
    type V = Fleet;

    closed spec fn view(&self) -> Fleet {
        Fleet { followers: self.followers, payload_size: self.payload_size, tasks: self.tasks@ }
    }
}

impl Scheduler {
    /// The registry is a well-formed fleet and the scheduler's counters
    /// agree with it.
    pub closed spec fn wf(&self) -> bool {
        &&& self@.well_formed()
        &&& self.writers == self@.writers()
        &&& self.readers == self@.readers()
        &&& self.followers > 0 ==> self.cursor == self@.readers() % (self.followers as nat)
    }

    /// The time of the ramp that the scheduler has accounted for, in seconds
    /// since startup.
    pub closed spec fn clock(&self) -> nat {
        self.clock as nat
    }

    /// The scheduler at startup. Its registry holds `writers` writers bound
    /// to the leader, each with payloads of `payload_size` bytes, then
    /// `readers` readers, reader `i` bound to follower `i % followers`. With
    /// no follower there is nothing to bind a reader to, and the registry
    /// holds no reader. The clock stands at zero.
    pub fn start(writers: usize, readers: usize, payload_size: usize, followers: usize) -> (scheduler:
        Scheduler)
        ensures
            scheduler.wf(),
            scheduler@ == Fleet::initial(writers, readers, payload_size, followers),
            scheduler@.well_formed(),
            scheduler.clock() == 0,
    {
        let mut tasks: Vec<Task> = Vec::new();
        let mut i: usize = 0;
        while i < writers
            invariant
                i <= writers,
                tasks@.len() == i,
                forall|j: int| 0 <= j < i ==> tasks@[j] == (Task::Writer { payload_size }),
            decreases writers - i,
        {
            tasks.push(Task::Writer { payload_size });
            i = i + 1;
        }
        let mut started: usize = 0;
        let mut cursor: usize = 0;
        if followers > 0 {
            while started < readers
                invariant
                    followers > 0,
                    started <= readers,
                    cursor == started as nat % followers as nat,
                    tasks@.len() == writers + started,
                    forall|j: int| 0 <= j < writers ==> tasks@[j] == (Task::Writer { payload_size }),
                    forall|j: int|
                        writers <= j < writers + started ==> tasks@[j] == (Task::Reader {
                            follower: ((j - writers) % (followers as int)) as usize,
                        }),
                decreases readers - started,
            {
                tasks.push(Task::Reader { follower: cursor });
                proof {
                    lemma_mod_successor(started as nat, followers as nat);
                }
                started = started + 1;
                cursor = if cursor + 1 == followers {
                    0
                } else {
                    cursor + 1
                };
            }
        }
        proof {
            lemma_initial_well_formed(writers, readers, payload_size, followers);
            assert(tasks@ =~= Fleet::initial(writers, readers, payload_size, followers).tasks);
        }
        Scheduler { followers, payload_size, tasks, writers, readers: started, cursor, clock: 0 }
    }

    /// Handles one tick of a timer. A writer tick starts one more writer. A
    /// reader tick starts one more reader, bound to the follower that comes
    /// next in the round robin, which goes on from where the fleet stands and
    /// never starts over. The new loop is entered in the registry and
    /// returned, for the caller to run. A reader tick in a fleet without
    /// followers starts nothing and returns `None`.
    pub fn on_tick(&mut self, tick: Tick) -> (spawned: Option<Task>)
        requires
            old(self).wf(),
        ensures
            final(self).wf(),
            final(self)@ == old(self)@.after(tick),
            final(self)@.well_formed(),
            final(self).clock() == old(self).clock(),
            spawned == old(self)@.spawned(tick),
    {
        proof {
            lemma_after_well_formed(self@, tick);
            lemma_count_total(self@.after(tick).tasks);
        }
        match tick {
            Tick::Writer => {
                let task = Task::Writer { payload_size: self.payload_size };
                self.tasks.push(task);
                assert(self.writers < self.tasks.len() == self.tasks@.len());
                self.writers = self.writers + 1;
                Some(task)
            },
            Tick::Reader => {
                if self.followers == 0 {
                    return None;
                }
                let task = Task::Reader { follower: self.cursor };
                self.tasks.push(task);
                assert(self.readers < self.tasks.len() == self.tasks@.len());
                proof {
                    lemma_mod_successor(self.readers as nat, self.followers as nat);
                }
                self.readers = self.readers + 1;
                self.cursor = if self.cursor + 1 == self.followers {
                    0
                } else {
                    self.cursor + 1
                };
                Some(task)
            },
        }
    }

    /// The next instant at which a timer fires, in seconds since startup, or
    /// `None` where the clock ends before one does.
    pub fn next_deadline(&self) -> (deadline: Option<u64>)
        ensures
            match deadline {
                Some(next) => {
                    &&& self.clock() < next
                    &&& is_tick_instant(next as nat)
                    &&& forall|second: nat|
                        self.clock() < second < next ==> !is_tick_instant(second)
                },
                None => forall|second: nat|
                    self.clock() < second <= u64::MAX ==> !is_tick_instant(second),
            },
    {
        next_instant(self.clock)
    }

    /// Moves the clock to `now_secs` seconds since startup and handles every
    /// tick that has come due on the way, in the order in which the timers
    /// fire. The loops that the ticks start are entered in the registry and
    /// returned in that order, for the caller to run. A time that the clock
    /// has passed already changes nothing.
    pub fn advance_to(&mut self, now_secs: u64) -> (spawned: Vec<Task>)
        requires
            old(self).wf(),
        ensures
            final(self).wf(),
            final(self).clock() == if old(self).clock() < now_secs {
                now_secs as nat
            } else {
                old(self).clock()
            },
            final(self)@ == old(self)@.after_all(
                ticks_between(old(self).clock(), now_secs as nat),
            ),
            final(self)@.well_formed(),
            final(self)@.tasks.len() >= old(self)@.tasks.len(),
            spawned@ == final(self)@.tasks.skip(old(self)@.tasks.len() as int),
    {
        let ghost before = self@;
        let ghost since = self.clock();
        let mut spawned: Vec<Task> = Vec::new();
        let mut due = next_due(self.clock, now_secs);
        proof {
            reveal_with_fuel(Fleet::after_all, 1);
        }
        while due.is_some()
            invariant
                self.wf(),
                since <= self.clock(),
                self.clock() <= now_secs || self.clock() == since,
                self@ == before.after_all(ticks_between(since, self.clock())),
                self@.tasks.len() >= before.tasks.len(),
                spawned@ == self@.tasks.skip(before.tasks.len() as int),
                match due {
                    Some(next) => {
                        &&& self.clock() < next <= now_secs
                        &&& is_tick_instant(next as nat)
                        &&& forall|second: nat|
                            self.clock() < second < next ==> !is_tick_instant(second)
                    },
                    None => forall|second: nat|
                        self.clock() < second <= now_secs ==> !is_tick_instant(second),
                },
            decreases
                    if due is Some {
                        now_secs - self.clock
                    } else {
                        0
                    },
        {
            let at = due.unwrap();
            let ghost reached = self@;
            let ghost was = self.clock();
            if at % WRITER_INTERVAL_SECS == 0 {
                if let Some(task) = self.on_tick(Tick::Writer) {
                    spawned.push(task);
                }
            }
            if at % READER_INTERVAL_SECS == 0 {
                if let Some(task) = self.on_tick(Tick::Reader) {
                    spawned.push(task);
                }
            }
            self.clock = at;
            proof {
                let ticks = ticks_at(at as nat);
                reveal_with_fuel(Fleet::after_all, 3);
                assert(self@ == reached.after_all(ticks));
                lemma_ticks_between_first(was, at as nat);
                lemma_ticks_between_split(since, was, at as nat);
                lemma_after_all_concat(before, ticks_between(since, was), ticks);
            }
            due = next_due(self.clock, now_secs);
        }
        proof {
            lemma_ticks_between_quiet(self.clock(), now_secs as nat);
            if self.clock() < now_secs {
                lemma_ticks_between_split(since, self.clock(), now_secs as nat);
            }
        }
        if self.clock < now_secs {
            self.clock = now_secs;
        }
        spawned
    }

    /// Seconds since startup that the clock stands at.
    pub fn elapsed_secs(&self) -> (secs: u64)
        ensures
            secs == self.clock(),
    {
        self.clock
    }

    /// The registry: every loop started so far, oldest first.
    pub fn tasks(&self) -> (tasks: &Vec<Task>)
        ensures
            tasks@ == self@.tasks,
    {
        &self.tasks
    }

    /// Number of writers started so far.
    pub fn active_writers(&self) -> (count: usize)
        requires
            self.wf(),
        ensures
            count == self@.writers(),
    {
        self.writers
    }

    /// Number of readers started so far.
    pub fn active_readers(&self) -> (count: usize)
        requires
            self.wf(),
        ensures
            count == self@.readers(),
    {
        self.readers
    }

    /// Number of followers that readers are dealt to.
    pub fn followers(&self) -> (count: usize)
        ensures
            count == self@.followers,
    {
        self.followers
    }

    /// Size in bytes of the payload of every write.
    pub fn payload_size(&self) -> (size: usize)
        ensures
            size == self@.payload_size,
    {
        self.payload_size
    }
}

} // verus!
