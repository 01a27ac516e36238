//! The fleet: the loops that run, in the order in which they were started.
//!
//! This is the model that the scheduler's contracts are stated over. Writers
//! all go to the leader. Readers are dealt to the followers in turn: the
//! reader with number `k`, counting every reader ever started from zero, is
//! bound to follower `k % followers`.

use crate::engine::Task;
use crate::timeline::{
    lemma_ticks_between_counts, reader_ticks, ticks_between, writer_ticks, Tick,
    READER_INTERVAL_SECS, WRITER_INTERVAL_SECS,
};
use vstd::prelude::*;

verus! {

/// Number of readers among `tasks`.
pub open spec fn readers_in(tasks: Seq<Task>) -> nat
    decreases tasks.len(),
{
    if tasks.len() == 0 {
        0
    } else {
        readers_in(tasks.drop_last()) + if tasks.last() is Reader {
            1nat
        } else {
            0nat
        }
    }
}

/// Number of writers among `tasks`.
pub open spec fn writers_in(tasks: Seq<Task>) -> nat
    decreases tasks.len(),
{
    if tasks.len() == 0 {
        0
    } else {
        writers_in(tasks.drop_last()) + if tasks.last() is Writer {
            1nat
        } else {
            0nat
        }
    }
}

/// The fleet as the scheduler's contracts see it: the loops in the order in
/// which they were started, and the settings that new loops are made from.
pub struct Fleet {
    pub followers: usize,
    pub payload_size: usize,
    pub tasks: Seq<Task>,
}

impl Fleet {
    /// The fleet at startup: `writers` writers, then `readers` readers dealt
    /// to the followers in turn. Without a follower no reader can be bound,
    /// and the fleet has writers only.
    pub open spec fn initial(
        writers: usize,
        readers: usize,
        payload_size: usize,
        followers: usize,
    ) -> Fleet {
        Fleet {
            followers,
            payload_size,
            tasks: Seq::new(
                if followers > 0 {
                    (writers + readers) as nat
                } else {
                    writers as nat
                },
                |i: int|
                    if i < writers {
                        Task::Writer { payload_size }
                    } else {
                        Task::Reader { follower: ((i - writers) % (followers as int)) as usize }
                    },
            ),
        }
    }

    /// Number of readers started so far.
    pub open spec fn readers(self) -> nat {
        readers_in(self.tasks)
    }

    /// Number of writers started so far.
    pub open spec fn writers(self) -> nat {
        writers_in(self.tasks)
    }

    /// The loop at position `i` is what the fleet's rules make it: a writer
    /// carries the fleet's payload size, and a reader is bound to the
    /// follower that its number selects. A reader's number is the number of
    /// readers started before it, so the reader started after `k` others
    /// reads from follower `k % followers`.
    pub open spec fn in_place(self, i: int) -> bool {
        match self.tasks[i] {
            Task::Writer { payload_size } => payload_size == self.payload_size,
            Task::Reader { follower } => self.followers > 0 && follower == readers_in(
                self.tasks.take(i),
            ) % (self.followers as nat),
        }
    }

    /// Every loop of the fleet is in place.
    pub open spec fn well_formed(self) -> bool {
        forall|i: int| 0 <= i < self.tasks.len() ==> #[trigger] self.in_place(i)
    }

    /// The loop that a tick starts, if it starts one. A writer tick always
    /// does. A reader tick does wherever there is a follower to read from.
    pub open spec fn spawned(self, tick: Tick) -> Option<Task> {
        match tick {
            Tick::Writer => Some(Task::Writer { payload_size: self.payload_size }),
            Tick::Reader => if self.followers > 0 {
                Some(
                    Task::Reader {
                        follower: (self.readers() % (self.followers as nat)) as usize,
                    },
                )
            } else {
                None
            },
        }
    }

    /// The fleet after a tick: the loop that the tick starts is added at
    /// the end, and nothing else changes.
    pub open spec fn after(self, tick: Tick) -> Fleet {
        match self.spawned(tick) {
            Some(task) => Fleet { tasks: self.tasks.push(task), ..self },
            None => self,
        }
    }

    /// The fleet after a run of ticks, taken in order.
    pub open spec fn after_all(self, ticks: Seq<Tick>) -> Fleet
        decreases ticks.len(),
    {
        if ticks.len() == 0 {
            self
        } else {
            self.after_all(ticks.drop_last()).after(ticks.last())
        }
    }
}

/// Counting goes through a loop added at the end.
pub proof fn lemma_count_push(tasks: Seq<Task>, task: Task)
    ensures
        readers_in(tasks.push(task)) == readers_in(tasks) + if task is Reader {
            1nat
        } else {
            0nat
        },
        writers_in(tasks.push(task)) == writers_in(tasks) + if task is Writer {
            1nat
        } else {
            0nat
        },
{
    assert(tasks.push(task).drop_last() =~= tasks);
}

/// Every loop is a reader or a writer.
pub proof fn lemma_count_total(tasks: Seq<Task>)
    ensures
        readers_in(tasks) + writers_in(tasks) == tasks.len(),
    decreases tasks.len(),
{
    if tasks.len() > 0 {
        lemma_count_total(tasks.drop_last());
    }
}

/// In the fleet at startup the first `writers` loops are the writers and
/// all that follow are readers.
proof fn lemma_initial_prefix(
    writers: usize,
    readers: usize,
    payload_size: usize,
    followers: usize,
    upto: int,
)
    requires
        0 <= upto <= Fleet::initial(writers, readers, payload_size, followers).tasks.len(),
    ensures
        ({
            let prefix = Fleet::initial(writers, readers, payload_size, followers).tasks.take(upto);
            &&& writers_in(prefix) == if upto <= writers {
                upto
            } else {
                writers as int
            }
            &&& readers_in(prefix) == if upto <= writers {
                0
            } else {
                upto - writers
            }
        }),
    decreases upto,
{
    let tasks = Fleet::initial(writers, readers, payload_size, followers).tasks;
    let prefix = tasks.take(upto);
    if upto > 0 {
        lemma_initial_prefix(writers, readers, payload_size, followers, upto - 1);
        assert(prefix.drop_last() =~= tasks.take(upto - 1));
    }
}

/// The fleet at startup is well formed and holds the loops asked for:
/// reader `i` of the first `readers` is bound to follower `i % followers`.
pub proof fn lemma_initial_well_formed(
    writers: usize,
    readers: usize,
    payload_size: usize,
    followers: usize,
)
    ensures
        Fleet::initial(writers, readers, payload_size, followers).well_formed(),
        Fleet::initial(writers, readers, payload_size, followers).writers() == writers,
        Fleet::initial(writers, readers, payload_size, followers).readers() == if followers > 0 {
            readers
        } else {
            0
        },
{
    let fleet = Fleet::initial(writers, readers, payload_size, followers);
    assert forall|i: int| 0 <= i < fleet.tasks.len() implies #[trigger] fleet.in_place(i) by {
        lemma_initial_prefix(writers, readers, payload_size, followers, i);
    }
    lemma_initial_prefix(writers, readers, payload_size, followers, fleet.tasks.len() as int);
    assert(fleet.tasks.take(fleet.tasks.len() as int) =~= fleet.tasks);
}

/// A tick keeps the fleet well formed. It adds one loop of its own kind at
/// the end and leaves every earlier loop as it was; the one exception is a
/// reader tick in a fleet without followers, which changes nothing.
pub proof fn lemma_after_well_formed(fleet: Fleet, tick: Tick)
    requires
        fleet.well_formed(),
    ensures
        fleet.after(tick).well_formed(),
        fleet.after(tick).followers == fleet.followers,
        fleet.after(tick).payload_size == fleet.payload_size,
        fleet.after(tick).tasks.len() >= fleet.tasks.len(),
        fleet.after(tick).tasks.take(fleet.tasks.len() as int) == fleet.tasks,
        fleet.after(tick).writers() == fleet.writers() + if tick is Writer {
            1nat
        } else {
            0nat
        },
        fleet.after(tick).readers() == fleet.readers() + if tick is Reader && fleet.followers > 0 {
            1nat
        } else {
            0nat
        },
{
    let next = fleet.after(tick);
    match fleet.spawned(tick) {
        Some(task) => {
            lemma_count_push(fleet.tasks, task);
            assert forall|i: int| 0 <= i < next.tasks.len() implies #[trigger] next.in_place(
                i,
            ) by {
                assert(next.tasks.take(i) =~= fleet.tasks.take(i));
                if i < fleet.tasks.len() {
                    assert(fleet.in_place(i));
                } else {
                    assert(fleet.tasks.take(i) =~= fleet.tasks);
                }
            }
        },
        None => {},
    }
}

/// The ramp: whatever the order in which the two timers fire, the fleet stays
/// well formed, grows by one writer for each writer tick and, where there
/// is a follower, by one reader for each reader tick, and never drops or
/// rebinds a loop that it has started.
pub proof fn lemma_ramp(fleet: Fleet, ticks: Seq<Tick>)
    requires
        fleet.well_formed(),
    ensures
        fleet.after_all(ticks).well_formed(),
        fleet.after_all(ticks).followers == fleet.followers,
        fleet.after_all(ticks).payload_size == fleet.payload_size,
        fleet.after_all(ticks).tasks.len() >= fleet.tasks.len(),
        fleet.after_all(ticks).tasks.take(fleet.tasks.len() as int) == fleet.tasks,
        fleet.after_all(ticks).writers() == fleet.writers() + writer_ticks(ticks),
        fleet.after_all(ticks).readers() == fleet.readers() + if fleet.followers > 0 {
            reader_ticks(ticks)
        } else {
            0
        },
    decreases ticks.len(),
{
    if ticks.len() == 0 {
        assert(fleet.tasks.take(fleet.tasks.len() as int) =~= fleet.tasks);
    } else {
        let before = fleet.after_all(ticks.drop_last());
        let last = before.after(ticks.last());
        lemma_ramp(fleet, ticks.drop_last());
        lemma_after_well_formed(before, ticks.last());
        assert(last.tasks.take(fleet.tasks.len() as int) =~= before.tasks.take(
            fleet.tasks.len() as int,
        ));
    }
}

/// Running two runs of ticks one after the other is running them as one.
pub proof fn lemma_after_all_concat(fleet: Fleet, first: Seq<Tick>, second: Seq<Tick>)
    ensures
        fleet.after_all(first + second) == fleet.after_all(first).after_all(second),
    decreases second.len(),
{
    if second.len() == 0 {
        assert(first + second =~= first);
    } else {
        lemma_after_all_concat(fleet, first, second.drop_last());
        assert((first + second).drop_last() =~= first + second.drop_last());
    }
}

/// The ramp over time: between two instants the fleet gains one writer for
/// every period of the writer timer that ends in the span and, where there
/// is a follower, one reader for every period of the reader timer that
/// does. From startup to second `to` that is `to / WRITER_INTERVAL_SECS`
/// writers and `to / READER_INTERVAL_SECS` readers.
pub proof fn lemma_ramp_over_time(fleet: Fleet, from: nat, to: nat)
    requires
        fleet.well_formed(),
        from <= to,
    ensures
        fleet.after_all(ticks_between(from, to)).well_formed(),
        fleet.after_all(ticks_between(from, to)).writers() == fleet.writers() + to / (
        WRITER_INTERVAL_SECS as nat) - from / (WRITER_INTERVAL_SECS as nat),
        fleet.after_all(ticks_between(from, to)).readers() == fleet.readers() + if fleet.followers
            > 0 {
            to / (READER_INTERVAL_SECS as nat) - from / (READER_INTERVAL_SECS as nat)
        } else {
            0
        },
{
    lemma_ramp(fleet, ticks_between(from, to));
    lemma_ticks_between_counts(from, to);
}

/// The fleet at a given time: `elapsed` seconds after startup it is well
/// formed and has grown from the writers and readers of the startup by one
/// writer for every full period of the writer timer and, where there is a
/// follower, by one reader for every full period of the reader timer.
pub proof fn lemma_fleet_at(
    writers: usize,
    readers: usize,
    payload_size: usize,
    followers: usize,
    elapsed: nat,
)
    ensures
        ({
            let fleet = Fleet::initial(writers, readers, payload_size, followers).after_all(
                ticks_between(0, elapsed),
            );
            &&& fleet.well_formed()
            &&& fleet.writers() == writers + elapsed / (WRITER_INTERVAL_SECS as nat)
            &&& fleet.readers() == if followers > 0 {
                readers + elapsed / (READER_INTERVAL_SECS as nat)
            } else {
                0
            }
        }),
{
    let fleet = Fleet::initial(writers, readers, payload_size, followers);
    lemma_initial_well_formed(writers, readers, payload_size, followers);
    lemma_ramp_over_time(fleet, 0, elapsed);
}

/// Round robin: in a well-formed fleet the reader with number `k`, counting
/// all readers from zero in the order in which they were started, is bound
/// to follower `k % followers`, which is a position of the follower list.
pub proof fn lemma_round_robin(fleet: Fleet, i: int)
    requires
        fleet.well_formed(),
        0 <= i < fleet.tasks.len(),
        fleet.tasks[i] is Reader,
    ensures
        fleet.followers > 0,
        fleet.tasks[i]->follower == readers_in(fleet.tasks.take(i)) % (fleet.followers as nat),
        fleet.tasks[i]->follower < fleet.followers,
{
    assert(fleet.in_place(i));
}

/// Round robin over the whole life of a fleet: start with any numbers of
/// writers and readers and let the timers tick in any order. Then the
/// numbering of the readers runs on from the readers of the startup through
/// all that the ticks added, and never starts over: whichever reader one
/// picks, it is bound to the follower that its number selects.
pub proof fn lemma_round_robin_from_startup(
    writers: usize,
    readers: usize,
    payload_size: usize,
    followers: usize,
    ticks: Seq<Tick>,
    i: int,
)
    requires
        0 <= i < Fleet::initial(writers, readers, payload_size, followers).after_all(
            ticks,
        ).tasks.len(),
        Fleet::initial(writers, readers, payload_size, followers).after_all(ticks).tasks[i]
            is Reader,
    ensures
        followers > 0,
        ({
            let tasks = Fleet::initial(writers, readers, payload_size, followers).after_all(
                ticks,
            ).tasks;
            tasks[i]->follower == readers_in(tasks.take(i)) % (followers as nat)
        }),
{
    let fleet = Fleet::initial(writers, readers, payload_size, followers);
    lemma_initial_well_formed(writers, readers, payload_size, followers);
    lemma_ramp(fleet, ticks);
    lemma_round_robin(fleet.after_all(ticks), i);
}

} // verus!
