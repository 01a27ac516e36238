use kv_loadgen::engine::Task;
use kv_loadgen::scheduler::Scheduler;
use kv_loadgen::timeline::{Tick, READER_INTERVAL_SECS, WRITER_INTERVAL_SECS};

fn followers_of(tasks: &[Task]) -> Vec<usize> {
    tasks
        .iter()
        .filter_map(|task| match task {
            Task::Reader { follower } => Some(*follower),
            Task::Writer { .. } => None,
        })
        .collect()
}

#[test]
fn timers_have_their_periods() {
    assert_eq!(WRITER_INTERVAL_SECS, 120);
    assert_eq!(READER_INTERVAL_SECS, 30);
    assert_eq!(Tick::Writer.interval_secs(), 120);
    assert_eq!(Tick::Reader.interval_secs(), 30);
}

#[test]
fn initial_fleet_has_the_writers_then_the_readers() {
    let scheduler = Scheduler::start(2, 3, 64, 2);
    assert_eq!(
        scheduler.tasks(),
        &vec![
            Task::Writer { payload_size: 64 },
            Task::Writer { payload_size: 64 },
            Task::Reader { follower: 0 },
            Task::Reader { follower: 1 },
            Task::Reader { follower: 0 },
        ]
    );
    assert_eq!(scheduler.active_writers(), 2);
    assert_eq!(scheduler.active_readers(), 3);
    assert_eq!(scheduler.followers(), 2);
    assert_eq!(scheduler.payload_size(), 64);
}

#[test]
fn empty_fleet() {
    let scheduler = Scheduler::start(0, 0, 16, 3);
    assert!(scheduler.tasks().is_empty());
    assert_eq!(scheduler.active_writers(), 0);
    assert_eq!(scheduler.active_readers(), 0);
}

#[test]
fn initial_readers_are_dealt_round_robin() {
    let scheduler = Scheduler::start(0, 8, 1, 3);
    assert_eq!(followers_of(scheduler.tasks()), vec![0, 1, 2, 0, 1, 2, 0, 1]);
    for (i, follower) in followers_of(scheduler.tasks()).into_iter().enumerate() {
        assert_eq!(follower, i % 3);
    }
}

#[test]
fn fewer_readers_than_followers() {
    let scheduler = Scheduler::start(1, 2, 1, 5);
    assert_eq!(followers_of(scheduler.tasks()), vec![0, 1]);
}

#[test]
fn single_follower_takes_every_reader() {
    let mut scheduler = Scheduler::start(0, 4, 1, 1);
    assert_eq!(scheduler.on_tick(Tick::Reader), Some(Task::Reader { follower: 0 }));
    assert_eq!(followers_of(scheduler.tasks()), vec![0, 0, 0, 0, 0]);
}

#[test]
fn round_robin_goes_on_after_startup_without_resetting() {
    let mut scheduler = Scheduler::start(1, 5, 32, 3);
    assert_eq!(followers_of(scheduler.tasks()), vec![0, 1, 2, 0, 1]);
    assert_eq!(scheduler.on_tick(Tick::Reader), Some(Task::Reader { follower: 2 }));
    assert_eq!(scheduler.on_tick(Tick::Reader), Some(Task::Reader { follower: 0 }));
    assert_eq!(scheduler.on_tick(Tick::Writer), Some(Task::Writer { payload_size: 32 }));
    assert_eq!(scheduler.on_tick(Tick::Reader), Some(Task::Reader { follower: 1 }));
    assert_eq!(scheduler.active_readers(), 8);
    for (i, follower) in followers_of(scheduler.tasks()).into_iter().enumerate() {
        assert_eq!(follower, i % 3);
    }
}

#[test]
fn round_robin_from_an_empty_fleet() {
    let mut scheduler = Scheduler::start(0, 0, 32, 2);
    assert_eq!(scheduler.on_tick(Tick::Reader), Some(Task::Reader { follower: 0 }));
    assert_eq!(scheduler.on_tick(Tick::Reader), Some(Task::Reader { follower: 1 }));
    assert_eq!(scheduler.on_tick(Tick::Reader), Some(Task::Reader { follower: 0 }));
}

#[test]
fn writer_ramp_adds_one_writer_per_interval() {
    let mut scheduler = Scheduler::start(2, 0, 128, 1);
    assert_eq!(Tick::Writer.interval_secs(), 120);
    assert_eq!(scheduler.active_writers(), 2);
    assert_eq!(scheduler.on_tick(Tick::Writer), Some(Task::Writer { payload_size: 128 }));
    assert_eq!(scheduler.active_writers(), 3);
    assert_eq!(scheduler.on_tick(Tick::Writer), Some(Task::Writer { payload_size: 128 }));
    assert_eq!(scheduler.active_writers(), 4);
    assert_eq!(scheduler.tasks().len(), 4);
}

#[test]
fn reader_ramp_adds_one_reader_per_interval() {
    let mut scheduler = Scheduler::start(1, 1, 128, 4);
    for round in 0..10 {
        assert_eq!(scheduler.active_readers(), 1 + round);
        assert!(scheduler.on_tick(Tick::Reader).is_some());
    }
    assert_eq!(scheduler.active_readers(), 11);
    assert_eq!(scheduler.active_writers(), 1);
}

#[test]
fn ticks_leave_earlier_loops_as_they_were() {
    let mut scheduler = Scheduler::start(2, 2, 8, 2);
    let before = scheduler.tasks().clone();
    scheduler.on_tick(Tick::Reader);
    scheduler.on_tick(Tick::Writer);
    assert_eq!(scheduler.tasks()[..before.len()], before[..]);
    assert_eq!(scheduler.tasks().len(), before.len() + 2);
}

#[test]
fn each_tick_registers_what_it_returns() {
    let mut scheduler = Scheduler::start(0, 0, 8, 2);
    let spawned = scheduler.on_tick(Tick::Writer).expect("a writer tick starts a writer");
    assert_eq!(scheduler.tasks().last(), Some(&spawned));
    let spawned = scheduler.on_tick(Tick::Reader).expect("there is a follower");
    assert_eq!(scheduler.tasks().last(), Some(&spawned));
}

#[test]
fn without_followers_no_reader_is_started() {
    let mut scheduler = Scheduler::start(2, 3, 8, 0);
    assert_eq!(
        scheduler.tasks(),
        &vec![Task::Writer { payload_size: 8 }, Task::Writer { payload_size: 8 }]
    );
    assert_eq!(scheduler.active_readers(), 0);
    assert_eq!(scheduler.on_tick(Tick::Reader), None);
    assert_eq!(scheduler.tasks().len(), 2);
    assert_eq!(scheduler.on_tick(Tick::Writer), Some(Task::Writer { payload_size: 8 }));
    assert_eq!(scheduler.active_writers(), 3);
}

#[test]
fn readers_are_bound_within_the_follower_list() {
    let mut scheduler = Scheduler::start(3, 10, 8, 4);
    for _ in 0..25 {
        scheduler.on_tick(Tick::Reader);
    }
    assert!(followers_of(scheduler.tasks()).into_iter().all(|follower| follower < 4));
}

#[test]
fn a_new_scheduler_stands_at_startup() {
    let scheduler = Scheduler::start(1, 1, 8, 1);
    assert_eq!(scheduler.elapsed_secs(), 0);
    assert_eq!(scheduler.next_deadline(), Some(30));
}

#[test]
fn third_writer_after_one_interval_and_fourth_after_two() {
    let mut scheduler = Scheduler::start(2, 0, 128, 0);
    assert_eq!(scheduler.active_writers(), 2);
    assert_eq!(scheduler.advance_to(119), Vec::new());
    assert_eq!(scheduler.active_writers(), 2);
    assert_eq!(scheduler.advance_to(120), vec![Task::Writer { payload_size: 128 }]);
    assert_eq!(scheduler.active_writers(), 3);
    assert_eq!(scheduler.advance_to(239), Vec::new());
    assert_eq!(scheduler.active_writers(), 3);
    assert_eq!(scheduler.advance_to(240), vec![Task::Writer { payload_size: 128 }]);
    assert_eq!(scheduler.active_writers(), 4);
}

#[test]
fn a_reader_every_thirty_seconds() {
    let mut scheduler = Scheduler::start(0, 2, 8, 3);
    assert_eq!(scheduler.advance_to(29), Vec::new());
    assert_eq!(scheduler.advance_to(30), vec![Task::Reader { follower: 2 }]);
    assert_eq!(scheduler.advance_to(60), vec![Task::Reader { follower: 0 }]);
    assert_eq!(scheduler.advance_to(89), Vec::new());
    assert_eq!(scheduler.advance_to(90), vec![Task::Reader { follower: 1 }]);
    assert_eq!(scheduler.active_readers(), 5);
}

#[test]
fn ticks_come_in_the_order_in_which_the_timers_fire() {
    let mut scheduler = Scheduler::start(1, 1, 8, 2);
    assert_eq!(
        scheduler.advance_to(125),
        vec![
            Task::Reader { follower: 1 },
            Task::Reader { follower: 0 },
            Task::Reader { follower: 1 },
            Task::Writer { payload_size: 8 },
            Task::Reader { follower: 0 },
        ]
    );
    assert_eq!(scheduler.elapsed_secs(), 125);
    assert_eq!(scheduler.tasks().len(), 7);
}

#[test]
fn advancing_in_steps_is_advancing_at_once() {
    let mut at_once = Scheduler::start(2, 3, 8, 4);
    at_once.advance_to(1000);
    let mut in_steps = Scheduler::start(2, 3, 8, 4);
    for now in [1, 29, 30, 31, 120, 359, 360, 361, 999, 1000] {
        in_steps.advance_to(now);
    }
    assert_eq!(at_once.tasks(), in_steps.tasks());
    assert_eq!(at_once.active_writers(), 2 + 1000 / 120);
    assert_eq!(at_once.active_readers(), 3 + 1000 / 30);
}

#[test]
fn the_clock_does_not_run_backwards() {
    let mut scheduler = Scheduler::start(0, 0, 8, 1);
    scheduler.advance_to(100);
    let before = scheduler.tasks().clone();
    assert_eq!(scheduler.advance_to(40), Vec::new());
    assert_eq!(scheduler.advance_to(100), Vec::new());
    assert_eq!(scheduler.elapsed_secs(), 100);
    assert_eq!(scheduler.tasks(), &before);
}

#[test]
fn deadlines_are_the_multiples_of_the_periods() {
    let mut scheduler = Scheduler::start(0, 0, 8, 1);
    let mut deadlines = Vec::new();
    while let Some(deadline) = scheduler.next_deadline() {
        if deadline > 130 {
            break;
        }
        deadlines.push(deadline);
        scheduler.advance_to(deadline);
    }
    assert_eq!(deadlines, vec![30, 60, 90, 120]);
    scheduler.advance_to(125);
    assert_eq!(scheduler.next_deadline(), Some(150));
}

#[test]
fn ramp_without_followers_grows_writers_only() {
    let mut scheduler = Scheduler::start(1, 4, 8, 0);
    let spawned = scheduler.advance_to(600);
    assert_eq!(spawned, vec![Task::Writer { payload_size: 8 }; 5]);
    assert_eq!(scheduler.active_readers(), 0);
    assert_eq!(scheduler.active_writers(), 6);
}

#[test]
fn round_robin_holds_for_many_fleets() {
    for followers in 1..=5usize {
        for writers in 0..=3usize {
            for readers in 0..=7usize {
                let mut scheduler = Scheduler::start(writers, readers, 4, followers);
                scheduler.advance_to(400);
                scheduler.on_tick(Tick::Reader);
                scheduler.advance_to(900);
                let bound = followers_of(scheduler.tasks());
                assert_eq!(bound.len(), readers + 900 / 30 + 1);
                assert_eq!(scheduler.active_readers(), bound.len());
                assert_eq!(scheduler.active_writers(), writers + 900 / 120);
                for (number, follower) in bound.into_iter().enumerate() {
                    assert_eq!(follower, number % followers);
                }
            }
        }
    }
}
