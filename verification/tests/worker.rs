use spiderbutter::coro_util::{Coroutine, Task};
use spiderbutter::worker::{
    RoundRobin, Wait, Worker, DEFAULT_CEILING, DEFAULT_WORKERS, PASS_INTERVAL_MS,
};

struct Countdown {
    left: u32,
    name: &'static str,
    resumed: u32,
}

impl Countdown {
    fn new(left: u32, name: &'static str) -> Countdown {
        Countdown { left, name, resumed: 0 }
    }
}

impl Coroutine for Countdown {
    type Return = (&'static str, u32);

    fn resume(&mut self) -> Option<Self::Return> {
        self.resumed += 1;
        if self.left == 0 {
            Some((self.name, self.resumed))
        } else {
            self.left -= 1;
            None
        }
    }
}

#[test]
fn a_task_is_live_until_its_computation_ends() {
    let mut task = Task::from(Countdown::new(2, "a"));
    assert!(task.is_valid());
    assert_eq!(task.resume(), None);
    assert!(task.is_valid());
    assert_eq!(task.resume(), None);
    assert_eq!(task.resume(), Some(("a", 3)));
    assert!(!task.is_valid());
}

#[test]
fn a_task_that_has_ended_is_not_run_again() {
    let mut task = Task::from(Countdown::new(0, "a"));
    assert_eq!(task.resume(), Some(("a", 1)));
    assert_eq!(task.resume(), None);
    assert_eq!(task.resume(), None);
    assert!(!task.is_valid());
}

#[test]
fn settle_records_the_end_of_a_computation() {
    let mut task = Task::from(Countdown::new(5, "a"));
    assert_eq!(task.settle(None), None);
    assert!(task.is_valid());
    assert_eq!(task.settle(Some(("x", 9))), Some(("x", 9)));
    assert!(!task.is_valid());
    assert_eq!(task.settle(None), None);
    assert!(!task.is_valid());
}

#[test]
fn round_robin_deals_to_each_worker_in_turn() {
    assert_eq!(DEFAULT_WORKERS, 4);
    let mut dealer = RoundRobin::new(DEFAULT_WORKERS);
    let dealt: Vec<usize> = (0..10).map(|_| dealer.assign()).collect();
    assert_eq!(dealt, vec![0, 1, 2, 3, 0, 1, 2, 3, 0, 1]);
    let mut single = RoundRobin::new(1);
    assert_eq!(single.assign(), 0);
    assert_eq!(single.assign(), 0);
}

#[test]
fn a_worker_owns_no_more_than_its_ceiling() {
    assert_eq!(DEFAULT_CEILING, 128);
    let mut worker = Worker::new(2);
    assert!(worker.has_room());
    assert!(worker.accept(Task::from(Countdown::new(1, "a"))).is_ok());
    assert!(worker.accept(Task::from(Countdown::new(1, "b"))).is_ok());
    assert!(!worker.has_room());
    let back = worker.accept(Task::from(Countdown::new(1, "c")));
    assert!(back.is_err());
    assert_eq!(worker.len(), 2);
}

#[test]
fn a_worker_drops_a_task_that_has_ended_before() {
    let mut worker = Worker::new(2);
    let mut dead = Task::from(Countdown::new(0, "a"));
    dead.resume();
    assert!(worker.accept(dead).is_ok());
    assert_eq!(worker.len(), 0);
}

#[test]
fn a_pass_resumes_each_computation_once_and_drops_the_ended() {
    let mut worker = Worker::new(DEFAULT_CEILING);
    assert_eq!(worker.after_pass(), Wait::ForAssignment);
    for (left, name) in [(0, "a"), (2, "b"), (0, "c"), (1, "d")] {
        assert!(worker.accept(Task::from(Countdown::new(left, name))).is_ok());
    }
    let mut ended = worker.run_pass();
    ended.sort();
    assert_eq!(ended, vec![("a", 1), ("c", 1)]);
    assert_eq!(worker.len(), 2);
    assert_eq!(worker.after_pass(), Wait::Sleep { millis: PASS_INTERVAL_MS });
    assert_eq!(worker.run_pass(), vec![("d", 2)]);
    assert_eq!(worker.run_pass(), vec![("b", 3)]);
    assert_eq!(worker.len(), 0);
    assert_eq!(worker.after_pass(), Wait::ForAssignment);
    assert!(worker.run_pass().is_empty());
}

#[test]
fn retiring_an_ended_task_puts_the_last_in_its_slot() {
    let mut worker = Worker::new(8);
    for (left, name) in [(1, "a"), (2, "b"), (3, "c")] {
        assert!(worker.accept(Task::from(Countdown::new(left, name))).is_ok());
    }
    let mut results = vec![("z", 0)];
    assert_eq!(worker.retire(0, None, &mut results), 1);
    assert_eq!(worker.len(), 3);
    assert_eq!(results, vec![("z", 0)]);
    assert_eq!(worker.retire(0, Some(("a", 7)), &mut results), 0);
    assert_eq!(worker.len(), 2);
    assert_eq!(results, vec![("z", 0), ("a", 7)]);
    assert_eq!(worker.retire(1, Some(("b", 9)), &mut results), 1);
    assert_eq!(worker.len(), 1);
    assert_eq!(results, vec![("z", 0), ("a", 7), ("b", 9)]);
    assert_eq!(worker.run_pass(), vec![]);
    assert_eq!(worker.run_pass(), vec![]);
    assert_eq!(worker.run_pass(), vec![]);
    assert_eq!(worker.run_pass(), vec![("c", 4)]);
}
