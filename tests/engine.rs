use calloop::{
    registration_error, retry_after_interrupt, Cycle, Idle, IdleQueue, InsertError, Readiness,
    SourceList, Step, Token, WaitRetry,
};

fn readable() -> Readiness {
    Readiness { readable: true, writable: false, error: false, hup: false }
}

fn writable() -> Readiness {
    Readiness { readable: false, writable: true, error: false, hup: false }
}

/// Runs one cycle to its end, recording what it asked for. `on_dispatch`
/// stands for the dispatcher callbacks and may change the registry and the
/// idle queue, as a callback can through a loop handle.
fn run_cycle<F>(
    list: &mut SourceList<&'static str>,
    idle: &mut IdleQueue<&'static str>,
    events: Vec<(Token, Readiness)>,
    mut on_dispatch: F,
) -> Vec<String>
where
    F: FnMut(Token, &mut SourceList<&'static str>, &mut IdleQueue<&'static str>),
{
    let mut log = Vec::new();
    let mut cycle = Cycle::new(events, list);
    loop {
        match cycle.next_step(list, idle) {
            Step::Dispatch(t, _) => {
                log.push(format!("io:{}", list.get(t).unwrap()));
                on_dispatch(t, list, idle);
            }
            Step::Idle(name) => log.push(format!("idle:{}", name)),
            Step::Done => break,
        }
    }
    log
}

#[test]
fn tokens_are_fresh_across_insertions_and_removals() {
    let mut list: SourceList<&'static str> = SourceList::new();
    let a = list.insert("a").unwrap();
    let b = list.insert("b").unwrap();
    assert_ne!(a, b);
    assert_eq!(list.remove(a), Some("a"));
    let c = list.insert("c").unwrap();
    assert_ne!(c, a);
    assert_ne!(c, b);
    assert_eq!(list.get(a), None);
    assert_eq!(list.get(b), Some(&"b"));
    assert_eq!(list.get(c), Some(&"c"));
    assert_eq!(list.len(), 2);
    assert_eq!(list.token_bound(), 3);
}

#[test]
fn remove_of_unknown_token_is_none() {
    let mut list: SourceList<&'static str> = SourceList::new();
    assert_eq!(list.remove(Token(7)), None);
    assert_eq!(list.len(), 0);
}

#[test]
fn insert_then_remove_leaves_no_trace() {
    let mut list: SourceList<&'static str> = SourceList::new();
    let mut idle: IdleQueue<&'static str> = IdleQueue::new();
    let t = list.insert("short").unwrap();
    assert_eq!(list.remove(t), Some("short"));
    assert_eq!(list.len(), 0);
    assert!(!list.contains(t));
    let log = run_cycle(&mut list, &mut idle, vec![(t, readable())], |_, _, _| {});
    assert!(log.is_empty());
}

#[test]
fn self_removal_stops_further_events() {
    let mut list: SourceList<&'static str> = SourceList::new();
    let mut idle: IdleQueue<&'static str> = IdleQueue::new();
    let a = list.insert("a").unwrap();
    let events = vec![(a, readable()), (a, writable())];
    let log = run_cycle(&mut list, &mut idle, events, |t, list, _| {
        list.remove(t);
    });
    assert_eq!(log, vec!["io:a".to_string()]);
    let log = run_cycle(&mut list, &mut idle, vec![(a, readable())], |_, _, _| {});
    assert!(log.is_empty());
}

#[test]
fn idle_inserted_during_drain_runs_next_cycle() {
    let mut list: SourceList<&'static str> = SourceList::new();
    let mut idle: IdleQueue<&'static str> = IdleQueue::new();
    idle.insert("first").unwrap();
    let mut cycle = Cycle::new(Vec::new(), &list);
    let mut log = Vec::new();
    loop {
        match cycle.next_step(&list, &mut idle) {
            Step::Idle(name) => {
                log.push(name);
                idle.insert("second").unwrap();
            }
            Step::Dispatch(_, _) => panic!("no source is registered"),
            Step::Done => break,
        }
    }
    assert_eq!(log, vec!["first"]);
    let log = run_cycle(&mut list, &mut idle, Vec::new(), |_, _, _| {});
    assert_eq!(log, vec!["idle:second".to_string()]);
}

#[test]
fn cancel_before_run_prevents_it() {
    let mut list: SourceList<&'static str> = SourceList::new();
    let mut idle: IdleQueue<&'static str> = IdleQueue::new();
    let keep = idle.insert("keep").unwrap();
    let gone = idle.insert("gone").unwrap();
    gone.cancel(&mut idle);
    let log = run_cycle(&mut list, &mut idle, Vec::new(), |_, _, _| {});
    assert_eq!(log, vec!["idle:keep".to_string()]);
    keep.cancel(&mut idle);
    assert!(idle.is_empty());
}

#[test]
fn cancel_after_run_is_a_no_op() {
    let mut list: SourceList<&'static str> = SourceList::new();
    let mut idle: IdleQueue<&'static str> = IdleQueue::new();
    let ran: Idle = idle.insert("ran").unwrap();
    let log = run_cycle(&mut list, &mut idle, Vec::new(), |_, _, _| {});
    assert_eq!(log, vec!["idle:ran".to_string()]);
    idle.insert("later").unwrap();
    ran.cancel(&mut idle);
    let log = run_cycle(&mut list, &mut idle, Vec::new(), |_, _, _| {});
    assert_eq!(log, vec!["idle:later".to_string()]);
}

#[test]
fn cancel_from_an_idle_callback_skips_a_later_one() {
    let list: SourceList<&'static str> = SourceList::new();
    let mut idle: IdleQueue<&'static str> = IdleQueue::new();
    idle.insert("one").unwrap();
    let mut two = Some(idle.insert("two").unwrap());
    idle.insert("three").unwrap();
    let mut cycle = Cycle::new(Vec::new(), &list);
    let mut log = Vec::new();
    loop {
        match cycle.next_step(&list, &mut idle) {
            Step::Idle(name) => {
                log.push(name);
                if let Some(h) = two.take() {
                    h.cancel(&mut idle);
                }
            }
            Step::Dispatch(_, _) => panic!("no source is registered"),
            Step::Done => break,
        }
    }
    assert_eq!(log, vec!["one", "three"]);
}

#[test]
fn two_ready_sources_run_in_backend_order_before_idle() {
    let mut list: SourceList<&'static str> = SourceList::new();
    let mut idle: IdleQueue<&'static str> = IdleQueue::new();
    let first = list.insert("first").unwrap();
    let second = list.insert("second").unwrap();
    idle.insert("tick").unwrap();
    let events = vec![(second, readable()), (first, writable())];
    let log = run_cycle(&mut list, &mut idle, events, |_, _, _| {});
    assert_eq!(
        log,
        vec!["io:second".to_string(), "io:first".to_string(), "idle:tick".to_string()]
    );
}

#[test]
fn dispatcher_inserts_and_removes_others() {
    let mut list: SourceList<&'static str> = SourceList::new();
    let mut idle: IdleQueue<&'static str> = IdleQueue::new();
    let a = list.insert("a").unwrap();
    let c = list.insert("c").unwrap();
    let mut b: Option<Token> = None;
    let events = vec![(a, readable()), (c, readable()), (Token(2), readable())];
    let log = run_cycle(&mut list, &mut idle, events, |t, list, _| {
        if t == a {
            b = Some(list.insert("b").unwrap());
            list.remove(c);
        }
    });
    assert_eq!(log, vec!["io:a".to_string()]);
    let b = b.unwrap();
    assert_eq!(b, Token(2));
    let log = run_cycle(&mut list, &mut idle, vec![(b, readable()), (c, readable())], |_, _, _| {});
    assert_eq!(log, vec!["io:b".to_string()]);
}

#[test]
fn timer_like_source_fires_once_at_its_deadline() {
    let mut list: SourceList<&'static str> = SourceList::new();
    let mut idle: IdleQueue<&'static str> = IdleQueue::new();
    let timer = list.insert("timer").unwrap();
    let delay_ms: u64 = 50;
    let step_ms: u64 = 20;
    let mut armed = true;
    let mut fired_at = Vec::new();
    for n in 0..10u64 {
        let now = n * step_ms;
        let events = if armed && now >= delay_ms { vec![(timer, readable())] } else { Vec::new() };
        let log = run_cycle(&mut list, &mut idle, events, |_, _, _| {});
        if !log.is_empty() {
            armed = false;
            fired_at.push(now);
        }
    }
    assert_eq!(fired_at, vec![60]);
}

#[test]
fn interrupted_wait_resumes_with_the_rest_of_its_budget() {
    assert_eq!(retry_after_interrupt(Some(100), 30), WaitRetry::Wait(Some(70)));
    assert_eq!(retry_after_interrupt(Some(100), 100), WaitRetry::TimedOut);
    assert_eq!(retry_after_interrupt(Some(100), 250), WaitRetry::TimedOut);
    assert_eq!(retry_after_interrupt(None, 5000), WaitRetry::Wait(None));
    assert_eq!(retry_after_interrupt(Some(0), 0), WaitRetry::TimedOut);
}

#[test]
fn registration_errors_are_sorted() {
    assert_eq!(registration_error(17), InsertError::Rejected { errno: 17 });
    assert_eq!(registration_error(9), InsertError::Rejected { errno: 9 });
    assert_eq!(registration_error(1), InsertError::Rejected { errno: 1 });
    assert_eq!(registration_error(22), InsertError::Rejected { errno: 22 });
    assert_eq!(registration_error(12), InsertError::Io { errno: 12 });
}

#[test]
fn rollback_drops_the_refused_entry() {
    let mut list: SourceList<&'static str> = SourceList::new();
    let kept = list.insert("kept").unwrap();
    let refused = list.insert("refused").unwrap();
    assert_eq!(list.rollback(refused, 17), InsertError::Rejected { errno: 17 });
    assert!(!list.contains(refused));
    assert!(list.contains(kept));
    assert_eq!(list.len(), 1);
    let again = list.insert("again").unwrap();
    assert_ne!(again, refused);
}

#[test]
fn stale_token_in_batch_is_skipped() {
    let mut list: SourceList<&'static str> = SourceList::new();
    let mut idle: IdleQueue<&'static str> = IdleQueue::new();
    let a = list.insert("a").unwrap();
    let log = run_cycle(&mut list, &mut idle, vec![(Token(40), readable()), (a, readable())], |_, _, _| {});
    assert_eq!(log, vec!["io:a".to_string()]);
}
