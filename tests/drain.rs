use channel_drain::engine::{DrainEngine, ReadOutcome, Step};
use channel_drain::registry::ChannelRegistry;
use channel_drain::waiter::MultiplexedWaiter;
use crossbeam::channel::{bounded, unbounded};
use std::collections::VecDeque;

#[derive(Debug, PartialEq, Clone)]
enum Msg {
    Text(&'static str),
    Num(i32),
}

/// Runs a whole session and records every delivery as (slot, message).
fn run_session<M>(registry: &ChannelRegistry<M>) -> Vec<(usize, M)> {
    let mut engine = DrainEngine::new(registry.len());
    let mut waiter = MultiplexedWaiter::new(registry);
    let mut deliveries = Vec::new();
    while !engine.is_done() {
        if let Step::Deliver(i, m) = engine.step(&mut waiter, registry) {
            deliveries.push((i, m));
        }
    }
    deliveries
}

fn of_slot<M: Clone>(deliveries: &[(usize, M)], slot: usize) -> Vec<M> {
    deliveries.iter().filter(|(i, _)| *i == slot).map(|(_, m)| m.clone()).collect()
}

#[test]
fn smoke() {
    let (tx1, rx1) = bounded(10);
    let (tx2, rx2) = bounded(10);

    tx1.send(Msg::Text("For a successful technology")).unwrap();
    tx1.send(Msg::Text("reality must take precedence over public relations")).unwrap();
    tx1.send(Msg::Text("for nature cannot be fooled")).unwrap();
    tx2.send(Msg::Num(42)).unwrap();
    tx2.send(Msg::Num(22)).unwrap();
    tx2.send(Msg::Num(99)).unwrap();

    drop(tx1);
    drop(tx2);

    let mut registry = ChannelRegistry::new();
    assert_eq!(registry.register(rx1), 0);
    assert_eq!(registry.register(rx2), 1);
    let deliveries = run_session(&registry);
    for (i, m) in &deliveries {
        match m {
            Msg::Text(bar) => println!("Feynman Says: \"{}\"", bar),
            Msg::Num(baz) => println!("Some num: {}", baz),
        }
        assert!(*i < 2);
    }
    assert_eq!(deliveries.len(), 6);
    assert_eq!(
        of_slot(&deliveries, 0),
        vec![
            Msg::Text("For a successful technology"),
            Msg::Text("reality must take precedence over public relations"),
            Msg::Text("for nature cannot be fooled"),
        ]
    );
    assert_eq!(of_slot(&deliveries, 1), vec![Msg::Num(42), Msg::Num(22), Msg::Num(99)]);
}

#[test]
fn two_channels_deliver_in_order() {
    let (tx_a, rx_a) = unbounded();
    let (tx_b, rx_b) = unbounded();
    for s in ["x", "y", "z"] {
        tx_a.send(Msg::Text(s)).unwrap();
    }
    drop(tx_a);
    tx_b.send(Msg::Num(1)).unwrap();
    tx_b.send(Msg::Num(2)).unwrap();
    drop(tx_b);

    let mut registry = ChannelRegistry::new();
    registry.register(rx_a);
    registry.register(rx_b);
    let deliveries = run_session(&registry);
    assert_eq!(deliveries.len(), 5);
    assert_eq!(of_slot(&deliveries, 0), vec![Msg::Text("x"), Msg::Text("y"), Msg::Text("z")]);
    assert_eq!(of_slot(&deliveries, 1), vec![Msg::Num(1), Msg::Num(2)]);
}

#[test]
fn channel_closed_without_messages_is_still_counted() {
    let (tx_a, rx_a) = unbounded::<i32>();
    let (tx_b, rx_b) = unbounded::<i32>();
    drop(tx_a);

    let mut registry = ChannelRegistry::new();
    registry.register(rx_a);
    registry.register(rx_b);
    let mut engine = DrainEngine::new(registry.len());
    let mut waiter = MultiplexedWaiter::new(&registry);

    // Only the closed channel is ready: it is retired, and B stays live.
    assert_eq!(engine.step(&mut waiter, &registry), Step::Retired(0));
    assert_eq!(engine.live_count(), 1);
    assert!(!engine.is_done());

    tx_b.send(7).unwrap();
    drop(tx_b);
    let mut deliveries = Vec::new();
    while !engine.is_done() {
        if let Step::Deliver(i, m) = engine.step(&mut waiter, &registry) {
            deliveries.push((i, m));
        }
    }
    assert_eq!(deliveries, vec![(1, 7)]);
}

#[test]
fn empty_registry_is_done_at_once() {
    let registry: ChannelRegistry<i32> = ChannelRegistry::new();
    assert_eq!(registry.len(), 0);
    let engine: DrainEngine<i32> = DrainEngine::new(0);
    assert!(engine.is_done());
    assert_eq!(engine.live_count(), 0);
    assert!(run_session(&registry).is_empty());
}

#[test]
fn register_gives_dense_indices() {
    let mut registry = ChannelRegistry::new();
    for expected in 0..4usize {
        let (_tx, rx) = unbounded::<u8>();
        assert_eq!(registry.register(rx), expected);
    }
    assert_eq!(registry.len(), 4);
}

#[test]
fn on_read_message_is_delivered_to_its_slot() {
    let mut engine: DrainEngine<&str> = DrainEngine::new(3);
    assert_eq!(engine.on_read(2, ReadOutcome::Message("m")), Step::Deliver(2, "m"));
    assert_eq!(engine.live_count(), 3);
    assert_eq!(engine.slots(), 3);
}

#[test]
fn on_read_empty_changes_nothing() {
    let mut engine: DrainEngine<u32> = DrainEngine::new(2);
    assert_eq!(engine.on_read(1, ReadOutcome::Empty), Step::Idle);
    assert_eq!(engine.live_count(), 2);
    assert!(!engine.is_done());
}

#[test]
fn on_read_closed_retires_one_slot() {
    let mut engine: DrainEngine<u32> = DrainEngine::new(3);
    assert_eq!(engine.on_read(0, ReadOutcome::Closed), Step::Retired(0));
    assert_eq!(engine.live_count(), 2);
    // The other slots keep their indices after a retirement.
    assert_eq!(engine.on_read(2, ReadOutcome::Message(5)), Step::Deliver(2, 5));
    assert_eq!(engine.on_read(1, ReadOutcome::Closed), Step::Retired(1));
    assert_eq!(engine.on_read(2, ReadOutcome::Closed), Step::Retired(2));
    assert!(engine.is_done());
    assert_eq!(engine.slots(), 3);
}

#[test]
fn simulated_fifo_channels_deliver_everything() {
    let sent: Vec<Vec<u32>> = vec![vec![1, 2, 3], vec![], vec![10, 20]];
    let mut queues: Vec<VecDeque<u32>> = sent.iter().map(|v| v.iter().copied().collect()).collect();
    let mut engine = DrainEngine::new(3);
    let mut live = vec![true; 3];
    let mut delivered: Vec<Vec<u32>> = vec![Vec::new(); 3];
    // A fixed round-robin order stands in for the waiter.
    let mut turn = 0usize;
    while !engine.is_done() {
        let i = turn % 3;
        turn += 1;
        if !live[i] {
            continue;
        }
        let outcome = match queues[i].pop_front() {
            Some(m) => ReadOutcome::Message(m),
            None => ReadOutcome::Closed,
        };
        match engine.on_read(i, outcome) {
            Step::Deliver(j, m) => delivered[j].push(m),
            Step::Retired(j) => live[j] = false,
            Step::Idle => {}
        }
    }
    assert_eq!(delivered, sent);
}

#[test]
fn read_reports_each_outcome() {
    let (tx, rx) = unbounded();
    let mut registry = ChannelRegistry::new();
    registry.register(rx);
    assert_eq!(registry.read(0), ReadOutcome::Empty);
    tx.send(11u64).unwrap();
    tx.send(12u64).unwrap();
    assert_eq!(registry.read(0), ReadOutcome::Message(11));
    drop(tx);
    assert_eq!(registry.read(0), ReadOutcome::Message(12));
    assert_eq!(registry.read(0), ReadOutcome::Closed);
}

#[test]
fn waiter_never_returns_a_retired_slot() {
    let (tx_a, rx_a) = unbounded::<u8>();
    let (tx_b, rx_b) = unbounded::<u8>();
    drop(tx_a);
    tx_b.send(1).unwrap();
    let mut registry = ChannelRegistry::new();
    registry.register(rx_a);
    registry.register(rx_b);
    let mut waiter = MultiplexedWaiter::new(&registry);
    waiter.retire(0);
    for _ in 0..20 {
        assert_eq!(waiter.wait_one(), 1);
    }
    drop(tx_b);
}

#[test]
fn many_messages_keep_send_order() {
    let (tx, rx) = unbounded();
    for k in 0..500u32 {
        tx.send(k).unwrap();
    }
    drop(tx);
    let mut registry = ChannelRegistry::new();
    registry.register(rx);
    let deliveries = run_session(&registry);
    assert_eq!(of_slot(&deliveries, 0), (0..500u32).collect::<Vec<_>>());
}
