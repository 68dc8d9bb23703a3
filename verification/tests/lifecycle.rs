use std::cell::Cell;
use std::rc::Rc;

use mekena::context::Context;
use mekena::mailbox::Mailbox;
use mekena::message::Envelope;
use mekena::node::Node;
use mekena::system::System;
use mekena::system::SystemError;
use mekena::system::SystemState;

const PING_TAG: u64 = 7;

/// Counts how often each of its hooks ran, through handles the test keeps.
#[derive(Clone)]
struct CountingNode {
    starting_runs: Rc<Cell<u32>>,
    running_runs: Rc<Cell<u32>>,
    stopping_runs: Rc<Cell<u32>>,
}

impl CountingNode {
    fn new() -> CountingNode {
        CountingNode {
            starting_runs: Rc::new(Cell::new(0)),
            running_runs: Rc::new(Cell::new(0)),
            stopping_runs: Rc::new(Cell::new(0)),
        }
    }
}

impl Node for CountingNode {
    fn starting(&mut self, _ctx: &mut Context, _mailbox: &mut Mailbox) {
        self.starting_runs.set(self.starting_runs.get() + 1);
    }

    fn running(&mut self, _ctx: &mut Context, _mailbox: &mut Mailbox) {
        self.running_runs.set(self.running_runs.get() + 1);
    }

    fn stopping(&mut self, _ctx: &mut Context, _mailbox: &mut Mailbox) {
        self.stopping_runs.set(self.stopping_runs.get() + 1);
    }
}

/// A node that does nothing in any phase.
struct QuietNode;

impl Node for QuietNode {}

#[test]
fn one_shot_signal_resolves_exactly_once() {
    let mut ctx = Context::new();
    assert!(ctx.request_shutdown());
    // The slot holds one notification; a second request is not delivered.
    assert!(!ctx.request_shutdown());
    // The one waiter consumes the notification...
    assert!(ctx.await_shutdown());
    // ...and a second wait, with no new request, does not resolve.
    assert!(!ctx.await_shutdown());
    // After consumption the slot is free again.
    assert!(ctx.request_shutdown());
    assert!(ctx.await_shutdown());
}

#[test]
fn the_two_signals_are_independent() {
    let mut ctx = Context::new();
    assert!(ctx.request_shutdown());
    assert!(!ctx.await_emergency_shutdown());
    assert!(ctx.request_emergency_shutdown());
    assert!(ctx.await_shutdown());
    assert!(ctx.await_emergency_shutdown());
}

#[test]
fn a_run_with_no_nodes_completes() {
    let mut system: System<QuietNode> = System::new();
    assert_eq!(system.get_state(), SystemState::NotStarted);
    assert!(system.start().is_ok());
    assert_eq!(system.get_state(), SystemState::Stopped);
}

#[test]
fn every_phase_runs_every_node_exactly_once() {
    let a = CountingNode::new();
    let b = CountingNode::new();
    let c = CountingNode::new();
    let mut system = System::new()
        .add_node(a.clone())
        .add_node(b.clone())
        .add_node(c.clone());
    assert!(system.start().is_ok());
    assert_eq!(system.get_state(), SystemState::Stopped);
    for node in [&a, &b, &c] {
        assert_eq!(node.starting_runs.get(), 1);
        assert_eq!(node.running_runs.get(), 1);
        assert_eq!(node.stopping_runs.get(), 1);
    }
}

/// A node that asks for graceful shutdown during one phase.
struct GracefulNode {
    during_starting: bool,
    stopping_runs: Rc<Cell<u32>>,
    running_runs: Rc<Cell<u32>>,
}

impl Node for GracefulNode {
    fn starting(&mut self, ctx: &mut Context, _mailbox: &mut Mailbox) {
        if self.during_starting {
            ctx.request_shutdown();
        }
    }

    fn running(&mut self, ctx: &mut Context, _mailbox: &mut Mailbox) {
        self.running_runs.set(self.running_runs.get() + 1);
        if !self.during_starting {
            ctx.request_shutdown();
        }
    }

    fn stopping(&mut self, _ctx: &mut Context, _mailbox: &mut Mailbox) {
        self.stopping_runs.set(self.stopping_runs.get() + 1);
    }
}

#[test]
fn graceful_shutdown_during_starting_skips_running_but_not_stopping() {
    let stopping_runs = Rc::new(Cell::new(0));
    let running_runs = Rc::new(Cell::new(0));
    let node = GracefulNode {
        during_starting: true,
        stopping_runs: stopping_runs.clone(),
        running_runs: running_runs.clone(),
    };
    let mut system = System::new().add_node(node);
    assert!(system.start().is_ok());
    assert_eq!(system.get_state(), SystemState::Stopped);
    assert_eq!(running_runs.get(), 0);
    assert_eq!(stopping_runs.get(), 1);
}

#[test]
fn graceful_shutdown_during_running_still_runs_stopping() {
    let stopping_runs = Rc::new(Cell::new(0));
    let running_runs = Rc::new(Cell::new(0));
    let node = GracefulNode {
        during_starting: false,
        stopping_runs: stopping_runs.clone(),
        running_runs: running_runs.clone(),
    };
    let mut system = System::new().add_node(node);
    assert!(system.start().is_ok());
    assert_eq!(system.get_state(), SystemState::Stopped);
    assert_eq!(running_runs.get(), 1);
    assert_eq!(stopping_runs.get(), 1);
}

/// The first of the two scenario nodes: sends one ping, then immediately
/// requests graceful shutdown.
struct PingSender {
    stopping_runs: Rc<Cell<u32>>,
}

/// The second scenario node: waits for the ping during its running hook.
struct PingReceiver {
    got_ping: Rc<Cell<bool>>,
    stopping_runs: Rc<Cell<u32>>,
}

enum ScenarioNode {
    Sender(PingSender),
    Receiver(PingReceiver),
}

impl Node for ScenarioNode {
    fn running(&mut self, ctx: &mut Context, mailbox: &mut Mailbox) {
        match self {
            ScenarioNode::Sender(_) => {
                mailbox.send(Envelope::new(PING_TAG, vec![1])).unwrap();
                ctx.request_shutdown();
            }
            ScenarioNode::Receiver(receiver) => {
                if let Some(ping) = mailbox.recv(PING_TAG).unwrap() {
                    assert_eq!(ping.payload, vec![1]);
                    receiver.got_ping.set(true);
                }
            }
        }
    }

    fn stopping(&mut self, _ctx: &mut Context, _mailbox: &mut Mailbox) {
        match self {
            ScenarioNode::Sender(sender) => {
                sender.stopping_runs.set(sender.stopping_runs.get() + 1)
            }
            ScenarioNode::Receiver(receiver) => {
                receiver.stopping_runs.set(receiver.stopping_runs.get() + 1)
            }
        }
    }
}

#[test]
fn ping_then_graceful_shutdown_scenario() {
    let a_stopping = Rc::new(Cell::new(0));
    let b_stopping = Rc::new(Cell::new(0));
    let got_ping = Rc::new(Cell::new(false));
    let mut system = System::new()
        .add_node(ScenarioNode::Sender(PingSender {
            stopping_runs: a_stopping.clone(),
        }))
        .add_node(ScenarioNode::Receiver(PingReceiver {
            got_ping: got_ping.clone(),
            stopping_runs: b_stopping.clone(),
        }));

    let outcome = system.start();

    assert!(outcome.is_ok());
    assert!(got_ping.get());
    assert_eq!(a_stopping.get(), 1);
    assert_eq!(b_stopping.get(), 1);
    assert_eq!(system.get_state(), SystemState::Stopped);
}

/// A node whose running hook does three rounds of work, then requests
/// emergency shutdown.
struct EmergencyNode {
    counter: Rc<Cell<i32>>,
    stopping_runs: Rc<Cell<u32>>,
}

impl Node for EmergencyNode {
    fn running(&mut self, ctx: &mut Context, _mailbox: &mut Mailbox) {
        loop {
            if self.counter.get() == 3 {
                ctx.request_emergency_shutdown();
                return;
            } else {
                self.counter.set(self.counter.get() + 1);
            }
        }
    }

    fn stopping(&mut self, _ctx: &mut Context, _mailbox: &mut Mailbox) {
        self.stopping_runs.set(self.stopping_runs.get() + 1);
    }
}

#[test]
fn emergency_shutdown_scenario() {
    let counter = Rc::new(Cell::new(0));
    let stopping_runs = Rc::new(Cell::new(0));
    let mut system = System::new().add_node(EmergencyNode {
        counter: counter.clone(),
        stopping_runs: stopping_runs.clone(),
    });

    let outcome = system.start();

    assert_eq!(outcome, Err(SystemError::Shutdown));
    assert_eq!(counter.get(), 3);
    assert_eq!(stopping_runs.get(), 0);
    assert_eq!(system.get_state(), SystemState::Running);
}

/// A node that asks for emergency shutdown while the system is starting.
struct EmergencyAtStart {
    stopping_runs: Rc<Cell<u32>>,
    running_runs: Rc<Cell<u32>>,
}

impl Node for EmergencyAtStart {
    fn starting(&mut self, ctx: &mut Context, _mailbox: &mut Mailbox) {
        ctx.request_emergency_shutdown();
    }

    fn running(&mut self, _ctx: &mut Context, _mailbox: &mut Mailbox) {
        self.running_runs.set(self.running_runs.get() + 1);
    }

    fn stopping(&mut self, _ctx: &mut Context, _mailbox: &mut Mailbox) {
        self.stopping_runs.set(self.stopping_runs.get() + 1);
    }
}

#[test]
fn emergency_during_starting_bypasses_everything() {
    let stopping_runs = Rc::new(Cell::new(0));
    let running_runs = Rc::new(Cell::new(0));
    let mut system = System::new().add_node(EmergencyAtStart {
        stopping_runs: stopping_runs.clone(),
        running_runs: running_runs.clone(),
    });

    let outcome = system.start();

    assert_eq!(outcome, Err(SystemError::Shutdown));
    assert_eq!(running_runs.get(), 0);
    assert_eq!(stopping_runs.get(), 0);
    assert_eq!(system.get_state(), SystemState::Starting);
}

/// A node that asks for both kinds of shutdown in the same phase.
struct BothNode;

impl Node for BothNode {
    fn running(&mut self, ctx: &mut Context, _mailbox: &mut Mailbox) {
        ctx.request_shutdown();
        ctx.request_emergency_shutdown();
    }
}

#[test]
fn emergency_beats_graceful_when_both_are_requested() {
    let mut system = System::new().add_node(BothNode);
    assert_eq!(system.start(), Err(SystemError::Shutdown));
    assert_eq!(system.get_state(), SystemState::Running);
}
