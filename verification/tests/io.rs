//! Binding, accepting, draining and reporting.
use conduit::config::workers::WorkerCount;
use conduit::io::bind::{listen_backlog, BindPlan};
use conduit::io::serve::{worker_name, BindError, ServeSpec, ShutdownReport, ShutdownTrigger};
use conduit::io::worker::{
    after_accept, drain_step, keep_accepting, AcceptAction, AcceptEvent, DrainStep, WorkerCounts,
};
use conduit::proto::cancel::Cancellation;
use conduit::time::Duration;

fn spec(listeners: &[&str], workers: usize) -> ServeSpec {
    ServeSpec::new(
        listeners.iter().map(|s| s.to_string()).collect(),
        WorkerCount::new(workers).unwrap(),
    )
}

#[test]
fn no_listeners_rejected() {
    let err = BindPlan::new(&spec(&[], 1)).expect_err("empty listeners must fail");
    assert!(matches!(err, BindError::NoListeners));
}

#[test]
fn serve_spec_defaults() {
    let s = spec(&["127.0.0.1:0"], 2);
    assert!(s.cpu_affinity);
    assert_eq!(s.shutdown_deadline, Duration::from_secs(30));
    assert!(s.tcp_nodelay);
    assert_eq!(s.backlog, 1024);
    assert_eq!(s.uring_entries, 1024);
    assert_eq!(s.poll_interval, Duration::from_millis(50));
    assert_eq!(s.core_for(1, 2), Some(1));
    assert_eq!(s.core_for(2, 2), None);
    let mut s = s;
    s.cpu_affinity = false;
    assert_eq!(s.core_for(0, 2), None);
}

#[test]
fn workers_share_the_resolved_port() {
    let mut plan = BindPlan::new(&spec(&["127.0.0.1:0", "127.0.0.1:80"], 3)).unwrap();
    let mut asked = Vec::new();
    while let Some(t) = plan.next() {
        asked.push((t.addr.clone(), t.worker));
        let local = if t.addr == "127.0.0.1:0" {
            "127.0.0.1:4711".to_string()
        } else {
            t.addr
        };
        plan = plan.advance(Ok(local)).unwrap();
    }
    let expect = |a: &str, w: usize| (a.to_string(), w);
    assert_eq!(
        asked,
        vec![
            expect("127.0.0.1:0", 0),
            expect("127.0.0.1:4711", 1),
            expect("127.0.0.1:4711", 2),
            expect("127.0.0.1:80", 0),
            expect("127.0.0.1:80", 1),
            expect("127.0.0.1:80", 2),
        ]
    );
    assert_eq!(plan.local_addrs(), &vec!["127.0.0.1:4711", "127.0.0.1:80"]);
}

#[test]
fn bind_failure_names_the_address() {
    let plan = BindPlan::new(&spec(&["127.0.0.1:0"], 2)).unwrap();
    let plan = plan.advance(Ok("127.0.0.1:9".to_string())).unwrap();
    match plan.advance(Err("in use".to_string())) {
        Err(BindError::Bind { addr, source }) => {
            assert_eq!((addr.as_str(), source.as_str()), ("127.0.0.1:9", "in use"));
        }
        other => panic!("got {other:?}"),
    }
}

#[test]
fn bind_error_messages() {
    assert_eq!(BindError::NoListeners.message(), "listener list is empty");
    let e = BindError::Bind {
        addr: "a:1".to_string(),
        source: "x".to_string(),
    };
    assert_eq!(e.message(), "bind failed for a:1");
    assert_eq!(
        BindError::ThreadSpawn("x".to_string()).message(),
        "worker thread spawn failed"
    );
}

#[test]
fn backlog_has_to_fit() {
    assert_eq!(listen_backlog(1024), Some(1024));
    assert_eq!(listen_backlog(2_147_483_647), Some(i32::MAX));
    assert_eq!(listen_backlog(2_147_483_648), None);
}

#[test]
fn accept_loop_goes_on_after_errors() {
    assert!(keep_accepting(false));
    assert!(!keep_accepting(true));
    assert_eq!(
        after_accept(AcceptEvent::Connection, true),
        AcceptAction::Serve { nodelay: true }
    );
    assert_eq!(after_accept(AcceptEvent::Failed, true), AcceptAction::Report);
    assert_eq!(after_accept(AcceptEvent::Idle, false), AcceptAction::Again);
    assert_eq!(after_accept(AcceptEvent::Closed, false), AcceptAction::Stop);
}

fn counts(accepted: u64, completed: u64) -> WorkerCounts {
    let mut c = WorkerCounts::default();
    for _ in 0..accepted {
        c.accept();
    }
    for _ in 0..completed {
        c.complete();
    }
    c
}

#[test]
fn drain_ends_when_everything_is_through() {
    let poll = Duration::from_millis(50);
    let deadline = Duration::from_secs(1);
    let early = Duration::from_millis(999);
    assert_eq!(drain_step(&counts(2, 2), deadline, deadline, poll), DrainStep::Done);
    assert_eq!(
        drain_step(&counts(2, 1), early, deadline, poll),
        DrainStep::Wait(poll)
    );
    assert_eq!(
        drain_step(&counts(2, 1), deadline, deadline, poll),
        DrainStep::DeadlineElapsed
    );
    assert_eq!(counts(3, 1).accepted_count(), 3);
    assert_eq!(counts(3, 1).completed_count(), 1);
}

#[test]
fn report_sums_up_the_workers() {
    let elapsed = Duration::from_secs(9);
    let r = ShutdownReport::sum_up(&vec![Some(counts(3, 3)), None, Some(counts(5, 4))], elapsed);
    assert_eq!((r.accepted, r.completed), (8, 7));
    assert_eq!(r.elapsed, elapsed);
    let clean = ShutdownReport::sum_up(&vec![Some(counts(3, 3)), Some(counts(5, 5))], elapsed);
    assert_eq!(clean.accepted, clean.completed);
    let none = ShutdownReport::default();
    assert_eq!((none.accepted, none.completed), (0, 0));
}

#[test]
fn triggers_share_the_flag() {
    let flag = Cancellation::new();
    let t = ShutdownTrigger::on(&flag);
    let t2 = t.clone();
    assert_eq!(t.debug_text(), "ShutdownTrigger { triggered: false }");
    t2.cancel();
    assert!(flag.is_cancelled());
    t2.cancel();
    assert_eq!(t.debug_text(), "ShutdownTrigger { triggered: true }");
}

#[test]
fn worker_threads_have_names() {
    assert_eq!(worker_name("conduit-io-w", 0), "conduit-io-w0");
    assert_eq!(worker_name("conduit-io-tokio-w", 12), "conduit-io-tokio-w12");
}
