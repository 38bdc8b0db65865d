use polyblocks::producer::{Producer, ProducerAction, ProducerEvent, ProducerPhase};

#[test]
fn zero_interval_runs_once() {
    let mut p = Producer::new(0);
    assert_eq!(p.step(ProducerEvent::Start), ProducerAction::Launch);
    assert_eq!(p.step(ProducerEvent::RunEnded), ProducerAction::Stop);
    assert_eq!(p.phase, ProducerPhase::Finished);
    let mut launches = 1;
    for _ in 0..1000 {
        for e in [ProducerEvent::Start, ProducerEvent::RunEnded, ProducerEvent::Woke] {
            if p.step(e) == ProducerAction::Launch {
                launches += 1;
            }
        }
    }
    assert_eq!(launches, 1);
}

#[test]
fn nonzero_interval_runs_every_interval() {
    let mut p = Producer::new(30);
    assert_eq!(p.step(ProducerEvent::Start), ProducerAction::Launch);
    let window: u64 = 300;
    let mut elapsed: u64 = 0;
    let mut launches: u64 = 1;
    while elapsed + 30 <= window {
        match p.step(ProducerEvent::RunEnded) {
            ProducerAction::Sleep(n) => {
                assert_eq!(n, 30);
                elapsed += n;
            }
            other => panic!("unexpected {:?}", other),
        }
        assert_eq!(p.step(ProducerEvent::Woke), ProducerAction::Launch);
        launches += 1;
    }
    assert!(launches >= window / 30);
    assert_eq!(launches, 11);
}

#[test]
fn stray_events_change_nothing() {
    let mut p = Producer::new(5);
    assert_eq!(p.step(ProducerEvent::Woke), ProducerAction::Wait);
    assert_eq!(p.step(ProducerEvent::RunEnded), ProducerAction::Wait);
    assert_eq!(p.phase, ProducerPhase::Idle);
    assert_eq!(p.step(ProducerEvent::Start), ProducerAction::Launch);
    assert_eq!(p.step(ProducerEvent::Start), ProducerAction::Wait);
    assert_eq!(p.step(ProducerEvent::Woke), ProducerAction::Wait);
    assert_eq!(p.phase, ProducerPhase::Running);
}
