use sentinai::realtime::{
    EventBus, PipelineEvent, ProjectStream, RealtimeEvent, Recv, SecurityEvent, StreamStep,
    EVENT_BACKLOG_CAPACITY,
};

fn pipeline_event(project: u128, pipeline: u128) -> RealtimeEvent {
    RealtimeEvent::PipelineCreated(PipelineEvent { project_id: project, pipeline_id: pipeline })
}

fn finding_event(project: u128, finding: u128) -> RealtimeEvent {
    RealtimeEvent::SecurityFindingCreated(SecurityEvent {
        project_id: project,
        finding_id: finding,
        severity: "high".to_string(),
        description: "Found exposed token".to_string(),
    })
}

fn expect_pipeline(step: StreamStep) -> (u128, u128) {
    match step {
        StreamStep::Event(RealtimeEvent::PipelineCreated(e)) => (e.project_id, e.pipeline_id),
        _ => panic!("expected a pipeline event"),
    }
}

#[test]
fn stream_observes_only_its_project_in_order() {
    let mut bus = EventBus::new(EVENT_BACKLOG_CAPACITY);
    let mut stream = ProjectStream::open(&bus, 1);
    bus.publish(pipeline_event(1, 100));
    bus.publish(finding_event(2, 900));
    bus.publish(pipeline_event(1, 101));

    assert_eq!(expect_pipeline(stream.next_step(&bus)), (1, 100));
    assert_eq!(expect_pipeline(stream.next_step(&bus)), (1, 101));
    assert!(matches!(stream.next_step(&bus), StreamStep::KeepAlive));
}

#[test]
fn foreign_projects_are_never_observed() {
    let mut bus = EventBus::new(EVENT_BACKLOG_CAPACITY);
    let mut stream = ProjectStream::open(&bus, 1);
    bus.publish(finding_event(2, 1));
    bus.publish(pipeline_event(3, 2));
    assert!(matches!(stream.next_step(&bus), StreamStep::KeepAlive));
}

#[test]
fn every_active_subscriber_observes_each_event_once() {
    let mut bus = EventBus::new(EVENT_BACKLOG_CAPACITY);
    let mut s1 = ProjectStream::open(&bus, 5);
    let mut s2 = ProjectStream::open(&bus, 5);
    let mut s3 = ProjectStream::open(&bus, 5);
    bus.publish(pipeline_event(5, 50));
    bus.publish(pipeline_event(5, 51));

    for s in [&mut s1, &mut s2, &mut s3] {
        assert_eq!(expect_pipeline(s.next_step(&bus)), (5, 50));
        assert_eq!(expect_pipeline(s.next_step(&bus)), (5, 51));
        assert!(matches!(s.next_step(&bus), StreamStep::KeepAlive));
    }
}

#[test]
fn subscriber_only_sees_events_after_subscribing() {
    let mut bus = EventBus::new(EVENT_BACKLOG_CAPACITY);
    bus.publish(pipeline_event(1, 1));
    let mut sub = bus.subscribe();
    assert!(matches!(bus.recv(&mut sub), Recv::Empty));
    bus.publish(pipeline_event(1, 2));
    match bus.recv(&mut sub) {
        Recv::Event(RealtimeEvent::PipelineCreated(e)) => assert_eq!(e.pipeline_id, 2),
        _ => panic!("expected the second event"),
    }
}

#[test]
fn publish_without_subscribers_is_silent() {
    let mut bus = EventBus::new(EVENT_BACKLOG_CAPACITY);
    for i in 0..250u128 {
        bus.publish(pipeline_event(1, i));
    }
    // The bus never blocked or failed; a later subscriber starts fresh.
    let mut sub = bus.subscribe();
    assert!(matches!(bus.recv(&mut sub), Recv::Empty));
}

#[test]
fn lagging_subscriber_observes_overflow() {
    let mut bus = EventBus::new(2);
    let mut sub = bus.subscribe();
    bus.publish(pipeline_event(1, 1));
    bus.publish(pipeline_event(1, 2));
    bus.publish(pipeline_event(1, 3));
    // The backlog of two dropped the first event while `sub` still needed it.
    assert!(matches!(bus.recv(&mut sub), Recv::Lagged));

    let mut stream = ProjectStream::open(&bus, 1);
    bus.publish(pipeline_event(1, 4));
    bus.publish(pipeline_event(1, 5));
    bus.publish(pipeline_event(1, 6));
    assert!(matches!(stream.next_step(&bus), StreamStep::Lagged));
}

#[test]
fn per_publisher_order_is_kept_within_backlog() {
    let mut bus = EventBus::new(3);
    let mut sub = bus.subscribe();
    bus.publish(pipeline_event(1, 10));
    bus.publish(pipeline_event(2, 20));
    bus.publish(pipeline_event(3, 30));
    let mut seen = Vec::new();
    while let Recv::Event(RealtimeEvent::PipelineCreated(e)) = bus.recv(&mut sub) {
        seen.push(e.pipeline_id);
    }
    assert_eq!(seen, vec![10, 20, 30]);
}

#[test]
fn backlog_drops_only_beyond_capacity() {
    let mut bus = EventBus::new(2);
    let mut sub = bus.subscribe();
    bus.publish(pipeline_event(1, 1));
    bus.publish(pipeline_event(1, 2));
    // Exactly at capacity nothing was dropped yet.
    match bus.recv(&mut sub) {
        Recv::Event(RealtimeEvent::PipelineCreated(e)) => assert_eq!(e.pipeline_id, 1),
        _ => panic!("expected the first event"),
    }
    match bus.recv(&mut sub) {
        Recv::Event(RealtimeEvent::PipelineCreated(e)) => assert_eq!(e.pipeline_id, 2),
        _ => panic!("expected the second event"),
    }
}
