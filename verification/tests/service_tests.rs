use sentinai::auth::authorize_header;
use sentinai::domain::{Config, HealthResponse, Project};
use sentinai::jwt::create_token_at;
use sentinai::realtime::{
    EventBus, PipelineEvent, ProjectStream, RealtimeEvent, SecurityEvent, StreamStep,
    EVENT_BACKLOG_CAPACITY,
};
use sentinai::services::{
    check_project_access, mock_profile, open_stream, profile_outcome, scan_findings_plan,
};
use sentinai::AppError;

#[test]
fn authenticated_owner_streams_only_their_project() {
    // Issue a token for subject U1, open a stream for project P1 owned by U1,
    // publish P1's pipeline, a foreign finding, P1's second pipeline: the
    // stream observes exactly the two pipelines, in order, and never the
    // foreign finding.
    let u1: u128 = 1;
    let p1: u128 = 10;
    let p2: u128 = 20;
    let secret = "stream-secret";

    let token = create_token_at(u1, secret, 1_000);
    let header = format!("Bearer {}", token);
    let subject = authorize_header(Some(&header), secret, 1_500).unwrap();
    assert_eq!(subject, u1);

    let stored = Project {
        id: p1,
        user_id: u1,
        name: "p1".to_string(),
        repository_url: "https://url".to_string(),
        created_at: 0,
    };
    let project = check_project_access(Some(stored), subject).unwrap();

    let mut bus = EventBus::new(EVENT_BACKLOG_CAPACITY);
    let mut stream = ProjectStream::open(&bus, project.id);

    bus.publish(RealtimeEvent::PipelineCreated(PipelineEvent {
        project_id: p1,
        pipeline_id: 100,
    }));
    bus.publish(RealtimeEvent::SecurityFindingCreated(SecurityEvent {
        project_id: p2,
        finding_id: 900,
        severity: "high".to_string(),
        description: "Found exposed token".to_string(),
    }));
    bus.publish(RealtimeEvent::PipelineCreated(PipelineEvent {
        project_id: p1,
        pipeline_id: 101,
    }));

    let mut observed = Vec::new();
    loop {
        match stream.next_step(&bus) {
            StreamStep::Event(RealtimeEvent::PipelineCreated(e)) => {
                observed.push(e.pipeline_id);
            }
            StreamStep::Event(RealtimeEvent::SecurityFindingCreated(_)) => {
                panic!("a foreign finding leaked into the stream");
            }
            StreamStep::KeepAlive => break,
            StreamStep::Lagged => panic!("stream lagged unexpectedly"),
        }
    }
    assert_eq!(observed, vec![100, 101]);
}

#[test]
fn stream_opens_only_for_the_owner() {
    let bus = EventBus::new(EVENT_BACKLOG_CAPACITY);
    let stored = Project {
        id: 10,
        user_id: 1,
        name: "p1".to_string(),
        repository_url: "https://url".to_string(),
        created_at: 0,
    };
    let stream = open_stream(&bus, Some(stored), 1).unwrap();
    assert_eq!(stream.project(), 10);

    let foreign = Project {
        id: 10,
        user_id: 1,
        name: "p1".to_string(),
        repository_url: "https://url".to_string(),
        created_at: 0,
    };
    match open_stream(&bus, Some(foreign), 2) {
        Err(AppError::NotFound(msg)) => assert_eq!(msg, "Project not found"),
        _ => panic!("a foreign subject must not open the stream"),
    }
    match open_stream(&bus, None, 2) {
        Err(AppError::NotFound(msg)) => assert_eq!(msg, "Project not found"),
        _ => panic!("an absent project must not open the stream"),
    }
}

#[test]
fn scan_plan_lists_the_fixed_findings() {
    let plan = scan_findings_plan();
    assert_eq!(plan.len(), 2);
    assert_eq!(plan[0].0, "high");
    assert_eq!(plan[0].1, "Detected outdated OpenSSL dependency in Cargo.lock");
    assert_eq!(plan[1].0, "medium");
    assert_eq!(plan[1].1, "Missing security headers in API response");
}

#[test]
fn mock_profile_answers_only_the_test_pair() {
    let hosted = "postgres://user:pw@host/neondb";
    let u = mock_profile("mock-token", hosted).expect("canned profile expected");
    assert_eq!(u.id, 123456789);
    assert_eq!(u.login, "mock_user");
    assert_eq!(u.email.as_deref(), Some("mock@example.com"));

    assert!(mock_profile("mock-token", "postgres://localhost/dev").is_none());
    assert!(mock_profile("real-token", hosted).is_none());
}

#[test]
fn provider_failure_surfaces_as_authentication_failure() {
    match profile_outcome(false, false, None) {
        Err(AppError::AuthError(msg)) => assert_eq!(msg, "GitHub API error"),
        _ => panic!("expected an authentication failure for no response"),
    }
    match profile_outcome(true, false, None) {
        Err(AppError::AuthError(msg)) => assert_eq!(msg, "Invalid GitHub token"),
        _ => panic!("expected an authentication failure"),
    }
    match profile_outcome(true, true, None) {
        Err(AppError::InternalServerError(_)) => {}
        _ => panic!("expected an internal failure"),
    }
    let u = sentinai::domain::GithubUser {
        id: 5,
        login: "someone".to_string(),
        email: None,
    };
    assert_eq!(profile_outcome(true, true, Some(u)).unwrap().id, 5);
}

#[test]
fn error_status_codes_follow_the_taxonomy() {
    assert_eq!(AppError::DatabaseError("x".to_string()).status_code(), 500);
    assert_eq!(AppError::AuthError("x".to_string()).status_code(), 401);
    assert_eq!(AppError::NotFound("x".to_string()).status_code(), 404);
    assert_eq!(AppError::InternalServerError("x".to_string()).status_code(), 500);
}

#[test]
fn port_falls_back_and_validates() {
    assert_eq!(Config::port_from_value(None).unwrap(), 8080);
    assert_eq!(Config::port_from_value(Some("9000")).unwrap(), 9000);
    assert!(Config::port_from_value(Some("not-a-port")).is_err());
    assert!(Config::port_from_value(Some("70000")).is_err());
    assert_eq!(Config::port_from_value(Some("65535")).unwrap(), 65535);
    assert!(Config::port_from_value(Some("65536")).is_err());
    assert!(Config::port_from_value(Some("")).is_err());
    // Exactly what u16 parsing accepts: leading zeros and a leading plus.
    assert_eq!(Config::port_from_value(Some("0080")).unwrap(), 80);
    assert_eq!(Config::port_from_value(Some("+443")).unwrap(), 443);
    assert!(Config::port_from_value(Some("+")).is_err());
    assert!(Config::port_from_value(Some("-1")).is_err());
}

#[test]
fn health_report_is_ok() {
    let h = HealthResponse::new("1.2.3".to_string());
    assert_eq!(h.status(), "ok");
    assert_eq!(h.version(), "1.2.3");
}
