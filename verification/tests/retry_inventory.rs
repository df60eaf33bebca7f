use ecs_sync::inventory::describing_description;
use ecs_sync::inventory::export_desired_counts;
use ecs_sync::inventory::extract_service;
use ecs_sync::inventory::listing_description;
use ecs_sync::inventory::reference_description;
use ecs_sync::inventory::ServiceListing;
use ecs_sync::model::DescribeFailure;
use ecs_sync::model::ServiceDescriptor;
use ecs_sync::model::ServiceError;
use ecs_sync::retry::classify;
use ecs_sync::retry::retry_message;
use ecs_sync::retry::AttemptOutcome;
use ecs_sync::retry::ErrorClass;
use ecs_sync::retry::OperationFamily;
use ecs_sync::retry::RemoteError;
use ecs_sync::retry::RetryStep;
use ecs_sync::retry::RetryTracker;
use ecs_sync::text::contains_substring;

fn svc(name: &str) -> ServiceDescriptor {
    ServiceDescriptor {
        service_name: Some(name.to_string()),
        cluster_arn: None,
        task_definition: Some("task:1".to_string()),
        desired_count: Some(2),
        running_count: Some(2),
        deployment_configuration: None,
        launch_type: None,
        platform_version: None,
        health_check_grace_period_seconds: None,
        network_configuration: None,
        placement_constraints: None,
        placement_strategy: None,
        load_balancers: None,
    }
}

const SCHEDULER_THROTTLE: &str =
    "{\"__type\":\"ThrottlingException\",\"message\":\"Rate exceeded\"}";

#[test]
fn scheduler_throttle_body_is_transient() {
    let err = RemoteError::Unclassified { body: SCHEDULER_THROTTLE.to_string() };
    assert_eq!(classify(&OperationFamily::ServiceScheduler, &err), ErrorClass::Transient);
}

#[test]
fn scheduler_match_is_exact() {
    // a body that merely contains the marker is not the marker
    let body = format!("prefix {}", SCHEDULER_THROTTLE);
    let err = RemoteError::Unclassified { body };
    assert_eq!(classify(&OperationFamily::ServiceScheduler, &err), ErrorClass::Permanent);
}

#[test]
fn load_balancer_match_is_by_substring() {
    let body = "<ErrorResponse><Error><Code>Throttling</Code><Message>Rate exceeded</Message></Error></ErrorResponse>".to_string();
    let err = RemoteError::Unclassified { body };
    assert_eq!(classify(&OperationFamily::LoadBalancer, &err), ErrorClass::Transient);
}

#[test]
fn load_balancer_other_body_is_permanent() {
    let err = RemoteError::Unclassified { body: "<Code>AccessDenied</Code>".to_string() };
    assert_eq!(classify(&OperationFamily::LoadBalancer, &err), ErrorClass::Permanent);
}

#[test]
fn structured_errors_are_permanent() {
    let err = RemoteError::Structured { description: "validation error".to_string() };
    assert_eq!(classify(&OperationFamily::ServiceScheduler, &err), ErrorClass::Permanent);
    let err = RemoteError::Structured { description: SCHEDULER_THROTTLE.to_string() };
    assert_eq!(classify(&OperationFamily::LoadBalancer, &err), ErrorClass::Permanent);
}

#[test]
fn substring_search_finds_and_rejects() {
    assert!(contains_substring("abcdef", "cde"));
    assert!(contains_substring("abcdef", ""));
    assert!(contains_substring("abc", "abc"));
    assert!(!contains_substring("abc", "abcd"));
    assert!(!contains_substring("abcdef", "cdf"));
}

#[test]
fn transient_failures_then_success_logs_one_retry_each() {
    // fails with a transient signature exactly three times, then succeeds
    let mut tracker = RetryTracker::new();
    for _ in 0..3 {
        let step = tracker.observe(&AttemptOutcome::Failed(ErrorClass::Transient));
        assert_eq!(step, RetryStep::LogAndRetry);
    }
    let step = tracker.observe(&AttemptOutcome::Succeeded);
    assert_eq!(step, RetryStep::Finish);
    assert_eq!(tracker.retries, 3);
}

#[test]
fn permanent_failure_returns_after_one_attempt() {
    let mut tracker = RetryTracker::new();
    let step = tracker.observe(&AttemptOutcome::Failed(ErrorClass::Permanent));
    assert_eq!(step, RetryStep::Abort);
    assert_eq!(tracker.retries, 0);
}

#[test]
fn retry_message_has_the_documented_shape() {
    let m = retry_message("listing services in prod", "Rate exceeded");
    assert_eq!(m, "listing services in prod failed due to Rate exceeded. Retrying");
}

#[test]
fn descriptions_name_their_subjects() {
    assert_eq!(listing_description("prod"), "listing services in prod");
    assert_eq!(describing_description("prod", "web"), "Describing prod/web");
    assert_eq!(reference_description("task:1"), "describing task:1");
}

#[test]
fn listing_accumulates_pages_in_request_order() {
    let mut listing = ServiceListing::new();
    assert!(listing.in_progress());
    assert_eq!(listing.next_token().as_deref(), Some(""));

    listing.absorb_page(
        Some(vec!["arn:a".to_string(), "arn:b".to_string()]),
        Some("page-2".to_string()),
    );
    assert!(listing.in_progress());
    assert_eq!(listing.next_token().as_deref(), Some("page-2"));

    listing.absorb_page(None, Some("page-3".to_string()));
    listing.absorb_page(Some(vec!["arn:c".to_string()]), None);
    assert!(!listing.in_progress());

    let names = listing.finish();
    assert_eq!(names, vec!["arn:a".to_string(), "arn:b".to_string(), "arn:c".to_string()]);
}

#[test]
fn describe_failures_are_fatal() {
    let failures = vec![DescribeFailure {
        arn: Some("arn:web".to_string()),
        reason: Some("MISSING".to_string()),
    }];
    let e = extract_service("web", Some(vec![svc("web")]), Some(failures)).unwrap_err();
    assert!(matches!(e, ServiceError::DescribeFailures { failures } if failures.len() == 1));
}

#[test]
fn describe_without_descriptor_is_fatal() {
    let e = extract_service("web", Some(Vec::new()), None).unwrap_err();
    match e {
        ServiceError::MissingServiceDescription { service_name } => assert_eq!(service_name, "web"),
        other => panic!("unexpected error: {:?}", other),
    }
    assert!(extract_service("web", None, Some(Vec::new())).is_err());
}

#[test]
fn describe_returns_the_reported_descriptor() {
    let s = extract_service("web", Some(vec![svc("web")]), Some(Vec::new())).unwrap();
    assert_eq!(s.service_name.as_deref(), Some("web"));
}

#[test]
fn export_projects_names_to_desired_counts() {
    let mut a = svc("a");
    a.desired_count = Some(1);
    let mut b = svc("b");
    b.desired_count = Some(4);
    let pairs = export_desired_counts(&vec![a, b]).unwrap();
    assert_eq!(pairs, vec![("a".to_string(), 1), ("b".to_string(), 4)]);
}

#[test]
fn export_requires_names_and_counts() {
    let mut unnamed = svc("a");
    unnamed.service_name = None;
    let e = export_desired_counts(&vec![unnamed]).unwrap_err();
    assert!(matches!(e, ServiceError::MissingServiceName));

    let mut uncounted = svc("b");
    uncounted.desired_count = None;
    let e = export_desired_counts(&vec![uncounted]).unwrap_err();
    match e {
        ServiceError::MissingDesiredCount { service_name } => assert_eq!(service_name, "b"),
        other => panic!("unexpected error: {:?}", other),
    }
}
