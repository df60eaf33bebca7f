use ecs_sync::model::ServiceDescriptor;
use ecs_sync::model::ServiceError;
use ecs_sync::model::service_name;
use ecs_sync::update::lookup_count;
use ecs_sync::update::parse_desired_count;
use ecs_sync::update::update_service;
use ecs_sync::update::updating_description;
use ecs_sync::update::DesiredCountOptions;
use ecs_sync::update::ServiceModification;

fn svc(name: Option<&str>) -> ServiceDescriptor {
    ServiceDescriptor {
        service_name: name.map(|n| n.to_string()),
        cluster_arn: None,
        task_definition: Some("task:1".to_string()),
        desired_count: Some(2),
        running_count: Some(2),
        deployment_configuration: None,
        launch_type: None,
        platform_version: None,
        health_check_grace_period_seconds: None,
        network_configuration: None,
        placement_constraints: None,
        placement_strategy: None,
        load_balancers: None,
    }
}

#[test]
fn uniform_count_applies_to_every_service() {
    // update desired-count 5 on a cluster with 3 services: all 3 get 5
    let cluster = "prod".to_string();
    let services = vec![svc(Some("a")), svc(Some("b")), svc(Some("c"))];
    let modification = ServiceModification::DesiredCount { count: DesiredCountOptions::Number(5) };
    let mut planned = Vec::new();
    for service in &services {
        planned.push(update_service(&cluster, service, &modification).unwrap());
    }
    assert_eq!(planned.len(), 3);
    for (plan, name) in planned.iter().zip(["a", "b", "c"]) {
        assert_eq!(plan.cluster, "prod");
        assert_eq!(plan.service, name);
        assert_eq!(plan.desired_count, 5);
    }
}

#[test]
fn mapping_applies_per_service_name() {
    let cluster = "prod".to_string();
    let mapping = vec![("a".to_string(), 7), ("b".to_string(), 0)];
    let modification =
        ServiceModification::DesiredCount { count: DesiredCountOptions::Mapping(mapping) };
    let plan = update_service(&cluster, &svc(Some("b")), &modification).unwrap();
    assert_eq!(plan.desired_count, 0);
    let plan = update_service(&cluster, &svc(Some("a")), &modification).unwrap();
    assert_eq!(plan.desired_count, 7);
}

#[test]
fn service_absent_from_mapping_is_a_caller_error() {
    let cluster = "prod".to_string();
    let mapping = vec![("a".to_string(), 7)];
    let modification =
        ServiceModification::DesiredCount { count: DesiredCountOptions::Mapping(mapping) };
    let e = update_service(&cluster, &svc(Some("z")), &modification).unwrap_err();
    match e {
        ServiceError::MissingCountForService { service_name } => assert_eq!(service_name, "z"),
        other => panic!("unexpected error: {:?}", other),
    }
}

#[test]
fn update_requires_a_service_name() {
    let cluster = "prod".to_string();
    let modification = ServiceModification::DesiredCount { count: DesiredCountOptions::Number(5) };
    let e = update_service(&cluster, &svc(None), &modification).unwrap_err();
    assert!(matches!(e, ServiceError::MissingServiceName));
}

#[test]
fn lookup_takes_the_first_matching_pair() {
    let mapping = vec![("a".to_string(), 1), ("a".to_string(), 2)];
    assert_eq!(lookup_count(&mapping, &"a".to_string()), Some(1));
    assert_eq!(lookup_count(&mapping, &"b".to_string()), None);
    assert_eq!(lookup_count(&Vec::new(), &"a".to_string()), None);
}

#[test]
fn service_name_is_demanded_for_mutation() {
    assert_eq!(service_name(&svc(Some("web"))).unwrap(), "web");
    assert!(matches!(service_name(&svc(None)), Err(ServiceError::MissingServiceName)));
}

#[test]
fn counts_parse_as_decimal_literals() {
    assert_eq!(parse_desired_count("5"), Some(5));
    assert_eq!(parse_desired_count("0"), Some(0));
    assert_eq!(parse_desired_count("-3"), Some(-3));
    assert_eq!(parse_desired_count("+7"), Some(7));
    assert_eq!(parse_desired_count("120"), Some(120));
}

#[test]
fn count_range_limits_are_respected() {
    assert_eq!(parse_desired_count("9223372036854775807"), Some(i64::MAX));
    assert_eq!(parse_desired_count("-9223372036854775808"), Some(i64::MIN));
    assert_eq!(parse_desired_count("9223372036854775808"), None);
    assert_eq!(parse_desired_count("-9223372036854775809"), None);
    assert_eq!(parse_desired_count("99999999999999999999999"), None);
}

#[test]
fn non_numbers_do_not_parse() {
    assert_eq!(parse_desired_count(""), None);
    assert_eq!(parse_desired_count("-"), None);
    assert_eq!(parse_desired_count("+"), None);
    assert_eq!(parse_desired_count("abc"), None);
    assert_eq!(parse_desired_count("12x"), None);
    assert_eq!(parse_desired_count("counts.json"), None);
    assert_eq!(parse_desired_count(" 5"), None);
}

#[test]
fn update_description_names_cluster_and_service() {
    assert_eq!(updating_description("prod", "web"), "Updating prod/web");
}
