use ecs_sync::model::ServiceDescriptor;
use ecs_sync::model::ServiceError;
use ecs_sync::sync::compare_services;
use ecs_sync::sync::create_service;
use ecs_sync::sync::interpret_create_response;
use ecs_sync::sync::sync_candidates;

fn svc(name: Option<&str>) -> ServiceDescriptor {
    ServiceDescriptor {
        service_name: name.map(|n| n.to_string()),
        cluster_arn: None,
        task_definition: Some("task:1".to_string()),
        desired_count: Some(2),
        running_count: Some(2),
        deployment_configuration: None,
        launch_type: None,
        platform_version: None,
        health_check_grace_period_seconds: None,
        network_configuration: None,
        placement_constraints: None,
        placement_strategy: None,
        load_balancers: None,
    }
}

fn names(services: &[ServiceDescriptor]) -> Vec<String> {
    services.iter().map(|s| s.service_name.clone().unwrap()).collect()
}

#[test]
fn diff_is_source_minus_destination_names() {
    let source = vec![svc(Some("a")), svc(Some("b")), svc(Some("c"))];
    let destination = vec![svc(Some("b")), svc(Some("d"))];
    let diff = compare_services(source, &destination);
    assert_eq!(names(&diff), vec!["a".to_string(), "c".to_string()]);
}

#[test]
fn diff_of_cluster_against_itself_is_empty() {
    let cluster = vec![svc(Some("a")), svc(Some("b"))];
    let again = vec![svc(Some("a")), svc(Some("b"))];
    let diff = compare_services(cluster, &again);
    assert!(diff.is_empty());
}

#[test]
fn diff_of_empty_source_is_empty() {
    let destination = vec![svc(Some("a"))];
    let diff = compare_services(Vec::new(), &destination);
    assert!(diff.is_empty());
}

#[test]
fn diff_against_empty_destination_keeps_everything() {
    let source = vec![svc(Some("a")), svc(Some("b"))];
    let diff = compare_services(source, &Vec::new());
    assert_eq!(names(&diff), vec!["a".to_string(), "b".to_string()]);
}

#[test]
fn diff_matches_unnamed_services_with_each_other() {
    let source = vec![svc(None), svc(Some("a"))];
    let destination = vec![svc(None)];
    let diff = compare_services(source, &destination);
    assert_eq!(diff.len(), 1);
    assert_eq!(diff[0].service_name.as_deref(), Some("a"));
}

#[test]
fn compare_scenario_web_worker() {
    // source {web, worker}, destination {worker}: source-only = [web]
    let source = vec![svc(Some("web")), svc(Some("worker"))];
    let destination = vec![svc(Some("worker"))];
    let source_only = compare_services(source, &destination);
    assert_eq!(names(&source_only), vec!["web".to_string()]);
    assert_eq!(source_only.len(), 1);
}

#[test]
fn sync_skips_services_with_findings() {
    let diff = vec![svc(Some("healthy")), svc(Some("broken")), svc(Some("fine"))];
    let audits = vec![
        Vec::new(),
        vec!["Invalid image references".to_string()],
        Vec::new(),
    ];
    let candidates = sync_candidates(diff, &audits);
    assert_eq!(names(&candidates), vec!["healthy".to_string(), "fine".to_string()]);
}

#[test]
fn sync_twice_leaves_nothing_to_create() {
    // first run: all source-only services audit as healthy and are created
    let source = vec![svc(Some("web")), svc(Some("worker"))];
    let destination = vec![svc(Some("worker"))];
    let first_diff = compare_services(source, &destination);
    let audits: Vec<Vec<String>> = first_diff.iter().map(|_| Vec::new()).collect();
    let created = sync_candidates(first_diff, &audits);

    let mut destination_after = destination;
    destination_after.extend(created);

    // second run with no intervening remote change
    let source_again = vec![svc(Some("web")), svc(Some("worker"))];
    let second_diff = compare_services(source_again, &destination_after);
    assert!(second_diff.is_empty());
}

#[test]
fn role_inferred_for_balanced_external_service() {
    let mut template = svc(Some("web"));
    template.load_balancers = Some(vec![ecs_sync::model::LoadBalancerBinding {
        target_group_arn: Some("arn:tg/web".to_string()),
        load_balancer_name: None,
        container_name: Some("web".to_string()),
        container_port: Some(80),
    }]);
    let plan = create_service("prod".to_string(), template, Some("role".to_string())).unwrap();
    assert_eq!(plan.role.as_deref(), Some("prod-role"));
}

#[test]
fn role_suffix_defaults_when_absent() {
    let mut template = svc(Some("web"));
    template.load_balancers = Some(vec![ecs_sync::model::LoadBalancerBinding {
        target_group_arn: None,
        load_balancer_name: None,
        container_name: None,
        container_port: None,
    }]);
    let plan = create_service("prod".to_string(), template, None).unwrap();
    assert_eq!(plan.role.as_deref(), Some("prod-ECSServiceRole"));
}

#[test]
fn no_role_without_load_balancers() {
    let template = svc(Some("web"));
    let plan = create_service("prod".to_string(), template, Some("role".to_string())).unwrap();
    assert_eq!(plan.role, None);
}

#[test]
fn no_role_with_empty_binding_list() {
    let mut template = svc(Some("web"));
    template.load_balancers = Some(Vec::new());
    let plan = create_service("prod".to_string(), template, Some("role".to_string())).unwrap();
    assert_eq!(plan.role, None);
}

#[test]
fn no_role_for_internal_networking_service() {
    let mut template = svc(Some("web"));
    template.load_balancers = Some(vec![ecs_sync::model::LoadBalancerBinding {
        target_group_arn: Some("arn:tg/web".to_string()),
        load_balancer_name: None,
        container_name: None,
        container_port: None,
    }]);
    template.network_configuration = Some(ecs_sync::model::NetworkConfiguration {
        awsvpc_configuration: Some(ecs_sync::model::AwsvpcConfiguration {
            subnets: vec!["subnet-1".to_string()],
            security_groups: None,
            assign_public_ip: None,
        }),
    });
    let plan = create_service("prod".to_string(), template, Some("role".to_string())).unwrap();
    assert_eq!(plan.role, None);
}

#[test]
fn create_copies_template_fields_verbatim() {
    let mut template = svc(Some("web"));
    template.launch_type = Some("EC2".to_string());
    template.platform_version = Some("1.4.0".to_string());
    template.health_check_grace_period_seconds = Some(30);
    let plan = create_service("prod".to_string(), template, None).unwrap();
    assert_eq!(plan.cluster, "prod");
    assert_eq!(plan.service_name, "web");
    assert_eq!(plan.task_definition, "task:1");
    assert_eq!(plan.desired_count, 2);
    assert_eq!(plan.launch_type.as_deref(), Some("EC2"));
    assert_eq!(plan.platform_version.as_deref(), Some("1.4.0"));
    assert_eq!(plan.health_check_grace_period_seconds, Some(30));
}

#[test]
fn create_requires_service_name() {
    let template = svc(None);
    let e = create_service("prod".to_string(), template, None).unwrap_err();
    assert!(matches!(e, ServiceError::MissingServiceName));
}

#[test]
fn create_requires_desired_count() {
    let mut template = svc(Some("web"));
    template.desired_count = None;
    let e = create_service("prod".to_string(), template, None).unwrap_err();
    match e {
        ServiceError::MissingDesiredCount { service_name } => assert_eq!(service_name, "web"),
        other => panic!("unexpected error: {:?}", other),
    }
}

#[test]
fn create_requires_task_definition() {
    let mut template = svc(Some("web"));
    template.task_definition = None;
    let e = create_service("prod".to_string(), template, None).unwrap_err();
    match e {
        ServiceError::MissingTaskDefinition { service_name } => assert_eq!(service_name, "web"),
        other => panic!("unexpected error: {:?}", other),
    }
}

#[test]
fn creation_response_with_descriptor_is_passed_through() {
    let created = svc(Some("web"));
    let r = interpret_create_response(Ok(Some(created))).unwrap();
    assert_eq!(r.unwrap().service_name.as_deref(), Some("web"));
}

#[test]
fn creation_response_without_descriptor_is_fatal() {
    let e = interpret_create_response(Ok(None)).unwrap_err();
    assert!(matches!(e, ServiceError::NothingCreated));
}

#[test]
fn creation_failure_is_soft() {
    let r = interpret_create_response(Err("boom".to_string())).unwrap();
    assert!(r.is_none());
}
