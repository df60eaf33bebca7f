//! The data model: a service descriptor as the control plane reports it, the
//! dependent records an audit resolves (task templates, image details, target
//! groups), and the error type for fatal precondition and data-integrity
//! failures.
//!
//! All fields are plain values; the surrounding application converts between
//! these types and the remote client's own types at the call boundary.

use vstd::prelude::*;

verus! {

/// One attached load-balancer binding of a service.
#[derive(Debug, Clone)]
pub struct LoadBalancerBinding {
    pub target_group_arn: Option<String>,
    pub load_balancer_name: Option<String>,
    pub container_name: Option<String>,
    pub container_port: Option<i64>,
}

/// The `awsvpc` (internal networking) configuration of a service.
#[derive(Debug, Clone)]
pub struct AwsvpcConfiguration {
    pub subnets: Vec<String>,
    pub security_groups: Option<Vec<String>>,
    pub assign_public_ip: Option<String>,
}

/// The network configuration of a service; present with an `awsvpc` block
/// exactly when the service uses the platform's internal networking mode.
#[derive(Debug, Clone)]
pub struct NetworkConfiguration {
    pub awsvpc_configuration: Option<AwsvpcConfiguration>,
}

/// Rollout limits of a service.
#[derive(Debug, Clone)]
pub struct DeploymentConfiguration {
    pub maximum_percent: Option<i64>,
    pub minimum_healthy_percent: Option<i64>,
}

/// A placement constraint of a service.
#[derive(Debug, Clone)]
pub struct PlacementConstraint {
    pub constraint_type: Option<String>,
    pub expression: Option<String>,
}

/// A placement strategy entry of a service.
#[derive(Debug, Clone)]
pub struct PlacementStrategy {
    pub strategy_type: Option<String>,
    pub field: Option<String>,
}

/// The full remote-reported state of one service, fetched fresh on every
/// query and never cached across commands.
#[derive(Debug, Clone)]
pub struct ServiceDescriptor {
    pub service_name: Option<String>,
    pub cluster_arn: Option<String>,
    pub task_definition: Option<String>,
    pub desired_count: Option<i64>,
    pub running_count: Option<i64>,
    pub deployment_configuration: Option<DeploymentConfiguration>,
    pub launch_type: Option<String>,
    pub platform_version: Option<String>,
    pub health_check_grace_period_seconds: Option<i64>,
    pub network_configuration: Option<NetworkConfiguration>,
    pub placement_constraints: Option<Vec<PlacementConstraint>>,
    pub placement_strategy: Option<Vec<PlacementStrategy>>,
    pub load_balancers: Option<Vec<LoadBalancerBinding>>,
}

/// One container of a task template, optionally naming a container image.
#[derive(Debug, Clone)]
pub struct ContainerDefinition {
    pub name: Option<String>,
    pub image: Option<String>,
}

/// A task template: the versioned specification of containers a service runs.
#[derive(Debug, Clone)]
pub struct TaskTemplate {
    pub container_definitions: Option<Vec<ContainerDefinition>>,
}

/// A resolved image record from the registry.
#[derive(Debug, Clone)]
pub struct ImageDetail {
    pub repository_name: Option<String>,
    pub image_digest: Option<String>,
    pub image_tags: Option<Vec<String>>,
}

/// A resolved target-group record from the load-balancer registry.
#[derive(Debug, Clone)]
pub struct TargetGroup {
    pub target_group_arn: Option<String>,
    pub target_group_name: Option<String>,
}

/// A failure record attached to a describe response.
#[derive(Debug, Clone)]
pub struct DescribeFailure {
    pub arn: Option<String>,
    pub reason: Option<String>,
}

/// A fatal error: a missing required field, a data-integrity failure in a
/// describe response, or malformed input. None of these is retried.
#[derive(Debug)]
pub enum ServiceError {
    /// A service descriptor carries no name.
    MissingServiceName,
    /// The named template service carries no desired count.
    MissingDesiredCount { service_name: String },
    /// The named template service carries no task-template reference.
    MissingTaskDefinition { service_name: String },
    /// A describe response reported failure records for the lookup.
    DescribeFailures { failures: Vec<DescribeFailure> },
    /// A describe response reported zero descriptors for the named service.
    MissingServiceDescription { service_name: String },
    /// A creation call succeeded but returned no descriptor.
    NothingCreated,
    /// An update call succeeded but returned no descriptor.
    NothingUpdated,
    /// An image reference carries no `repository:tag` separator.
    MalformedImageReference { image: String },
    /// A per-service count mapping has no entry for the named service.
    MissingCountForService { service_name: String },
}

/// Name equality as the membership diff uses it: two absent names are equal,
/// an absent name never equals a present one.
pub open spec fn name_eq(a: Option<String>, b: Option<String>) -> bool {
    match (a, b) {
        (Option::None, Option::None) => true,
        (Option::Some(x), Option::Some(y)) => x@ == y@,
        _ => false,
    }
}

/// Decides `name_eq` on two optional names.
pub fn opt_name_eq(a: &Option<String>, b: &Option<String>) -> (r: bool)
    ensures
        r == name_eq(*a, *b),
{
    match (a, b) {
        (Option::None, Option::None) => true,
        (Option::Some(x), Option::Some(y)) => x.eq(y),
        _ => false,
    }
}

/// The name of a service, or the fatal error that it has none: no mutating
/// operation may proceed without it.
pub fn service_name(service: &ServiceDescriptor) -> (r: Result<String, ServiceError>)
    ensures
        match r {
            Ok(n) => service.service_name is Some && n@ == service.service_name.unwrap()@,
            Err(e) => service.service_name is None && e is MissingServiceName,
        },
{
    match &service.service_name {
        Some(n) => Ok(n.clone()),
        None => Err(ServiceError::MissingServiceName),
    }
}

} // verus!
