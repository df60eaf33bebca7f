//! The diff & sync orchestrator's decisions: the source-minus-destination
//! membership diff, the health gate that picks which source-only services may
//! be created, the synthesis of a creation request from a template service
//! (with the access-role inference), and the fail-soft interpretation of a
//! creation response.

use vstd::prelude::*;
use vstd::seq_lib::group_filter_ensures;
use vstd::string::StringExecFns;
use crate::audit::healthy;
use crate::model::name_eq;
use crate::model::opt_name_eq;
use crate::model::service_name;
use crate::model::DeploymentConfiguration;
use crate::model::LoadBalancerBinding;
use crate::model::NetworkConfiguration;
use crate::model::PlacementConstraint;
use crate::model::PlacementStrategy;
use crate::model::ServiceDescriptor;
use crate::model::ServiceError;
use crate::seqs::lemma_filter_contained;
use crate::seqs::lemma_filter_none;
use crate::seqs::lemma_filter_push;

verus! {

/// Some service of `services` carries the name `name`.
pub open spec fn in_cluster(services: Seq<ServiceDescriptor>, name: Option<String>) -> bool {
    exists|j: int| 0 <= j < services.len() && name_eq(services[j].service_name, name)
}

/// The source-only services: every source descriptor whose name does not
/// appear among the destination names, in source enumeration order.
pub open spec fn source_only(
    source: Seq<ServiceDescriptor>,
    destination: Seq<ServiceDescriptor>,
) -> Seq<ServiceDescriptor> {
    source.filter(|s: ServiceDescriptor| !in_cluster(destination, s.service_name))
}

/// Some service of `services` carries `name`.
pub fn contains_name(services: &Vec<ServiceDescriptor>, name: &Option<String>) -> (r: bool)
    ensures
        r == in_cluster(services@, *name),
{
    let n = services.len();
    let mut j: usize = 0;
    while j < n
        invariant
            j <= n,
            n == services@.len(),
            forall|k: int| 0 <= k < j ==> !name_eq(services@[k].service_name, *name),
        decreases n - j,
    {
        if opt_name_eq(&services[j].service_name, name) {
            return true;
        }
        j = j + 1;
    }
    false
}

/// The membership diff: the source services absent (by exact name) from the
/// destination. Name comparison is exact; nothing fuzzy.
pub fn compare_services(
    source: Vec<ServiceDescriptor>,
    destination: &Vec<ServiceDescriptor>,
) -> (r: Vec<ServiceDescriptor>)
    ensures
        r@ == source_only(source@, destination@),
{
    let ghost all = source@;
    let ghost pred = |s: ServiceDescriptor| !in_cluster(destination@, s.service_name);
    let mut remaining = source;
    let mut r: Vec<ServiceDescriptor> = Vec::new();
    while remaining.len() > 0
        invariant
            remaining@.len() <= all.len(),
            remaining@ == all.subrange(all.len() - remaining@.len(), all.len() as int),
            r@ == all.subrange(0, all.len() - remaining@.len()).filter(
                |s: ServiceDescriptor| !in_cluster(destination@, s.service_name),
            ),
        decreases remaining@.len(),
    {
        let ghost p = all.len() - remaining@.len();
        let ghost prefix = all.subrange(0, p as int);
        let ghost next = all.subrange(0, p + 1);
        let s = remaining.remove(0);
        proof {
            assert(s == all[p as int]);
            assert(remaining@ =~= all.subrange(p + 1, all.len() as int));
            assert(next =~= prefix.push(all[p as int]));
            lemma_filter_push(
                prefix,
                |s: ServiceDescriptor| !in_cluster(destination@, s.service_name),
                all[p as int],
            );
        }
        if !contains_name(destination, &s.service_name) {
            r.push(s);
        }
    }
    proof {
        assert(all.subrange(0, all.len() as int) =~= all);
    }
    r
}

/// The diff carries exactly the source services whose names are absent from
/// the destination: every entry comes from the source and its name is not a
/// destination name, and every such source service appears in the diff.
pub proof fn lemma_diff_names(
    source: Seq<ServiceDescriptor>,
    destination: Seq<ServiceDescriptor>,
)
    ensures
        forall|i: int|
            0 <= i < source_only(source, destination).len() ==> !in_cluster(
                destination,
                (#[trigger] source_only(source, destination)[i]).service_name,
            ) && source.contains(source_only(source, destination)[i]),
        forall|j: int|
            0 <= j < source.len() && !in_cluster(
                destination,
                (#[trigger] source[j]).service_name,
            ) ==> source_only(source, destination).contains(source[j]),
{
    broadcast use group_filter_ensures;

    let pred = |s: ServiceDescriptor| !in_cluster(destination, s.service_name);
    let diff = source.filter(pred);
    assert forall|i: int| 0 <= i < diff.len() implies !in_cluster(
        destination,
        (diff[i]).service_name,
    ) && source.contains(diff[i]) by {
        assert(pred(diff[i]));
        assert(diff.contains(diff[i]));
        lemma_filter_contained(source, pred, diff[i]);
    }
}

/// A diff of a cluster against itself is empty: every service's name appears
/// in the cluster, namely at its own position.
pub proof fn lemma_compare_self_empty(cluster: Seq<ServiceDescriptor>)
    ensures
        source_only(cluster, cluster) == Seq::<ServiceDescriptor>::empty(),
{
    let pred = |s: ServiceDescriptor| !in_cluster(cluster, s.service_name);
    assert forall|i: int| 0 <= i < cluster.len() implies !pred(cluster[i]) by {
        assert(name_eq(cluster[i].service_name, cluster[i].service_name));
        assert(in_cluster(cluster, cluster[i].service_name));
    }
    lemma_filter_none(cluster, pred);
}

/// Every source service is present once the destination has absorbed the
/// whole diff: a second diff right after a full sync is empty.
pub proof fn lemma_sync_idempotent(
    source: Seq<ServiceDescriptor>,
    destination: Seq<ServiceDescriptor>,
)
    ensures
        source_only(source, destination + source_only(source, destination)) == Seq::<
            ServiceDescriptor,
        >::empty(),
{
    broadcast use group_filter_ensures;

    let diff = source_only(source, destination);
    let grown = destination + diff;
    let pred = |s: ServiceDescriptor| !in_cluster(grown, s.service_name);
    assert forall|i: int| 0 <= i < source.len() implies !pred(source[i]) by {
        let s = source[i];
        assert(name_eq(s.service_name, s.service_name));
        if in_cluster(destination, s.service_name) {
            let j = choose|j: int|
                0 <= j < destination.len() && name_eq(destination[j].service_name, s.service_name);
            assert(grown[j] == destination[j]);
            assert(in_cluster(grown, s.service_name));
        } else {
            let inner = |t: ServiceDescriptor| !in_cluster(destination, t.service_name);
            assert(inner(source[i]));
            assert(diff.contains(s));
            let k = choose|k: int| 0 <= k < diff.len() && diff[k] == s;
            assert(grown[destination.len() + k] == diff[k]);
            assert(in_cluster(grown, s.service_name));
        }
    }
    lemma_filter_none(source, pred);
}

/// The source-only services whose audits came back clean, in diff order; the
/// ones with a non-empty audit are skipped, never created.
pub open spec fn healthy_candidates(
    services: Seq<ServiceDescriptor>,
    audits: Seq<Vec<String>>,
) -> Seq<ServiceDescriptor>
    decreases services.len(),
{
    if services.len() == 0 || audits.len() == 0 {
        Seq::empty()
    } else {
        healthy_candidates(services.drop_last(), audits.drop_last()) + (if healthy(
            audits.last()@,
        ) {
            seq![services.last()]
        } else {
            Seq::empty()
        })
    }
}

/// The safety gate of `sync`: of the source-only services, keeps exactly the
/// ones whose audit reported no finding.
pub fn sync_candidates(services: Vec<ServiceDescriptor>, audits: &Vec<Vec<String>>) -> (r: Vec<
    ServiceDescriptor,
>)
    requires
        services@.len() == audits@.len(),
    ensures
        r@ == healthy_candidates(services@, audits@),
{
    let ghost all = services@;
    let mut remaining = services;
    let mut r: Vec<ServiceDescriptor> = Vec::new();
    while remaining.len() > 0
        invariant
            remaining@.len() <= all.len(),
            all.len() == audits@.len(),
            remaining@ == all.subrange(all.len() - remaining@.len(), all.len() as int),
            r@ == healthy_candidates(
                all.subrange(0, all.len() - remaining@.len()),
                audits@.subrange(0, all.len() - remaining@.len()),
            ),
        decreases remaining@.len(),
    {
        let p = audits.len() - remaining.len();
        let ghost sprefix = all.subrange(0, p as int);
        let ghost aprefix = audits@.subrange(0, p as int);
        let ghost snext = all.subrange(0, p + 1);
        let ghost anext = audits@.subrange(0, p + 1);
        let s = remaining.remove(0);
        proof {
            assert(s == all[p as int]);
            assert(remaining@ =~= all.subrange(p + 1, all.len() as int));
            assert(snext.drop_last() =~= sprefix);
            assert(anext.drop_last() =~= aprefix);
            assert(snext.last() == all[p as int]);
            assert(anext.last() == audits@[p as int]);
        }
        if audits[p].len() == 0 {
            r.push(s);
            proof {
                assert(r@ =~= healthy_candidates(snext, anext));
            }
        } else {
            proof {
                assert(healthy_candidates(snext, anext) =~= healthy_candidates(sprefix, aprefix));
            }
        }
    }
    proof {
        assert(all.subrange(0, all.len() as int) =~= all);
        assert(audits@.subrange(0, audits@.len() as int) =~= audits@);
    }
    r
}

/// `s` is one of the audited services and its audit was clean.
pub open spec fn is_healthy_candidate(
    services: Seq<ServiceDescriptor>,
    audits: Seq<Vec<String>>,
    s: ServiceDescriptor,
) -> bool {
    exists|j: int| 0 <= j < services.len() && s == services[j] && healthy(#[trigger] audits[j]@)
}

/// Every chosen candidate is one of the audited services, and its audit
/// was clean: `sync` never attempts creation for a service with a non-empty
/// audit.
pub proof fn lemma_candidates_audited_healthy(
    services: Seq<ServiceDescriptor>,
    audits: Seq<Vec<String>>,
)
    requires
        services.len() == audits.len(),
    ensures
        forall|i: int|
            0 <= i < healthy_candidates(services, audits).len() ==> is_healthy_candidate(
                services,
                audits,
                #[trigger] healthy_candidates(services, audits)[i],
            ),
    decreases services.len(),
{
    if services.len() > 0 {
        lemma_candidates_audited_healthy(services.drop_last(), audits.drop_last());
        let cs = healthy_candidates(services, audits);
        let prev = healthy_candidates(services.drop_last(), audits.drop_last());
        assert forall|i: int| 0 <= i < cs.len() implies is_healthy_candidate(
            services,
            audits,
            cs[i],
        ) by {
            if i < prev.len() {
                assert(is_healthy_candidate(services.drop_last(), audits.drop_last(), prev[i]));
                let j = choose|j: int|
                    0 <= j < services.drop_last().len() && prev[i] == services.drop_last()[j]
                        && healthy(#[trigger] audits.drop_last()[j]@);
                assert(audits.drop_last()[j] == audits[j]);
                assert(cs[i] == prev[i]);
                assert(0 <= j < services.len() && cs[i] == services[j] && healthy(audits[j]@));
            } else {
                let j = services.len() - 1;
                assert(healthy(audits.last()@) && cs[i] == services.last());
                assert(0 <= j < services.len() && cs[i] == services[j] && healthy(audits[j]@));
            }
        }
    }
}

/// When every audit of the diff came back clean, the candidates are the whole
/// diff.
pub proof fn lemma_all_healthy_candidates(services: Seq<ServiceDescriptor>, audits: Seq<Vec<String>>)
    requires
        services.len() == audits.len(),
        forall|i: int| 0 <= i < audits.len() ==> healthy(audits[i]@),
    ensures
        healthy_candidates(services, audits) == services,
    decreases services.len(),
{
    if services.len() > 0 {
        lemma_all_healthy_candidates(services.drop_last(), audits.drop_last());
        assert(healthy(audits.last()@));
        assert(services.drop_last() + seq![services.last()] =~= services);
    } else {
        assert(healthy_candidates(services, audits) =~= services);
    }
}

/// Running `sync` twice in a row with no intervening remote change leaves the
/// second run's diff empty, provided every source-only service audited as
/// healthy on the first run (an unhealthy one is skipped, so it would stay in
/// the diff).
pub proof fn lemma_sync_twice_diff_empty(
    source: Seq<ServiceDescriptor>,
    destination: Seq<ServiceDescriptor>,
    audits: Seq<Vec<String>>,
)
    requires
        audits.len() == source_only(source, destination).len(),
        forall|i: int| 0 <= i < audits.len() ==> healthy(audits[i]@),
    ensures
        source_only(
            source,
            destination + healthy_candidates(source_only(source, destination), audits),
        ) == Seq::<ServiceDescriptor>::empty(),
{
    lemma_all_healthy_candidates(source_only(source, destination), audits);
    lemma_sync_idempotent(source, destination);
}

/// Every field a creation request carries, copied verbatim from the template
/// service but for the inferred role and the destination cluster.
#[derive(Debug, Clone)]
pub struct CreateServicePlan {
    pub cluster: String,
    pub service_name: String,
    pub task_definition: String,
    pub desired_count: i64,
    pub role: Option<String>,
    pub deployment_configuration: Option<DeploymentConfiguration>,
    pub health_check_grace_period_seconds: Option<i64>,
    pub launch_type: Option<String>,
    pub load_balancers: Option<Vec<LoadBalancerBinding>>,
    pub network_configuration: Option<NetworkConfiguration>,
    pub placement_constraints: Option<Vec<PlacementConstraint>>,
    pub placement_strategy: Option<Vec<PlacementStrategy>>,
    pub platform_version: Option<String>,
}

/// The service has at least one load-balancer binding.
pub open spec fn has_load_balancer(s: ServiceDescriptor) -> bool {
    match s.load_balancers {
        Option::Some(l) => l@.len() > 0,
        Option::None => false,
    }
}

/// The service uses the platform's internal networking mode.
pub open spec fn uses_internal_networking(s: ServiceDescriptor) -> bool {
    match s.network_configuration {
        Option::Some(n) => n.awsvpc_configuration is Some,
        Option::None => false,
    }
}

/// The role-name suffix: the caller's, or the platform default.
pub open spec fn role_suffix_chars(suffix: Option<String>) -> Seq<char> {
    match suffix {
        Option::Some(s) => s@,
        Option::None => "ECSServiceRole"@,
    }
}

/// The access role a created service is given: `<cluster>-<suffix>` when the
/// template has at least one load-balancer binding and no internal-networking
/// configuration; otherwise none is passed and the control plane infers it.
pub open spec fn inferred_role(
    cluster: Seq<char>,
    template: ServiceDescriptor,
    suffix: Option<String>,
) -> Option<Seq<char>> {
    if has_load_balancer(template) && !uses_internal_networking(template) {
        Some(cluster + "-"@ + role_suffix_chars(suffix))
    } else {
        None
    }
}

/// The role-inference rule, stated on its own: a template with a binding and
/// no internal networking yields `<cluster>-<suffix-or-default>`; a template
/// with no binding, or with internal networking, yields no role.
pub proof fn lemma_role_inference(
    cluster: Seq<char>,
    template: ServiceDescriptor,
    suffix: Option<String>,
)
    ensures
        has_load_balancer(template) && !uses_internal_networking(template) ==> inferred_role(
            cluster,
            template,
            suffix,
        ) == Some(cluster + "-"@ + role_suffix_chars(suffix)),
        !(has_load_balancer(template) && !uses_internal_networking(template)) ==> inferred_role(
            cluster,
            template,
            suffix,
        ) is None,
{
}

/// Synthesizes the creation request for a new service cloned from a template:
/// infers the access role, demands the mandatory fields (name, desired count,
/// task-template reference, in that order), and copies everything else
/// verbatim.
pub fn create_service(
    cluster: String,
    from_service: ServiceDescriptor,
    role_suffix: Option<String>,
) -> (r: Result<CreateServicePlan, ServiceError>)
    ensures
        match r {
            Ok(plan) => {
                &&& from_service.service_name is Some
                &&& from_service.desired_count is Some
                &&& from_service.task_definition is Some
                &&& plan.cluster@ == cluster@
                &&& plan.service_name@ == from_service.service_name.unwrap()@
                &&& plan.task_definition@ == from_service.task_definition.unwrap()@
                &&& plan.desired_count == from_service.desired_count.unwrap()
                &&& (match plan.role {
                    Option::Some(role) => inferred_role(cluster@, from_service, role_suffix)
                        == Some(role@),
                    Option::None => inferred_role(cluster@, from_service, role_suffix) is None,
                })
                &&& plan.deployment_configuration == from_service.deployment_configuration
                &&& plan.health_check_grace_period_seconds
                    == from_service.health_check_grace_period_seconds
                &&& plan.launch_type == from_service.launch_type
                &&& plan.load_balancers == from_service.load_balancers
                &&& plan.network_configuration == from_service.network_configuration
                &&& plan.placement_constraints == from_service.placement_constraints
                &&& plan.placement_strategy == from_service.placement_strategy
                &&& plan.platform_version == from_service.platform_version
            },
            Err(e) => match e {
                ServiceError::MissingServiceName => from_service.service_name is None,
                ServiceError::MissingDesiredCount { service_name } => {
                    &&& from_service.service_name is Some
                    &&& service_name@ == from_service.service_name.unwrap()@
                    &&& from_service.desired_count is None
                },
                ServiceError::MissingTaskDefinition { service_name } => {
                    &&& from_service.service_name is Some
                    &&& from_service.desired_count is Some
                    &&& service_name@ == from_service.service_name.unwrap()@
                    &&& from_service.task_definition is None
                },
                _ => false,
            },
        },
{
    let has_lb = match &from_service.load_balancers {
        Some(l) => l.len() > 0,
        None => false,
    };
    let is_internal = match &from_service.network_configuration {
        Some(n) => n.awsvpc_configuration.is_some(),
        None => false,
    };
    let role: Option<String> = if has_lb && !is_internal {
        let mut r = cluster.clone();
        r.append("-");
        match &role_suffix {
            Some(s) => r.append(s.as_str()),
            None => r.append("ECSServiceRole"),
        }
        Some(r)
    } else {
        None
    };

    let name = match service_name(&from_service) {
        Ok(n) => n,
        Err(e) => {
            return Err(e);
        },
    };
    let desired_count = match &from_service.desired_count {
        Some(d) => *d,
        None => {
            return Err(ServiceError::MissingDesiredCount { service_name: name });
        },
    };
    let task_definition = match from_service.task_definition {
        Some(t) => t,
        None => {
            return Err(ServiceError::MissingTaskDefinition { service_name: name });
        },
    };
    Ok(
        CreateServicePlan {
            cluster,
            service_name: name,
            task_definition,
            desired_count,
            role,
            deployment_configuration: from_service.deployment_configuration,
            health_check_grace_period_seconds: from_service.health_check_grace_period_seconds,
            launch_type: from_service.launch_type,
            load_balancers: from_service.load_balancers,
            network_configuration: from_service.network_configuration,
            placement_constraints: from_service.placement_constraints,
            placement_strategy: from_service.placement_strategy,
            platform_version: from_service.platform_version,
        },
    )
}

/// Interprets a creation response, fail-soft at the individual level: a
/// remote-layer failure counts as "no service created" and the batch goes on;
/// a success that returned no descriptor is a fatal data-integrity error.
pub fn interpret_create_response(outcome: Result<Option<ServiceDescriptor>, String>) -> (r: Result<
    Option<ServiceDescriptor>,
    ServiceError,
>)
    ensures
        match outcome {
            Ok(created) => match created {
                Option::Some(s) => r == Ok::<Option<ServiceDescriptor>, ServiceError>(Some(s)),
                Option::None => r == Err::<Option<ServiceDescriptor>, ServiceError>(
                    ServiceError::NothingCreated,
                ),
            },
            Err(_) => r == Ok::<Option<ServiceDescriptor>, ServiceError>(None),
        },
{
    match outcome {
        Ok(Some(s)) => Ok(Some(s)),
        Ok(None) => Err(ServiceError::NothingCreated),
        Err(_) => Ok(None),
    }
}

} // verus!
