//! The audit evaluator: resolving a service's container-image references and
//! target-group references into lookup plans, interpreting what the registry
//! and the load-balancer registry returned, and evaluating the three named
//! health findings.
//!
//! The application fetches the task template, the image details and the
//! target groups; everything decided about them is decided here.

use vstd::prelude::*;
use vstd::string::StrSliceExecFns;
use crate::model::ContainerDefinition;
use crate::model::ImageDetail;
use crate::model::LoadBalancerBinding;
use crate::model::ServiceDescriptor;
use crate::model::ServiceError;
use crate::model::TargetGroup;
use crate::text::has_char;
use crate::text::prefix_before_first;
use crate::text::suffix_after_first;
use crate::text::suffix_after_last;
use crate::text::lemma_prefix_before_first_at;
use crate::text::lemma_prefix_before_first_none;
use crate::text::lemma_suffix_after_first_at;
use crate::text::lemma_suffix_after_last_at;
use crate::text::lemma_suffix_after_last_none;

verus! {

/// The lookup of one container image: resolved to a registry record, or
/// failed with the registry's error text.
#[derive(Debug, Clone)]
pub enum ImageLookupResult {
    Resolved(ImageDetail),
    Failed(String),
}

/// The lookup of one target-group reference: resolved, or failed with the
/// registry's error text.
#[derive(Debug, Clone)]
pub enum TargetGroupLookupResult {
    Resolved(TargetGroup),
    Failed(String),
}

/// What one image-describe call came back with: an error, or a response
/// carrying zero or more detail records.
#[derive(Debug, Clone)]
pub enum ImageLookupOutcome {
    Error(String),
    Found(Option<Vec<ImageDetail>>),
}

/// What one target-group-describe call came back with.
#[derive(Debug, Clone)]
pub enum TargetGroupLookupOutcome {
    Error(String),
    Found(Option<Vec<TargetGroup>>),
}

/// The `repository:tag` coordinates one image lookup asks the registry for.
#[derive(Debug, Clone)]
pub struct ImageLookupRequest {
    pub repository_name: String,
    pub image_tag: String,
}

/// The image references of a task template's containers, in order; a
/// container without an image reference is skipped, not reported.
pub open spec fn image_refs(containers: Seq<ContainerDefinition>) -> Seq<String>
    decreases containers.len(),
{
    if containers.len() == 0 {
        Seq::empty()
    } else {
        image_refs(containers.drop_last()) + (match containers.last().image {
            Option::Some(im) => seq![im],
            Option::None => Seq::empty(),
        })
    }
}

/// Collects the image references of a task template's containers.
pub fn container_image_refs(containers: &Vec<ContainerDefinition>) -> (r: Vec<String>)
    ensures
        r@ == image_refs(containers@),
{
    let mut r: Vec<String> = Vec::new();
    let n = containers.len();
    let mut i: usize = 0;
    while i < n
        invariant
            i <= n,
            n == containers@.len(),
            r@ == image_refs(containers@.subrange(0, i as int)),
        decreases n - i,
    {
        let ghost prefix = containers@.subrange(0, i as int);
        let ghost next = containers@.subrange(0, i + 1);
        proof {
            assert(next.drop_last() =~= prefix);
            assert(next.last() == containers@[i as int]);
        }
        match &containers[i].image {
            Some(im) => {
                r.push(im.clone());
                proof {
                    assert(r@ =~= image_refs(next));
                }
            },
            None => {
                proof {
                    assert(image_refs(next) =~= image_refs(prefix));
                }
            },
        }
        i = i + 1;
    }
    proof {
        assert(containers@.subrange(0, n as int) =~= containers@);
    }
    r
}

/// The `repository` and `tag` parts of an image reference: the fragment after
/// the last path separator, split at its first and second `:`. Absent when
/// the fragment carries no `:` at all.
pub open spec fn image_reference_parts(image: Seq<char>) -> Option<(Seq<char>, Seq<char>)> {
    let fragment = suffix_after_last(image, '/');
    if has_char(fragment, ':') {
        Some(
            (
                prefix_before_first(fragment, ':'),
                prefix_before_first(suffix_after_first(fragment, ':'), ':'),
            ),
        )
    } else {
        None
    }
}

/// Splits an image reference into the repository and tag the registry is
/// asked for; a reference whose final path fragment carries no `:` separator
/// is malformed input.
pub fn parse_image_reference(image: &str) -> (r: Result<ImageLookupRequest, ServiceError>)
    ensures
        match r {
            Ok(req) => {
                &&& image_reference_parts(image@) is Some
                &&& req.repository_name@ == image_reference_parts(image@).unwrap().0
                &&& req.image_tag@ == image_reference_parts(image@).unwrap().1
            },
            Err(e) => match e {
                ServiceError::MalformedImageReference { image: im } => {
                    &&& image_reference_parts(image@) is None
                    &&& im@ == image@
                },
                _ => false,
            },
        },
{
    let n = image.unicode_len();

    // The start of the fragment after the last path separator: scan backward
    // for the last `/`.
    let mut start: usize = 0;
    let mut found = false;
    let mut k: usize = n;
    while k > 0
        invariant
            k <= n,
            n == image@.len(),
            !found ==> start == 0 && (forall|j: int| k <= j < n ==> image@[j] != '/'),
            found ==> 1 <= start <= n && image@[start - 1] == '/' && (forall|j: int|
                start <= j < n ==> image@[j] != '/'),
        decreases k,
    {
        k = k - 1;
        if !found && image.get_char(k) == '/' {
            found = true;
            start = k + 1;
        }
    }
    proof {
        if found {
            lemma_suffix_after_last_at(image@, '/', start - 1);
        } else {
            lemma_suffix_after_last_none(image@, '/');
            assert(image@.subrange(0, n as int) =~= image@);
        }
    }
    let fragment = image.substring_char(start, n);
    let ghost frag = suffix_after_last(image@, '/');
    assert(fragment@ == frag);

    // The first `:` of the fragment.
    let m = fragment.unicode_len();
    let mut colon1: usize = m;
    let mut j: usize = 0;
    while j < m
        invariant
            j <= m,
            colon1 <= m,
            m == fragment@.len(),
            colon1 == m ==> forall|l: int| 0 <= l < j ==> fragment@[l] != ':',
            colon1 < m ==> fragment@[colon1 as int] == ':' && (forall|l: int|
                0 <= l < colon1 ==> fragment@[l] != ':'),
        decreases m - j,
    {
        if colon1 == m && fragment.get_char(j) == ':' {
            colon1 = j;
        }
        j = j + 1;
    }
    if colon1 == m {
        // no `repository:tag` separator at all
        assert(!has_char(frag, ':'));
        return Err(ServiceError::MalformedImageReference { image: image.to_owned() });
    }
    assert(0 <= colon1 < frag.len() && frag[colon1 as int] == ':');
    assert(has_char(frag, ':'));
    proof {
        lemma_prefix_before_first_at(frag, ':', colon1 as int);
    }
    let repository = fragment.substring_char(0, colon1).to_owned();

    // The piece between the first `:` and the second `:` (or the end).
    let mut colon2: usize = m;
    let mut j2: usize = colon1 + 1;
    while j2 < m
        invariant
            colon1 < j2 <= m,
            colon2 <= m,
            m == fragment@.len(),
            colon1 < m,
            colon2 == m ==> forall|l: int| colon1 < l < j2 ==> fragment@[l] != ':',
            colon2 < m ==> colon1 < colon2 && fragment@[colon2 as int] == ':' && (forall|l: int|
                colon1 < l < colon2 ==> fragment@[l] != ':'),
        decreases m - j2,
    {
        if colon2 == m && fragment.get_char(j2) == ':' {
            colon2 = j2;
        }
        j2 = j2 + 1;
    }
    let ghost rest = suffix_after_first(frag, ':');
    proof {
        lemma_suffix_after_first_at(frag, ':', colon1 as int);
        assert(rest =~= frag.subrange(colon1 + 1, m as int));
        if colon2 == m {
            assert forall|l: int| 0 <= l < rest.len() implies rest[l] != ':' by {
                assert(rest[l] == frag[colon1 + 1 + l]);
            }
            lemma_prefix_before_first_none(rest, ':');
            assert(rest =~= frag.subrange(colon1 + 1, colon2 as int));
        } else {
            assert(rest[colon2 - colon1 - 1] == ':');
            assert forall|l: int| 0 <= l < colon2 - colon1 - 1 implies rest[l] != ':' by {
                assert(rest[l] == frag[colon1 + 1 + l]);
            }
            lemma_prefix_before_first_at(rest, ':', colon2 - colon1 - 1);
            assert(rest.subrange(0, colon2 - colon1 - 1) =~= frag.subrange(
                colon1 + 1,
                colon2 as int,
            ));
        }
    }
    let tag = fragment.substring_char(colon1 + 1, colon2).to_owned();
    Ok(ImageLookupRequest { repository_name: repository, image_tag: tag })
}

/// What one image-describe outcome contributes to the audit: a registry
/// error becomes a failure entry, a response with at least one detail record
/// resolves to the last record, and a successful-but-empty response is
/// silently dropped.
pub open spec fn one_image_result(o: ImageLookupOutcome) -> Seq<ImageLookupResult> {
    match o {
        ImageLookupOutcome::Error(e) => seq![ImageLookupResult::Failed(e)],
        ImageLookupOutcome::Found(ds) => match ds {
            Option::Some(details) => if details@.len() > 0 {
                seq![ImageLookupResult::Resolved(details@.last())]
            } else {
                Seq::empty()
            },
            Option::None => Seq::empty(),
        },
    }
}

/// The image-lookup entries of a sequence of describe outcomes, in order.
pub open spec fn collected_image_results(outcomes: Seq<ImageLookupOutcome>) -> Seq<
    ImageLookupResult,
>
    decreases outcomes.len(),
{
    if outcomes.len() == 0 {
        Seq::empty()
    } else {
        collected_image_results(outcomes.drop_last()) + one_image_result(outcomes.last())
    }
}

/// Interprets what the registry returned for each image lookup.
pub fn collect_image_results(outcomes: Vec<ImageLookupOutcome>) -> (r: Vec<ImageLookupResult>)
    ensures
        r@ == collected_image_results(outcomes@),
{
    let ghost all = outcomes@;
    let mut remaining = outcomes;
    let mut r: Vec<ImageLookupResult> = Vec::new();
    while remaining.len() > 0
        invariant
            remaining@.len() <= all.len(),
            remaining@ == all.subrange(all.len() - remaining@.len(), all.len() as int),
            r@ == collected_image_results(all.subrange(0, all.len() - remaining@.len())),
        decreases remaining@.len(),
    {
        let ghost p = all.len() - remaining@.len();
        let ghost prefix = all.subrange(0, p as int);
        let ghost next = all.subrange(0, p + 1);
        let o = remaining.remove(0);
        proof {
            assert(o == all[p as int]);
            assert(remaining@ =~= all.subrange(p + 1, all.len() as int));
            assert(next.drop_last() =~= prefix);
            assert(next.last() == all[p as int]);
        }
        match o {
            ImageLookupOutcome::Error(e) => {
                r.push(ImageLookupResult::Failed(e));
                proof {
                    assert(r@ =~= collected_image_results(next));
                }
            },
            ImageLookupOutcome::Found(ds) => match ds {
                Some(mut details) => match details.pop() {
                    Some(d) => {
                        r.push(ImageLookupResult::Resolved(d));
                        proof {
                            assert(r@ =~= collected_image_results(next));
                        }
                    },
                    None => {
                        proof {
                            assert(r@ =~= collected_image_results(next));
                        }
                    },
                },
                None => {
                    proof {
                        assert(r@ =~= collected_image_results(next));
                    }
                },
            },
        }
    }
    proof {
        assert(all.subrange(0, all.len() as int) =~= all);
    }
    r
}

/// What one target-group-describe outcome contributes: the same shape as an
/// image lookup, with the same silent drop of a successful-but-empty
/// response.
pub open spec fn one_target_group_result(o: TargetGroupLookupOutcome) -> Seq<
    TargetGroupLookupResult,
> {
    match o {
        TargetGroupLookupOutcome::Error(e) => seq![TargetGroupLookupResult::Failed(e)],
        TargetGroupLookupOutcome::Found(ds) => match ds {
            Option::Some(details) => if details@.len() > 0 {
                seq![TargetGroupLookupResult::Resolved(details@.last())]
            } else {
                Seq::empty()
            },
            Option::None => Seq::empty(),
        },
    }
}

/// The target-group entries of a sequence of describe outcomes, in order.
pub open spec fn collected_target_group_results(outcomes: Seq<TargetGroupLookupOutcome>) -> Seq<
    TargetGroupLookupResult,
>
    decreases outcomes.len(),
{
    if outcomes.len() == 0 {
        Seq::empty()
    } else {
        collected_target_group_results(outcomes.drop_last()) + one_target_group_result(
            outcomes.last(),
        )
    }
}

/// Interprets what the load-balancer registry returned for each lookup.
pub fn collect_target_group_results(outcomes: Vec<TargetGroupLookupOutcome>) -> (r: Vec<
    TargetGroupLookupResult,
>)
    ensures
        r@ == collected_target_group_results(outcomes@),
{
    let ghost all = outcomes@;
    let mut remaining = outcomes;
    let mut r: Vec<TargetGroupLookupResult> = Vec::new();
    while remaining.len() > 0
        invariant
            remaining@.len() <= all.len(),
            remaining@ == all.subrange(all.len() - remaining@.len(), all.len() as int),
            r@ == collected_target_group_results(all.subrange(0, all.len() - remaining@.len())),
        decreases remaining@.len(),
    {
        let ghost p = all.len() - remaining@.len();
        let ghost prefix = all.subrange(0, p as int);
        let ghost next = all.subrange(0, p + 1);
        let o = remaining.remove(0);
        proof {
            assert(o == all[p as int]);
            assert(remaining@ =~= all.subrange(p + 1, all.len() as int));
            assert(next.drop_last() =~= prefix);
            assert(next.last() == all[p as int]);
        }
        match o {
            TargetGroupLookupOutcome::Error(e) => {
                r.push(TargetGroupLookupResult::Failed(e));
                proof {
                    assert(r@ =~= collected_target_group_results(next));
                }
            },
            TargetGroupLookupOutcome::Found(ds) => match ds {
                Some(mut details) => match details.pop() {
                    Some(d) => {
                        r.push(TargetGroupLookupResult::Resolved(d));
                        proof {
                            assert(r@ =~= collected_target_group_results(next));
                        }
                    },
                    None => {
                        proof {
                            assert(r@ =~= collected_target_group_results(next));
                        }
                    },
                },
                None => {
                    proof {
                        assert(r@ =~= collected_target_group_results(next));
                    }
                },
            },
        }
    }
    proof {
        assert(all.subrange(0, all.len() as int) =~= all);
    }
    r
}

/// The target-group references of a service's load-balancer bindings, in
/// order; a binding without a reference is skipped.
pub open spec fn binding_refs(bindings: Seq<LoadBalancerBinding>) -> Seq<String>
    decreases bindings.len(),
{
    if bindings.len() == 0 {
        Seq::empty()
    } else {
        binding_refs(bindings.drop_last()) + (match bindings.last().target_group_arn {
            Option::Some(arn) => seq![arn],
            Option::None => Seq::empty(),
        })
    }
}

/// The target-group references a service's audit must resolve.
pub open spec fn target_group_refs_of(s: ServiceDescriptor) -> Seq<String> {
    match s.load_balancers {
        Option::Some(bs) => binding_refs(bs@),
        Option::None => Seq::empty(),
    }
}

/// Collects the target-group references of a service.
pub fn service_target_group_refs(service: &ServiceDescriptor) -> (r: Vec<String>)
    ensures
        r@ == target_group_refs_of(*service),
{
    let mut r: Vec<String> = Vec::new();
    match &service.load_balancers {
        None => r,
        Some(bindings) => {
            let n = bindings.len();
            let mut i: usize = 0;
            while i < n
                invariant
                    i <= n,
                    n == bindings@.len(),
                    r@ == binding_refs(bindings@.subrange(0, i as int)),
                decreases n - i,
            {
                let ghost prefix = bindings@.subrange(0, i as int);
                let ghost next = bindings@.subrange(0, i + 1);
                proof {
                    assert(next.drop_last() =~= prefix);
                    assert(next.last() == bindings@[i as int]);
                }
                match &bindings[i].target_group_arn {
                    Some(arn) => {
                        r.push(arn.clone());
                        proof {
                            assert(r@ =~= binding_refs(next));
                        }
                    },
                    None => {
                        proof {
                            assert(binding_refs(next) =~= binding_refs(prefix));
                        }
                    },
                }
                i = i + 1;
            }
            proof {
                assert(bindings@.subrange(0, n as int) =~= bindings@);
            }
            r
        },
    }
}

/// The audit finding raised when at least one image reference did not
/// resolve.
pub open spec fn invalid_images_finding() -> Seq<char> {
    "Invalid image references"@
}

/// The audit finding raised when at least one target-group reference did not
/// resolve.
pub open spec fn invalid_target_groups_finding() -> Seq<char> {
    "Invalid target-group references"@
}

/// The audit finding raised when the running count is below the desired
/// count.
pub open spec fn below_desired_finding() -> Seq<char> {
    "Running count below desired"@
}

/// At least one image lookup failed.
pub open spec fn any_image_failed(rs: Seq<ImageLookupResult>) -> bool {
    exists|i: int| 0 <= i < rs.len() && rs[i] is Failed
}

/// At least one target-group lookup failed.
pub open spec fn any_target_group_failed(rs: Seq<TargetGroupLookupResult>) -> bool {
    exists|i: int| 0 <= i < rs.len() && rs[i] is Failed
}

/// The service runs fewer replicas than it wants; an absent count counts as
/// zero.
pub open spec fn below_desired(s: ServiceDescriptor) -> bool {
    s.running_count.unwrap_or(0) < s.desired_count.unwrap_or(0)
}

/// The findings of one audit, in their fixed report order.
pub open spec fn audit_findings(
    service: ServiceDescriptor,
    images: Seq<ImageLookupResult>,
    target_groups: Seq<TargetGroupLookupResult>,
) -> Seq<Seq<char>> {
    (if any_image_failed(images) {
        seq![invalid_images_finding()]
    } else {
        Seq::empty()
    }) + (if any_target_group_failed(target_groups) {
        seq![invalid_target_groups_finding()]
    } else {
        Seq::empty()
    }) + (if below_desired(service) {
        seq![below_desired_finding()]
    } else {
        Seq::empty()
    })
}

/// A service is healthy exactly when its audit reports no finding.
pub open spec fn healthy(findings: Seq<String>) -> bool {
    findings.len() == 0
}

/// Decides whether an audit report is empty, i.e. the service is healthy.
pub fn is_healthy(findings: &Vec<String>) -> (r: bool)
    ensures
        r == healthy(findings@),
{
    findings.len() == 0
}

/// An audit is clean exactly when no image lookup failed, no target-group
/// lookup failed, and the running count is not below the desired count.
pub proof fn lemma_healthy_iff_no_findings(
    service: ServiceDescriptor,
    images: Seq<ImageLookupResult>,
    target_groups: Seq<TargetGroupLookupResult>,
)
    ensures
        audit_findings(service, images, target_groups).len() == 0 <==> (!any_image_failed(images)
            && !any_target_group_failed(target_groups) && !below_desired(service)),
{
}

fn any_failed_image(rs: &Vec<ImageLookupResult>) -> (r: bool)
    ensures
        r == any_image_failed(rs@),
{
    let n = rs.len();
    let mut i: usize = 0;
    while i < n
        invariant
            i <= n,
            n == rs@.len(),
            forall|k: int| 0 <= k < i ==> !(rs@[k] is Failed),
        decreases n - i,
    {
        match &rs[i] {
            ImageLookupResult::Failed(_) => {
                return true;
            },
            ImageLookupResult::Resolved(_) => {},
        }
        i = i + 1;
    }
    false
}

fn any_failed_target_group(rs: &Vec<TargetGroupLookupResult>) -> (r: bool)
    ensures
        r == any_target_group_failed(rs@),
{
    let n = rs.len();
    let mut i: usize = 0;
    while i < n
        invariant
            i <= n,
            n == rs@.len(),
            forall|k: int| 0 <= k < i ==> !(rs@[k] is Failed),
        decreases n - i,
    {
        match &rs[i] {
            TargetGroupLookupResult::Failed(_) => {
                return true;
            },
            TargetGroupLookupResult::Resolved(_) => {},
        }
        i = i + 1;
    }
    false
}

/// Evaluates the three named audit conditions of one service and reports the
/// true ones, in fixed order. An empty report means the service is healthy.
pub fn audit_service(
    service: &ServiceDescriptor,
    images: &Vec<ImageLookupResult>,
    target_groups: &Vec<TargetGroupLookupResult>,
) -> (r: Vec<String>)
    ensures
        r@.map_values(|f: String| f@) == audit_findings(*service, images@, target_groups@),
{
    let mut r: Vec<String> = Vec::new();
    if any_failed_image(images) {
        r.push("Invalid image references".to_owned());
    }
    if any_failed_target_group(target_groups) {
        r.push("Invalid target-group references".to_owned());
    }
    let running = match &service.running_count {
        Some(c) => *c,
        None => 0,
    };
    let desired = match &service.desired_count {
        Some(c) => *c,
        None => 0,
    };
    if running < desired {
        r.push("Running count below desired".to_owned());
    }
    proof {
        assert(r@.map_values(|f: String| f@) =~~= audit_findings(
            *service,
            images@,
            target_groups@,
        ));
    }
    r
}

} // verus!
