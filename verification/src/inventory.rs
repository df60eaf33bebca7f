//! Inventory reading: the bookkeeping of a paginated service listing and the
//! validation of a describe response.
//!
//! The application fetches each page and each descriptor from the control
//! plane (through the retry wrapper); the accumulation, the continuation-token
//! handling and the fail-fast validation of what came back are decided here.

use vstd::prelude::*;
use vstd::string::StringExecFns;
use crate::model::DescribeFailure;
use crate::model::ServiceDescriptor;
use crate::model::ServiceError;

verus! {

/// The names a page reports, or nothing when the page carries none.
pub open spec fn page_names(arns: Option<Vec<String>>) -> Seq<String> {
    match arns {
        Option::Some(a) => a@,
        Option::None => Seq::empty(),
    }
}

/// A paginated listing in progress: the identifiers accumulated so far, in
/// request order and without deduplication, and the continuation token for
/// the next page. The listing is finished when the token is absent.
pub struct ServiceListing {
    pub collected: Vec<String>,
    pub token: Option<String>,
}

impl ServiceListing {
    /// A fresh listing: nothing collected, and the empty continuation token
    /// that the first page request carries.
    pub fn new() -> (l: Self)
        ensures
            l.collected@ == Seq::<String>::empty(),
            l.token is Some && l.token.unwrap()@ == Seq::<char>::empty(),
    {
        ServiceListing { collected: Vec::new(), token: Some(String::new()) }
    }

    /// Another page remains to be fetched.
    pub fn in_progress(&self) -> (r: bool)
        ensures
            r == (self.token is Some),
    {
        self.token.is_some()
    }

    /// The continuation token to send with the next page request.
    pub fn next_token(&self) -> (r: &Option<String>)
        ensures
            *r == self.token,
    {
        &self.token
    }

    /// Absorbs one page: appends its identifiers in order and keeps the token
    /// it returned.
    pub fn absorb_page(&mut self, arns: Option<Vec<String>>, next: Option<String>)
        requires
            old(self).token is Some,
        ensures
            final(self).collected@ == old(self).collected@ + page_names(arns),
            final(self).token == next,
    {
        match arns {
            Some(mut a) => {
                self.collected.append(&mut a);
            },
            None => {
                assert(self.collected@ + page_names(arns) =~= self.collected@);
            },
        }
        self.token = next;
    }

    /// The accumulated identifiers, once no page remains.
    pub fn finish(self) -> (r: Vec<String>)
        requires
            self.token is None,
        ensures
            r@ == self.collected@,
    {
        self.collected
    }
}

/// Validates one describe response, fail-fast: any failure record, or zero
/// returned descriptors, is a data-integrity error, not a transient
/// condition; otherwise the result is the last descriptor of the response.
pub fn extract_service(
    service_name: &str,
    services: Option<Vec<ServiceDescriptor>>,
    failures: Option<Vec<DescribeFailure>>,
) -> (r: Result<ServiceDescriptor, ServiceError>)
    ensures
        match r {
            Ok(s) => {
                &&& (failures is Some ==> failures.unwrap()@.len() == 0)
                &&& services is Some && services.unwrap()@.len() > 0
                &&& s == services.unwrap()@.last()
            },
            Err(e) => match e {
                ServiceError::DescribeFailures { failures: f } => {
                    &&& failures is Some
                    &&& f@ == failures.unwrap()@
                    &&& f@.len() > 0
                },
                ServiceError::MissingServiceDescription { service_name: n } => {
                    &&& (failures is Some ==> failures.unwrap()@.len() == 0)
                    &&& (services is None || services.unwrap()@.len() == 0)
                    &&& n@ == service_name@
                },
                _ => false,
            },
        },
{
    if let Some(f) = failures {
        if f.len() > 0 {
            return Err(ServiceError::DescribeFailures { failures: f });
        }
    }
    match services {
        Some(mut ss) => match ss.pop() {
            Some(s) => Ok(s),
            None => Err(
                ServiceError::MissingServiceDescription { service_name: service_name.to_owned() },
            ),
        },
        None => Err(
            ServiceError::MissingServiceDescription { service_name: service_name.to_owned() },
        ),
    }
}

/// Every service carries a name and a desired count, so the whole cluster can
/// be exported.
pub open spec fn exportable(services: Seq<ServiceDescriptor>) -> bool {
    forall|i: int|
        0 <= i < services.len() ==> (#[trigger] services[i]).service_name is Some
            && services[i].desired_count is Some
}

/// Projects every service to its `(name, desired count)` pair, in enumeration
/// order, for the export command; a service without a name or without a
/// desired count is a fatal error.
pub fn export_desired_counts(services: &Vec<ServiceDescriptor>) -> (r: Result<
    Vec<(String, i64)>,
    ServiceError,
>)
    ensures
        match r {
            Ok(ps) => {
                &&& exportable(services@)
                &&& ps@.len() == services@.len()
                &&& forall|i: int|
                    0 <= i < ps@.len() ==> (#[trigger] ps@[i]).0@
                        == services@[i].service_name.unwrap()@ && ps@[i].1
                        == services@[i].desired_count.unwrap()
            },
            Err(e) => exists|i: int|
                #![trigger services@[i]]
                {
                    &&& 0 <= i < services@.len()
                    &&& forall|j: int|
                        0 <= j < i ==> (#[trigger] services@[j]).service_name is Some
                            && services@[j].desired_count is Some
                    &&& match e {
                        ServiceError::MissingServiceName => services@[i].service_name is None,
                        ServiceError::MissingDesiredCount { service_name: n } => {
                            &&& services@[i].service_name is Some
                            &&& n@ == services@[i].service_name.unwrap()@
                            &&& services@[i].desired_count is None
                        },
                        _ => false,
                    }
                },
        },
{
    let mut ps: Vec<(String, i64)> = Vec::new();
    let n = services.len();
    let mut i: usize = 0;
    while i < n
        invariant
            i <= n,
            n == services@.len(),
            ps@.len() == i,
            forall|j: int|
                0 <= j < i ==> (#[trigger] services@[j]).service_name is Some
                    && services@[j].desired_count is Some,
            forall|j: int|
                0 <= j < i ==> (#[trigger] ps@[j]).0@ == services@[j].service_name.unwrap()@
                    && ps@[j].1 == services@[j].desired_count.unwrap(),
        decreases n - i,
    {
        let name = match &services[i].service_name {
            Some(nm) => nm.clone(),
            None => {
                return Err(ServiceError::MissingServiceName);
            },
        };
        let desired = match &services[i].desired_count {
            Some(d) => *d,
            None => {
                return Err(ServiceError::MissingDesiredCount { service_name: name });
            },
        };
        ps.push((name, desired));
        i = i + 1;
    }
    Ok(ps)
}

/// The retry description of a page listing: `listing services in <cluster>`.
pub fn listing_description(cluster: &str) -> (r: String)
    ensures
        r@ == "listing services in "@ + cluster@,
{
    let mut m = "listing services in ".to_owned();
    m.append(cluster);
    m
}

/// The retry description of a service describe: `Describing
/// <cluster>/<service>`.
pub fn describing_description(cluster: &str, service: &str) -> (r: String)
    ensures
        r@ == "Describing "@ + cluster@ + "/"@ + service@,
{
    let mut m = "Describing ".to_owned();
    m.append(cluster);
    m.append("/");
    m.append(service);
    m
}

/// The retry description of a task-template describe: `describing
/// <reference>`; the same shape serves a target-group describe.
pub fn reference_description(reference: &str) -> (r: String)
    ensures
        r@ == "describing "@ + reference@,
{
    let mut m = "describing ".to_owned();
    m.append(reference);
    m
}

} // verus!
