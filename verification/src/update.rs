//! Desired-count modification: the caller's requested change (one uniform
//! count, or a per-service mapping), the resolution of the count one service
//! gets, the synthesis of its update request, and the parsing of a count
//! given as text.

use vstd::prelude::*;
use vstd::string::StrSliceExecFns;
use vstd::string::StringExecFns;
use crate::model::service_name;
use crate::model::ServiceDescriptor;
use crate::model::ServiceError;

verus! {

/// A desired-count change: one count for every service, or a count per
/// service name. A service absent from the mapping is a caller error.
#[derive(Debug, Clone)]
pub enum DesiredCountOptions {
    Number(i64),
    Mapping(Vec<(String, i64)>),
}

/// A modification `update` applies to every service of a cluster.
#[derive(Debug, Clone)]
pub enum ServiceModification {
    DesiredCount { count: DesiredCountOptions },
}

/// The count a mapping assigns to `name`: the value of the first pair
/// carrying that name.
pub open spec fn count_for(m: Seq<(String, i64)>, name: Seq<char>) -> Option<i64>
    decreases m.len(),
{
    if m.len() == 0 {
        None
    } else if m[0].0@ == name {
        Some(m[0].1)
    } else {
        count_for(m.drop_first(), name)
    }
}

/// Looks a service name up in a per-service count mapping.
pub fn lookup_count(m: &Vec<(String, i64)>, name: &String) -> (r: Option<i64>)
    ensures
        r == count_for(m@, name@),
{
    let n = m.len();
    proof {
        assert(m@.subrange(0, n as int) =~= m@);
    }
    let mut i: usize = 0;
    while i < n
        invariant
            i <= n,
            n == m@.len(),
            count_for(m@, name@) == count_for(m@.subrange(i as int, n as int), name@),
        decreases n - i,
    {
        let ghost sfx = m@.subrange(i as int, n as int);
        proof {
            assert(sfx[0] == m@[i as int]);
            assert(sfx.drop_first() =~= m@.subrange(i + 1, n as int));
        }
        if m[i].0.eq(name) {
            return Some(m[i].1);
        }
        i = i + 1;
    }
    proof {
        assert(m@.subrange(n as int, n as int) =~= Seq::<(String, i64)>::empty());
    }
    None
}

/// The count a modification resolves to for the named service: a uniform
/// count applies to everyone, a mapping is looked up by name.
pub open spec fn resolved_count(modification: ServiceModification, name: Seq<char>) -> Option<i64> {
    match modification {
        ServiceModification::DesiredCount { count } => match count {
            DesiredCountOptions::Number(n) => Some(n),
            DesiredCountOptions::Mapping(m) => count_for(m@, name),
        },
    }
}

/// Everything one update request carries; only the desired count is ever
/// modified.
#[derive(Debug, Clone)]
pub struct UpdateServicePlan {
    pub cluster: String,
    pub service: String,
    pub desired_count: i64,
}

/// Synthesizes the update request for one service: demands the service's
/// name, resolves the count the modification assigns it, and surfaces a name
/// absent from a per-service mapping as the caller error it is.
pub fn update_service(
    cluster: &String,
    service: &ServiceDescriptor,
    modification: &ServiceModification,
) -> (r: Result<UpdateServicePlan, ServiceError>)
    ensures
        match r {
            Ok(plan) => {
                &&& service.service_name is Some
                &&& plan.cluster@ == cluster@
                &&& plan.service@ == service.service_name.unwrap()@
                &&& resolved_count(*modification, plan.service@) == Some(plan.desired_count)
            },
            Err(e) => match e {
                ServiceError::MissingServiceName => service.service_name is None,
                ServiceError::MissingCountForService { service_name: n } => {
                    &&& service.service_name is Some
                    &&& n@ == service.service_name.unwrap()@
                    &&& resolved_count(*modification, n@) is None
                },
                _ => false,
            },
        },
{
    let name = match service_name(service) {
        Ok(n) => n,
        Err(e) => {
            return Err(e);
        },
    };
    match modification {
        ServiceModification::DesiredCount { count } => match count {
            DesiredCountOptions::Number(n) => Ok(
                UpdateServicePlan { cluster: cluster.clone(), service: name, desired_count: *n },
            ),
            DesiredCountOptions::Mapping(m) => match lookup_count(m, &name) {
                Some(c) => Ok(
                    UpdateServicePlan { cluster: cluster.clone(), service: name, desired_count: c },
                ),
                None => Err(ServiceError::MissingCountForService { service_name: name }),
            },
        },
    }
}

/// A decimal digit.
pub open spec fn is_count_digit(c: char) -> bool {
    48 <= c as int && c as int <= 57
}

/// The value of one decimal digit.
pub open spec fn digit_value(c: char) -> int {
    c as int - 48
}

/// The value of a string of decimal digits, most significant first.
pub open spec fn digits_value(s: Seq<char>) -> int
    decreases s.len(),
{
    if s.len() == 0 {
        0
    } else {
        digits_value(s.drop_last()) * 10 + digit_value(s.last())
    }
}

/// Every character is a decimal digit.
pub open spec fn all_count_digits(s: Seq<char>) -> bool {
    forall|i: int| 0 <= i < s.len() ==> is_count_digit(s[i])
}

/// The digit part of a count literal: what follows an optional leading sign.
pub open spec fn count_digits(s: Seq<char>) -> Seq<char> {
    if s.len() > 0 && (s[0] == '-' || s[0] == '+') {
        s.drop_first()
    } else {
        s
    }
}

/// The literal carries a minus sign.
pub open spec fn count_negative(s: Seq<char>) -> bool {
    s.len() > 0 && s[0] == '-'
}

/// The mathematical value of a count literal: an optional sign followed by at
/// least one digit; anything else has none.
pub open spec fn count_value(s: Seq<char>) -> Option<int> {
    let digits = count_digits(s);
    if digits.len() > 0 && all_count_digits(digits) {
        Some(
            if count_negative(s) {
                -digits_value(digits)
            } else {
                digits_value(digits)
            },
        )
    } else {
        None
    }
}

/// The count a text parses to: its mathematical value when it has one and
/// fits the count type, nothing otherwise.
pub open spec fn parsed_count(s: Seq<char>) -> Option<i64> {
    match count_value(s) {
        Option::Some(v) => if i64::MIN <= v <= i64::MAX {
            Some(v as i64)
        } else {
            None
        },
        Option::None => None,
    }
}

/// A digit string's value is never negative.
pub proof fn lemma_digits_value_nonneg(s: Seq<char>)
    requires
        all_count_digits(s),
    ensures
        digits_value(s) >= 0,
    decreases s.len(),
{
    if s.len() > 0 {
        assert(all_count_digits(s.drop_last()));
        lemma_digits_value_nonneg(s.drop_last());
    }
}

/// A digit string's value is at least the value of any of its prefixes.
pub proof fn lemma_digits_value_mono(s: Seq<char>, k: int)
    requires
        all_count_digits(s),
        0 <= k <= s.len(),
    ensures
        digits_value(s) >= digits_value(s.subrange(0, k)),
    decreases s.len() - k,
{
    if k == s.len() {
        assert(s.subrange(0, k) =~= s);
    } else {
        let shorter = s.subrange(0, k);
        let longer = s.subrange(0, k + 1);
        assert(all_count_digits(shorter));
        lemma_digits_value_nonneg(shorter);
        assert(longer.drop_last() =~= shorter);
        assert(digits_value(longer) == digits_value(shorter) * 10 + digit_value(s[k]));
        lemma_digits_value_mono(s, k + 1);
    }
}

/// Parses a desired count given as text: an optional sign and at least one
/// decimal digit, within the count type's range. Anything else: the caller
/// falls back to reading a per-service mapping from a file - parses to
/// nothing.
pub fn parse_desired_count(s: &str) -> (r: Option<i64>)
    ensures
        r == parsed_count(s@),
{
    let n = s.unicode_len();
    if n == 0 {
        return None;
    }
    let c0 = s.get_char(0);
    let negative = c0 == '-';
    let start: usize = if c0 == '-' || c0 == '+' {
        1
    } else {
        0
    };
    let ghost digits = count_digits(s@);
    proof {
        assert(digits =~= s@.subrange(start as int, n as int));
    }
    if start == n {
        // a bare sign has no digits
        return None;
    }
    let mut acc: i64 = 0;
    let mut i: usize = start;
    while i < n
        invariant
            start <= i <= n,
            start <= 1,
            n == s@.len(),
            digits == count_digits(s@),
            digits == s@.subrange(start as int, n as int),
            forall|j: int| start <= j < i ==> is_count_digit(s@[j]),
            acc <= 0,
            acc == -digits_value(s@.subrange(start as int, i as int)),
        decreases n - i,
    {
        let c = s.get_char(i);
        let u = c as u32;
        if u < 48 || u > 57 {
            proof {
                assert(digits[i - start] == s@[i as int]);
                assert(!all_count_digits(digits));
            }
            return None;
        }
        let d = (u - 48) as i64;
        let ghost prefix = s@.subrange(start as int, i as int);
        let ghost extended = s@.subrange(start as int, i + 1);
        proof {
            assert(extended.drop_last() =~= prefix);
            assert(extended.last() == s@[i as int]);
            assert(digits_value(extended) == digits_value(prefix) * 10 + d);
        }
        let stepped: i64;
        match acc.checked_mul(10) {
            Some(a) => {
                match a.checked_sub(d) {
                    Some(b) => {
                        stepped = b;
                    },
                    None => {
                        proof {
                            lemma_count_overflow(s@, digits, start as int, i as int);
                        }
                        return None;
                    },
                }
            },
            None => {
                proof {
                    lemma_count_overflow(s@, digits, start as int, i as int);
                }
                return None;
            },
        }
        acc = stepped;
        i = i + 1;
    }
    proof {
        assert forall|j: int| 0 <= j < digits.len() implies is_count_digit(digits[j]) by {
            assert(digits[j] == s@[start + j]);
        }
        assert(digits =~= s@.subrange(start as int, n as int));
        lemma_digits_value_nonneg(digits);
    }
    if negative {
        Some(acc)
    } else {
        match 0i64.checked_sub(acc) {
            Some(v) => Some(v),
            None => None,
        }
    }
}

/// When the next accumulation step leaves the count type, the whole literal's
/// value does too, whatever digits follow.
proof fn lemma_count_overflow(s: Seq<char>, digits: Seq<char>, start: int, i: int)
    requires
        0 <= start <= i < s.len(),
        digits == count_digits(s),
        digits == s.subrange(start, s.len() as int),
        forall|j: int| start <= j <= i ==> is_count_digit(s[j]),
        digits_value(s.subrange(start, i + 1)) > (i64::MAX as int) + 1,
    ensures
        count_value(s) is Some ==> (count_value(s).unwrap() > i64::MAX || count_value(s).unwrap()
            < i64::MIN),
{
    if count_value(s) is Some {
        let k = i + 1 - start;
        assert(all_count_digits(digits));
        assert(digits.subrange(0, k) =~= s.subrange(start, i + 1));
        lemma_digits_value_mono(digits, k);
        assert(digits_value(digits) > (i64::MAX as int) + 1);
    }
}

/// The retry description of an update: `Updating <cluster>/<service>`.
pub fn updating_description(cluster: &str, service: &str) -> (r: String)
    ensures
        r@ == "Updating "@ + cluster@ + "/"@ + service@,
{
    let mut m = "Updating ".to_owned();
    m.append(cluster);
    m.append("/");
    m.append(service);
    m
}

} // verus!
