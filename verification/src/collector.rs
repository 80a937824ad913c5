//! Classification of poll outcomes into counter families, and the fixed
//! family set that the service registers at startup.

use vstd::prelude::*;
use crate::registry::{
    has_family, counter_value, inc_families, FamilyV, LabelsV, LabelValues, MetricRegistry,
    SampleV,
};

verus! {

/// Name of the family counting responses with a status in [200, 299].
pub open spec fn success_family() -> Seq<char> {
    "http_request_code_200"@
}

/// Name of the family counting responses with a status in [400, 499].
pub open spec fn client_error_family() -> Seq<char> {
    "http_request_code_400"@
}

/// Name of the family counting responses with a status in [500, 599].
pub open spec fn server_error_family() -> Seq<char> {
    "http_request_code_500"@
}

/// The label combination every recorded sample carries: the polled URL, and
/// the fixed protocol and method strings (not derived from the actual
/// request).
pub open spec fn fixed_labels(url: Seq<char>) -> LabelsV {
    LabelsV { url: url, http_ver: "HTTP/1.1"@, method: "GET"@ }
}

/// The family a status code is counted in: None for 1xx, 3xx and anything
/// outside [100, 599], which are deliberately not recorded.
pub open spec fn bucket_name(status: int) -> Option<Seq<char>> {
    if 200 <= status <= 299 {
        Some(success_family())
    } else if 400 <= status <= 499 {
        Some(client_error_family())
    } else if 500 <= status <= 599 {
        Some(server_error_family())
    } else {
        None
    }
}

/// The registry after one status code is recorded: the matching bucket's
/// counter for (url, "HTTP/1.1", "GET") one higher, or the registry
/// unchanged when the status falls in no bucket.
pub open spec fn spec_track(fs: Seq<FamilyV>, url: Seq<char>, status: int) -> Seq<FamilyV> {
    match bucket_name(status) {
        Some(name) => inc_families(fs, name, fixed_labels(url)),
        None => fs,
    }
}

/// The counter a recording of `status` would touch is still below the
/// machine limit (vacuously true for statuses that fall in no bucket).
pub open spec fn can_track(fs: Seq<FamilyV>, url: Seq<char>, status: int) -> bool {
    match bucket_name(status) {
        Some(name) => counter_value(fs, name, fixed_labels(url)) < u64::MAX,
        None => true,
    }
}

/// All three bucket families are registered.
pub open spec fn buckets_registered(fs: Seq<FamilyV>) -> bool {
    &&& has_family(fs, success_family())
    &&& has_family(fs, client_error_family())
    &&& has_family(fs, server_error_family())
}

/// The result of one collection attempt: a numeric status code, or a
/// transport failure that produced no status at all.
pub enum PollOutcome {
    Status(u16),
    TransportFailure,
}

/// The registry after one poll outcome is recorded: a transport failure
/// changes nothing, a status code is classified and counted.
pub open spec fn spec_record(fs: Seq<FamilyV>, url: Seq<char>, outcome: PollOutcome) -> Seq<
    FamilyV,
> {
    match outcome {
        PollOutcome::Status(code) => spec_track(fs, url, code as int),
        PollOutcome::TransportFailure => fs,
    }
}

/// The label values attached to every sample recorded for `url`.
pub fn make_labels(url: String) -> (r: LabelValues)
    ensures
        r@ == fixed_labels(url@),
{
    let r = LabelValues { url, http_ver: "HTTP/1.1".to_owned(), method: "GET".to_owned() };
    proof {
        assert(r@ =~= fixed_labels(r.url@));
    }
    r
}

/// Builds the registry with the fixed family set of this service: one
/// counter family per outcome bucket, each starting with no samples.
/// Registering the same family name twice is impossible here, as the three
/// names are distinct; `MetricRegistry::register` reports it as an error.
pub fn register_custom_metrics() -> (r: MetricRegistry)
    ensures
        r.wf(),
        r@.len() == 3,
        r@[0] == (FamilyV {
            name: success_family(),
            help: "http request returns code 200"@,
            samples: Seq::<SampleV>::empty(),
        }),
        r@[1] == (FamilyV {
            name: client_error_family(),
            help: "http request returns code 400"@,
            samples: Seq::<SampleV>::empty(),
        }),
        r@[2] == (FamilyV {
            name: server_error_family(),
            help: "http request returns code 500"@,
            samples: Seq::<SampleV>::empty(),
        }),
        buckets_registered(r@),
{
    proof {
        reveal_strlit("http_request_code_200");
        reveal_strlit("http_request_code_400");
        reveal_strlit("http_request_code_500");
        assert(success_family()[18] == '2');
        assert(client_error_family()[18] == '4');
        assert(server_error_family()[18] == '5');
    }
    let mut r = MetricRegistry::new();
    let res200 = r.register(
        "http_request_code_200".to_owned(),
        "http request returns code 200".to_owned(),
    );
    assert(res200 is Ok);
    let res400 = r.register(
        "http_request_code_400".to_owned(),
        "http request returns code 400".to_owned(),
    );
    assert(res400 is Ok);
    let res500 = r.register(
        "http_request_code_500".to_owned(),
        "http request returns code 500".to_owned(),
    );
    assert(res500 is Ok);
    assert(r@[0].name == success_family());
    assert(r@[1].name == client_error_family());
    assert(r@[2].name == server_error_family());
    r
}

/// Classifies a status code and counts it in the matching bucket family
/// under the labels (url, "HTTP/1.1", "GET"); 1xx, 3xx and out-of-range
/// codes change no counter.
pub fn track_status_code(registry: &mut MetricRegistry, url: String, status_code: usize)
    requires
        buckets_registered(old(registry)@),
        can_track(old(registry)@, url@, status_code as int),
    ensures
        final(registry)@ == spec_track(old(registry)@, url@, status_code as int),
        old(registry).wf() ==> final(registry).wf(),
{
    if status_code >= 500 && status_code <= 599 {
        let name = "http_request_code_500".to_owned();
        registry.increment(&name, make_labels(url));
    } else if status_code >= 400 && status_code <= 499 {
        let name = "http_request_code_400".to_owned();
        registry.increment(&name, make_labels(url));
    } else if status_code >= 200 && status_code <= 299 {
        let name = "http_request_code_200".to_owned();
        registry.increment(&name, make_labels(url));
    }
}

/// Records one poll outcome: a transport failure is skipped (no backoff, no
/// counter change), a response's status code is classified and counted.
pub fn record_poll_outcome(registry: &mut MetricRegistry, url: String, outcome: PollOutcome)
    requires
        buckets_registered(old(registry)@),
        (outcome matches PollOutcome::Status(code) ==> can_track(
            old(registry)@,
            url@,
            code as int,
        )),
    ensures
        final(registry)@ == spec_record(old(registry)@, url@, outcome),
        old(registry).wf() ==> final(registry).wf(),
{
    match outcome {
        PollOutcome::Status(code) => track_status_code(registry, url, code as usize),
        PollOutcome::TransportFailure => {},
    }
}

} // verus!
