//! The behavioural laws of the library, stated over the spec-level model
//! and proved once and for all: how one recorded status moves the counters,
//! how repeated polls accumulate, and that every observed counter shows up
//! in the rendered snapshot.

use vstd::prelude::*;
use crate::registry::{
    counter_value, has_family, inc_families, lemma_inc_counter, lemma_inc_preserves_shape,
    FamilyV, LabelsV,
};
use crate::collector::{
    bucket_name, buckets_registered, client_error_family, fixed_labels, server_error_family,
    spec_record, spec_track, success_family, PollOutcome,
};
use crate::exposition::{render_families, render_family, render_sample, render_samples};

verus! {

/// The three bucket family names are pairwise distinct.
pub proof fn lemma_bucket_names_distinct()
    ensures
        success_family() != client_error_family(),
        success_family() != server_error_family(),
        client_error_family() != server_error_family(),
{
    reveal_strlit("http_request_code_200");
    reveal_strlit("http_request_code_400");
    reveal_strlit("http_request_code_500");
    assert(success_family()[18] == '2');
    assert(client_error_family()[18] == '4');
    assert(server_error_family()[18] == '5');
}

/// An increment never removes a registered family.
proof fn lemma_inc_preserves_has_family(fs: Seq<FamilyV>, name: Seq<char>, l: LabelsV, x: Seq<char>)
    requires
        has_family(fs, x),
    ensures
        has_family(inc_families(fs, name, l), x),
{
    lemma_inc_preserves_shape(fs, name, l);
    let k = choose|k: int| 0 <= k < fs.len() && fs[k].name == x;
    assert(inc_families(fs, name, l)[k].name == x);
}

/// Recording never unregisters a bucket family.
pub proof fn lemma_track_preserves_buckets(fs: Seq<FamilyV>, url: Seq<char>, status: int)
    requires
        buckets_registered(fs),
    ensures
        buckets_registered(spec_track(fs, url, status)),
{
    if let Some(name) = bucket_name(status) {
        lemma_inc_preserves_has_family(fs, name, fixed_labels(url), success_family());
        lemma_inc_preserves_has_family(fs, name, fixed_labels(url), client_error_family());
        lemma_inc_preserves_has_family(fs, name, fixed_labels(url), server_error_family());
    }
}

/// A status in [200, 299] raises exactly the success counter for this URL's
/// labels by one; the two error buckets, and every other counter of the
/// registry, keep their value.
pub proof fn lemma_success_bucket(
    fs: Seq<FamilyV>,
    url: Seq<char>,
    status: int,
    name2: Seq<char>,
    l2: LabelsV,
)
    requires
        200 <= status <= 299,
        buckets_registered(fs),
    ensures
        counter_value(spec_track(fs, url, status), success_family(), fixed_labels(url))
            == counter_value(fs, success_family(), fixed_labels(url)) + 1,
        counter_value(spec_track(fs, url, status), client_error_family(), fixed_labels(url))
            == counter_value(fs, client_error_family(), fixed_labels(url)),
        counter_value(spec_track(fs, url, status), server_error_family(), fixed_labels(url))
            == counter_value(fs, server_error_family(), fixed_labels(url)),
        !(name2 == success_family() && l2 == fixed_labels(url)) ==> counter_value(
            spec_track(fs, url, status),
            name2,
            l2,
        ) == counter_value(fs, name2, l2),
{
    lemma_bucket_names_distinct();
    lemma_inc_counter(fs, success_family(), fixed_labels(url), name2, l2);
    lemma_inc_counter(fs, success_family(), fixed_labels(url), client_error_family(), fixed_labels(url));
    lemma_inc_counter(fs, success_family(), fixed_labels(url), server_error_family(), fixed_labels(url));
}

/// A status in [400, 499] raises exactly the client-error counter for this
/// URL's labels by one; every other counter keeps its value.
pub proof fn lemma_client_error_bucket(
    fs: Seq<FamilyV>,
    url: Seq<char>,
    status: int,
    name2: Seq<char>,
    l2: LabelsV,
)
    requires
        400 <= status <= 499,
        buckets_registered(fs),
    ensures
        counter_value(spec_track(fs, url, status), client_error_family(), fixed_labels(url))
            == counter_value(fs, client_error_family(), fixed_labels(url)) + 1,
        counter_value(spec_track(fs, url, status), success_family(), fixed_labels(url))
            == counter_value(fs, success_family(), fixed_labels(url)),
        counter_value(spec_track(fs, url, status), server_error_family(), fixed_labels(url))
            == counter_value(fs, server_error_family(), fixed_labels(url)),
        !(name2 == client_error_family() && l2 == fixed_labels(url)) ==> counter_value(
            spec_track(fs, url, status),
            name2,
            l2,
        ) == counter_value(fs, name2, l2),
{
    lemma_bucket_names_distinct();
    lemma_inc_counter(fs, client_error_family(), fixed_labels(url), name2, l2);
    lemma_inc_counter(fs, client_error_family(), fixed_labels(url), success_family(), fixed_labels(url));
    lemma_inc_counter(fs, client_error_family(), fixed_labels(url), server_error_family(), fixed_labels(url));
}

/// A status in [500, 599] raises exactly the server-error counter for this
/// URL's labels by one; every other counter keeps its value.
pub proof fn lemma_server_error_bucket(
    fs: Seq<FamilyV>,
    url: Seq<char>,
    status: int,
    name2: Seq<char>,
    l2: LabelsV,
)
    requires
        500 <= status <= 599,
        buckets_registered(fs),
    ensures
        counter_value(spec_track(fs, url, status), server_error_family(), fixed_labels(url))
            == counter_value(fs, server_error_family(), fixed_labels(url)) + 1,
        counter_value(spec_track(fs, url, status), success_family(), fixed_labels(url))
            == counter_value(fs, success_family(), fixed_labels(url)),
        counter_value(spec_track(fs, url, status), client_error_family(), fixed_labels(url))
            == counter_value(fs, client_error_family(), fixed_labels(url)),
        !(name2 == server_error_family() && l2 == fixed_labels(url)) ==> counter_value(
            spec_track(fs, url, status),
            name2,
            l2,
        ) == counter_value(fs, name2, l2),
{
    lemma_bucket_names_distinct();
    lemma_inc_counter(fs, server_error_family(), fixed_labels(url), name2, l2);
    lemma_inc_counter(fs, server_error_family(), fixed_labels(url), success_family(), fixed_labels(url));
    lemma_inc_counter(fs, server_error_family(), fixed_labels(url), client_error_family(), fixed_labels(url));
}

/// A status in [100, 199], in [300, 399], or outside [100, 599] falls in no
/// bucket and changes no counter: the registry stays exactly as it was.
pub proof fn lemma_unclassified_no_change(fs: Seq<FamilyV>, url: Seq<char>, status: int)
    requires
        bucket_name(status) is None,
    ensures
        spec_track(fs, url, status) == fs,
{
}

/// In a registry whose families have no observations yet — as
/// `register_custom_metrics` builds it — every counter reads 0.
pub proof fn lemma_fresh_counters_zero(fs: Seq<FamilyV>, name: Seq<char>, l: LabelsV)
    requires
        forall|i: int| 0 <= i < fs.len() ==> #[trigger] fs[i].samples.len() == 0,
    ensures
        counter_value(fs, name, l) == 0,
    decreases fs.len(),
{
    if fs.len() > 0 {
        assert forall|i: int| 0 <= i < fs.drop_first().len() implies #[trigger] fs.drop_first()[
            i
        ].samples.len() == 0 by {
            assert(fs.drop_first()[i] == fs[i + 1]);
        }
        lemma_fresh_counters_zero(fs.drop_first(), name, l);
    }
}

/// The registry after n consecutive polls that all produced `status`.
pub open spec fn spec_track_n(fs: Seq<FamilyV>, url: Seq<char>, status: int, n: nat) -> Seq<
    FamilyV,
>
    decreases n,
{
    if n == 0 {
        fs
    } else {
        spec_track(spec_track_n(fs, url, status, (n - 1) as nat), url, status)
    }
}

/// Repeated polls with the same outcome accumulate monotonically: n
/// consecutive polls that land in one bucket raise that bucket's counter by
/// exactly n — from a fresh registry, to exactly n. Scrapes cannot disturb
/// this: `MetricRegistry::render_text` borrows the registry immutably and
/// changes no counter.
pub proof fn lemma_repeated_polls_accumulate(
    fs: Seq<FamilyV>,
    url: Seq<char>,
    status: int,
    nm: Seq<char>,
    n: nat,
)
    requires
        buckets_registered(fs),
        bucket_name(status) == Some(nm),
    ensures
        counter_value(spec_track_n(fs, url, status, n), nm, fixed_labels(url)) == counter_value(
            fs,
            nm,
            fixed_labels(url),
        ) + n,
        buckets_registered(spec_track_n(fs, url, status, n)),
    decreases n,
{
    if n > 0 {
        lemma_repeated_polls_accumulate(fs, url, status, nm, (n - 1) as nat);
        let mid = spec_track_n(fs, url, status, (n - 1) as nat);
        lemma_inc_counter(mid, nm, fixed_labels(url), nm, fixed_labels(url));
        lemma_track_preserves_buckets(mid, url, status);
    }
}

/// The bucket an outcome is counted in, if any.
pub open spec fn outcome_bucket(o: PollOutcome) -> Option<Seq<char>> {
    match o {
        PollOutcome::Status(code) => bucket_name(code as int),
        PollOutcome::TransportFailure => None,
    }
}

/// The registry after a finite run of poll outcomes, recorded in order.
pub open spec fn spec_record_seq(fs: Seq<FamilyV>, url: Seq<char>, outcomes: Seq<PollOutcome>) -> Seq<
    FamilyV,
>
    decreases outcomes.len(),
{
    if outcomes.len() == 0 {
        fs
    } else {
        spec_record(spec_record_seq(fs, url, outcomes.drop_last()), url, outcomes.last())
    }
}

/// How many outcomes of the run were counted in the family named `nm`.
pub open spec fn recorded_hits(outcomes: Seq<PollOutcome>, nm: Seq<char>) -> nat
    decreases outcomes.len(),
{
    if outcomes.len() == 0 {
        0
    } else {
        recorded_hits(outcomes.drop_last(), nm) + if outcome_bucket(outcomes.last()) == Some(nm) {
            1nat
        } else {
            0nat
        }
    }
}

/// No update is ever lost, and none invented: once a run of polls has
/// settled, every counter reads its initial value plus exactly the number
/// of outcomes that landed in its bucket under this URL's labels. A scrape
/// at any point of the run cannot change this — `render_text` is a pure
/// read — so the snapshot taken after the run reflects the true totals.
pub proof fn lemma_settled_counters_exact(
    fs: Seq<FamilyV>,
    url: Seq<char>,
    outcomes: Seq<PollOutcome>,
    nm: Seq<char>,
    l2: LabelsV,
)
    requires
        buckets_registered(fs),
    ensures
        buckets_registered(spec_record_seq(fs, url, outcomes)),
        counter_value(spec_record_seq(fs, url, outcomes), nm, l2) == counter_value(fs, nm, l2) + (
        if l2 == fixed_labels(url) {
            recorded_hits(outcomes, nm)
        } else {
            0nat
        }),
    decreases outcomes.len(),
{
    if outcomes.len() > 0 {
        lemma_settled_counters_exact(fs, url, outcomes.drop_last(), nm, l2);
        let mid = spec_record_seq(fs, url, outcomes.drop_last());
        match outcomes.last() {
            PollOutcome::Status(code) => {
                lemma_track_preserves_buckets(mid, url, code as int);
                if let Some(b) = bucket_name(code as int) {
                    lemma_inc_counter(mid, b, fixed_labels(url), nm, l2);
                }
            },
            PollOutcome::TransportFailure => {},
        }
    }
}

/// Whether `needle` occurs contiguously somewhere in `hay`.
pub open spec fn contains_seq(hay: Seq<char>, needle: Seq<char>) -> bool {
    exists|k: int|
        0 <= k && k + needle.len() <= hay.len() && #[trigger] hay.subrange(k, k + needle.len())
            == needle
}

/// Rendering distributes over concatenation of family lists.
proof fn lemma_render_families_cat(a: Seq<FamilyV>, b: Seq<FamilyV>)
    ensures
        render_families(a + b) == render_families(a) + render_families(b),
    decreases a.len(),
{
    if a.len() == 0 {
        assert(a + b =~= b);
        assert(render_families(Seq::<FamilyV>::empty()) =~= Seq::<char>::empty());
        assert(render_families(a + b) =~= render_families(a) + render_families(b));
    } else {
        lemma_render_families_cat(a.drop_first(), b);
        assert((a + b)[0] == a[0]);
        assert((a + b).drop_first() =~= a.drop_first() + b);
        assert(render_families(a + b) =~= render_families(a) + render_families(b));
    }
}

/// If the haystack splits as pre + x + post, then x occurs in it.
proof fn lemma_contains_at(hay: Seq<char>, pre: Seq<char>, x: Seq<char>, post: Seq<char>)
    requires
        hay == pre + x + post,
    ensures
        contains_seq(hay, x),
{
    let k = pre.len() as int;
    assert(hay.subrange(k, k + x.len()) =~= x);
}

/// The rendered snapshot is valid exposition text in this sense: every
/// family with at least one observed label combination contributes at least
/// one sample line `name{...} value`, verbatim, to the output. (A family
/// with no observations legitimately contributes none.)
pub proof fn lemma_observed_family_has_sample_line(fs: Seq<FamilyV>, i: int)
    requires
        0 <= i < fs.len(),
        fs[i].samples.len() > 0,
    ensures
        contains_seq(render_families(fs), render_sample(fs[i].name, fs[i].samples[0])),
{
    let mid = seq![fs[i]] + fs.skip(i + 1);
    assert(fs =~= fs.take(i) + mid);
    lemma_render_families_cat(fs.take(i), mid);
    assert(mid[0] == fs[i]);
    assert(mid.drop_first() =~= fs.skip(i + 1));
    let header = "# HELP "@ + fs[i].name + " "@ + fs[i].help + "\n"@ + "# TYPE "@ + fs[i].name
        + " counter\n"@;
    let line = render_sample(fs[i].name, fs[i].samples[0]);
    let rest = render_samples(fs[i].name, fs[i].samples.drop_first());
    let pre = render_families(fs.take(i)) + header;
    let post = rest + render_families(fs.skip(i + 1));
    assert(render_families(mid) == render_family(fs[i]) + render_families(fs.skip(i + 1)));
    assert(render_family(fs[i]) == header + (line + rest));
    assert(render_families(fs) =~= pre + line + post);
    lemma_contains_at(render_families(fs), pre, line, post);
}

} // verus!
