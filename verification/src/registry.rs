//! The metric registry: counter families keyed by an ordered set of label
//! values, with lazy creation of counters on first observation.

use vstd::prelude::*;

verus! {

/// The label values attached to a counter sample: the polled URL plus the
/// (fixed) HTTP version and request method strings.
pub struct LabelValues {
    pub url: String,
    pub http_ver: String,
    pub method: String,
}

/// Mathematical image of `LabelValues`: the three label values as character
/// sequences.
#[verifier::ext_equal]
pub ghost struct LabelsV {
    pub url: Seq<char>,
    pub http_ver: Seq<char>,
    pub method: Seq<char>,
}

impl View for LabelValues {
    type V = LabelsV;

    open spec fn view(&self) -> LabelsV {
        LabelsV { url: self.url@, http_ver: self.http_ver@, method: self.method@ }
    }
}

/// One counter: a label combination and its current count.
pub struct Sample {
    pub labels: LabelValues,
    pub value: u64,
}

/// Mathematical image of `Sample`.
#[verifier::ext_equal]
pub ghost struct SampleV {
    pub labels: LabelsV,
    pub value: nat,
}

impl View for Sample {
    type V = SampleV;

    open spec fn view(&self) -> SampleV {
        SampleV { labels: self.labels@, value: self.value as nat }
    }
}

/// One metric family: a name, a help text, and the counters observed so far,
/// in order of first observation.
pub struct Family {
    pub name: String,
    pub help: String,
    pub samples: Vec<Sample>,
}

/// Mathematical image of `Family`.
#[verifier::ext_equal]
pub ghost struct FamilyV {
    pub name: Seq<char>,
    pub help: Seq<char>,
    pub samples: Seq<SampleV>,
}

impl View for Family {
    type V = FamilyV;

    open spec fn view(&self) -> FamilyV {
        FamilyV {
            name: self.name@,
            help: self.help@,
            samples: self.samples@.map_values(|s: Sample| s@),
        }
    }
}

/// Why a registration was refused.
#[derive(Clone, Copy, Debug, PartialEq, Eq, Structural)]
pub enum RegistryError {
    /// A family with the same name is already registered.
    DuplicateFamily,
}

/// The registry: the families registered so far, in registration order.
pub struct MetricRegistry {
    pub families: Vec<Family>,
}

impl View for MetricRegistry {
    type V = Seq<FamilyV>;

    open spec fn view(&self) -> Seq<FamilyV> {
        self.families@.map_values(|f: Family| f@)
    }
}

/// Whether a family with this name is registered.
pub open spec fn has_family(fs: Seq<FamilyV>, name: Seq<char>) -> bool {
    exists|i: int| 0 <= i < fs.len() && fs[i].name == name
}

/// No two samples of one family carry the same label combination.
pub open spec fn samples_distinct(ss: Seq<SampleV>) -> bool {
    forall|i: int, j: int| 0 <= i < j < ss.len() ==> ss[i].labels != ss[j].labels
}

/// The current count for a label combination within one family's samples:
/// the value of the first sample carrying those labels, 0 when none does.
pub open spec fn samples_value(ss: Seq<SampleV>, l: LabelsV) -> nat
    decreases ss.len(),
{
    if ss.len() == 0 {
        0
    } else if ss[0].labels == l {
        ss[0].value
    } else {
        samples_value(ss.drop_first(), l)
    }
}

/// The current count for (family name, label combination) in the registry:
/// 0 when the family or the label combination has never been observed.
pub open spec fn counter_value(fs: Seq<FamilyV>, name: Seq<char>, l: LabelsV) -> nat
    decreases fs.len(),
{
    if fs.len() == 0 {
        0
    } else if fs[0].name == name {
        samples_value(fs[0].samples, l)
    } else {
        counter_value(fs.drop_first(), name, l)
    }
}

/// One increment applied to a family's samples: the first sample carrying
/// these labels counts one more; absent, a fresh sample at 1 is appended.
pub open spec fn inc_samples(ss: Seq<SampleV>, l: LabelsV) -> Seq<SampleV>
    decreases ss.len(),
{
    if ss.len() == 0 {
        seq![SampleV { labels: l, value: 1 }]
    } else if ss[0].labels == l {
        seq![SampleV { labels: l, value: ss[0].value + 1 }] + ss.drop_first()
    } else {
        seq![ss[0]] + inc_samples(ss.drop_first(), l)
    }
}

/// One increment applied to the registry: the first family of this name has
/// its samples incremented; the rest is untouched. Without such a family the
/// registry is unchanged.
pub open spec fn inc_families(fs: Seq<FamilyV>, name: Seq<char>, l: LabelsV) -> Seq<FamilyV>
    decreases fs.len(),
{
    if fs.len() == 0 {
        fs
    } else if fs[0].name == name {
        seq![FamilyV { name: fs[0].name, help: fs[0].help, samples: inc_samples(fs[0].samples, l) }]
            + fs.drop_first()
    } else {
        seq![fs[0]] + inc_families(fs.drop_first(), name, l)
    }
}

/// Splitting off a prefix of families whose names all miss `name` changes
/// neither the counter value nor the effect of an increment, beyond keeping
/// that prefix in place.
pub proof fn lemma_families_skip(fs: Seq<FamilyV>, name: Seq<char>, l: LabelsV, i: int)
    requires
        0 <= i <= fs.len(),
        forall|k: int| 0 <= k < i ==> fs[k].name != name,
    ensures
        counter_value(fs, name, l) == counter_value(fs.skip(i), name, l),
        inc_families(fs, name, l) == fs.take(i) + inc_families(fs.skip(i), name, l),
    decreases i,
{
    if i == 0 {
        assert(fs.skip(0) =~= fs);
        assert(fs.take(0) + inc_families(fs, name, l) =~= inc_families(fs, name, l));
    } else {
        lemma_families_skip(fs.drop_first(), name, l, i - 1);
        assert(fs.drop_first().skip(i - 1) =~= fs.skip(i));
        assert(fs.drop_first().take(i - 1) =~= fs.take(i).drop_first());
        assert(seq![fs[0]] + (fs.take(i).drop_first() + inc_families(fs.skip(i), name, l)) =~= fs.take(
            i,
        ) + inc_families(fs.skip(i), name, l));
    }
}

/// The same fact one level down, for the samples of one family.
pub proof fn lemma_samples_skip(ss: Seq<SampleV>, l: LabelsV, j: int)
    requires
        0 <= j <= ss.len(),
        forall|k: int| 0 <= k < j ==> ss[k].labels != l,
    ensures
        samples_value(ss, l) == samples_value(ss.skip(j), l),
        inc_samples(ss, l) == ss.take(j) + inc_samples(ss.skip(j), l),
    decreases j,
{
    if j == 0 {
        assert(ss.skip(0) =~= ss);
        assert(ss.take(0) + inc_samples(ss, l) =~= inc_samples(ss, l));
    } else {
        lemma_samples_skip(ss.drop_first(), l, j - 1);
        assert(ss.drop_first().skip(j - 1) =~= ss.skip(j));
        assert(ss.drop_first().take(j - 1) =~= ss.take(j).drop_first());
        assert(seq![ss[0]] + (ss.take(j).drop_first() + inc_samples(ss.skip(j), l)) =~= ss.take(j)
            + inc_samples(ss.skip(j), l));
    }
}

/// An increment raises the count of exactly the targeted label combination
/// by one and leaves every other combination of the family untouched.
pub proof fn lemma_inc_samples_value(ss: Seq<SampleV>, l: LabelsV, l2: LabelsV)
    ensures
        samples_value(inc_samples(ss, l), l) == samples_value(ss, l) + 1,
        l2 != l ==> samples_value(inc_samples(ss, l), l2) == samples_value(ss, l2),
    decreases ss.len(),
{
    if ss.len() == 0 {
        let one = SampleV { labels: l, value: 1 };
        assert(inc_samples(ss, l) =~= seq![one]);
        assert(seq![one].drop_first() =~= Seq::<SampleV>::empty());
        if l2 != l {
            assert(samples_value(inc_samples(ss, l), l2) == samples_value(
                seq![one].drop_first(),
                l2,
            ));
            assert(samples_value(inc_samples(ss, l), l2) == 0);
        }
    } else if ss[0].labels == l {
        let head = SampleV { labels: l, value: ss[0].value + 1 };
        assert((seq![head] + ss.drop_first())[0] == head);
        assert((seq![head] + ss.drop_first()).drop_first() =~= ss.drop_first());
    } else {
        lemma_inc_samples_value(ss.drop_first(), l, l2);
        assert((seq![ss[0]] + inc_samples(ss.drop_first(), l))[0] == ss[0]);
        assert((seq![ss[0]] + inc_samples(ss.drop_first(), l)).drop_first() =~= inc_samples(
            ss.drop_first(),
            l,
        ));
    }
}

/// An increment keeps the number, the names and the help texts of the
/// families exactly as they were.
pub proof fn lemma_inc_preserves_shape(fs: Seq<FamilyV>, name: Seq<char>, l: LabelsV)
    ensures
        inc_families(fs, name, l).len() == fs.len(),
        forall|k: int|
            0 <= k < fs.len() ==> #[trigger] inc_families(fs, name, l)[k].name == fs[k].name
                && inc_families(fs, name, l)[k].help == fs[k].help,
    decreases fs.len(),
{
    if fs.len() == 0 {
    } else if fs[0].name == name {
        let head = FamilyV {
            name: fs[0].name,
            help: fs[0].help,
            samples: inc_samples(fs[0].samples, l),
        };
        assert(inc_families(fs, name, l) =~= seq![head] + fs.drop_first());
        assert forall|k: int| 0 <= k < fs.len() implies #[trigger] inc_families(fs, name, l)[k].name
            == fs[k].name && inc_families(fs, name, l)[k].help == fs[k].help by {
            if k > 0 {
                assert(inc_families(fs, name, l)[k] == fs.drop_first()[k - 1]);
            }
        }
    } else {
        lemma_inc_preserves_shape(fs.drop_first(), name, l);
        assert(inc_families(fs, name, l) =~= seq![fs[0]] + inc_families(fs.drop_first(), name, l));
        assert forall|k: int| 0 <= k < fs.len() implies #[trigger] inc_families(fs, name, l)[k].name
            == fs[k].name && inc_families(fs, name, l)[k].help == fs[k].help by {
            if k > 0 {
                assert(inc_families(fs, name, l)[k] == inc_families(fs.drop_first(), name, l)[k
                    - 1]);
                assert(fs[k] == fs.drop_first()[k - 1]);
            }
        }
    }
}

/// An increment on (name, l) raises exactly that counter by one; every
/// other (name, label) counter of the registry keeps its value.
pub proof fn lemma_inc_counter(
    fs: Seq<FamilyV>,
    name: Seq<char>,
    l: LabelsV,
    name2: Seq<char>,
    l2: LabelsV,
)
    requires
        has_family(fs, name),
    ensures
        counter_value(inc_families(fs, name, l), name, l) == counter_value(fs, name, l) + 1,
        !(name2 == name && l2 == l) ==> counter_value(inc_families(fs, name, l), name2, l2)
            == counter_value(fs, name2, l2),
    decreases fs.len(),
{
    if fs[0].name == name {
        let head = FamilyV {
            name: fs[0].name,
            help: fs[0].help,
            samples: inc_samples(fs[0].samples, l),
        };
        let out = seq![head] + fs.drop_first();
        assert(inc_families(fs, name, l) == out);
        assert(out[0] == head);
        assert(out.drop_first() =~= fs.drop_first());
        lemma_inc_samples_value(fs[0].samples, l, l2);
    } else {
        let out = seq![fs[0]] + inc_families(fs.drop_first(), name, l);
        assert(inc_families(fs, name, l) == out);
        assert(out[0] == fs[0]);
        assert(out.drop_first() =~= inc_families(fs.drop_first(), name, l));
        let k = choose|k: int| 0 <= k < fs.len() && fs[k].name == name;
        assert(fs.drop_first()[k - 1].name == name);
        assert(has_family(fs.drop_first(), name));
        lemma_inc_counter(fs.drop_first(), name, l, name2, l2);
    }
}

/// The two label combinations are equal exactly when the result is true.
pub fn labels_eq(a: &LabelValues, b: &LabelValues) -> (r: bool)
    ensures
        r == (a@ == b@),
{
    let r = a.url == b.url && a.http_ver == b.http_ver && a.method == b.method;
    proof {
        if r {
            assert(a@ =~= b@);
        }
    }
    r
}

impl MetricRegistry {
    /// Family names are unique, and within each family each label
    /// combination names at most one counter.
    pub open spec fn wf(self) -> bool {
        &&& forall|i: int, j: int|
            0 <= i < j < self@.len() ==> self@[i].name != self@[j].name
        &&& forall|i: int| 0 <= i < self@.len() ==> samples_distinct(#[trigger] self@[i].samples)
    }

    /// An empty registry.
    pub fn new() -> (r: Self)
        ensures
            r@ =~= Seq::<FamilyV>::empty(),
            r.wf(),
    {
        MetricRegistry { families: Vec::new() }
    }

    /// Registers a counter family. Fails, changing nothing, exactly when a
    /// family of the same name is already registered.
    pub fn register(&mut self, name: String, help: String) -> (r: Result<(), RegistryError>)
        ensures
            r is Ok <==> !has_family(old(self)@, name@),
            r is Ok ==> final(self)@ =~= old(self)@.push(
                FamilyV { name: name@, help: help@, samples: Seq::empty() },
            ),
            r is Err ==> final(self)@ == old(self)@ && r == Result::<(), RegistryError>::Err(
                RegistryError::DuplicateFamily,
            ),
            old(self).wf() ==> final(self).wf(),
    {
        let n = self.families.len();
        let mut i: usize = 0;
        while i < n
            invariant
                n == self.families.len(),
                i <= n,
                forall|k: int| 0 <= k < i ==> self@[k].name != name@,
                *self == *old(self),
            decreases n - i,
        {
            if self.families[i].name == name {
                assert(self@[i as int].name == name@);
                return Err(RegistryError::DuplicateFamily);
            }
            i += 1;
        }
        assert(!has_family(self@, name@));
        let samples: Vec<Sample> = Vec::new();
        let fam = Family { name, help, samples };
        proof {
            assert(fam@ =~= FamilyV { name: name@, help: help@, samples: Seq::<SampleV>::empty() });
        }
        self.families.push(fam);
        assert(self@ =~= old(self)@.push(
            FamilyV { name: name@, help: help@, samples: Seq::empty() },
        ));
        Ok(())
    }

    /// Reads the current count for (name, labels): 0 when the family or the
    /// label combination has never been observed. A pure read.
    pub fn read_counter(&self, name: &String, labels: &LabelValues) -> (r: u64)
        ensures
            r as nat == counter_value(self@, name@, labels@),
    {
        let n = self.families.len();
        let mut i: usize = 0;
        while i < n
            invariant
                n == self.families@.len(),
                0 <= i <= n,
                forall|k: int| 0 <= k < i ==> self@[k].name != name@,
            decreases n - i,
        {
            if self.families[i].name == *name {
                proof {
                    lemma_families_skip(self@, name@, labels@, i as int);
                    assert(self@.skip(i as int)[0] == self@[i as int]);
                }
                let slen = self.families[i].samples.len();
                let mut j: usize = 0;
                while j < slen
                    invariant
                        0 <= i < self@.len(),
                        self@[i as int].name == name@,
                        forall|k: int| 0 <= k < i ==> self@[k].name != name@,
                        slen == self@[i as int].samples.len(),
                        0 <= j <= slen,
                        forall|k: int| 0 <= k < j ==> self@[i as int].samples[k].labels
                            != labels@,
                    decreases slen - j,
                {
                    let e = labels_eq(&self.families[i].samples[j].labels, labels);
                    proof {
                        assert(self@[i as int].samples[j as int] == self.families@[
                            i as int
                        ].samples@[j as int]@);
                    }
                    if e {
                        proof {
                            lemma_families_skip(self@, name@, labels@, i as int);
                            assert(self@.skip(i as int)[0] == self@[i as int]);
                            lemma_samples_skip(self@[i as int].samples, labels@, j as int);
                            assert(self@[i as int].samples.skip(j as int)[0] == self@[
                                i as int
                            ].samples[j as int]);
                        }
                        return self.families[i].samples[j].value;
                    }
                    j += 1;
                }
                proof {
                    lemma_families_skip(self@, name@, labels@, i as int);
                    assert(self@.skip(i as int)[0] == self@[i as int]);
                    lemma_samples_skip(self@[i as int].samples, labels@, slen as int);
                }
                return 0;
            }
            i += 1;
        }
        proof {
            lemma_families_skip(self@, name@, labels@, n as int);
        }
        0
    }

    /// Adds one to the counter for (name, labels), creating it with value 1
    /// on the first observation of this label combination. A name that was
    /// never registered is a programming error and is ruled out up front.
    pub fn increment(&mut self, name: &String, labels: LabelValues)
        requires
            has_family(old(self)@, name@),
            counter_value(old(self)@, name@, labels@) < u64::MAX,
        ensures
            final(self)@ == inc_families(old(self)@, name@, labels@),
            counter_value(final(self)@, name@, labels@) == counter_value(
                old(self)@,
                name@,
                labels@,
            ) + 1,
            old(self).wf() ==> final(self).wf(),
    {
        let ghost fs0 = self@;
        let ghost l = labels@;
        let n = self.families.len();
        let mut i: usize = 0;
        while !(self.families[i].name == *name)
            invariant
                *self == *old(self),
                n == self.families@.len(),
                0 <= i <= self@.len(),
                exists|k: int| i <= k < self@.len() && self@[k].name == name@,
                forall|k: int| 0 <= k < i ==> self@[k].name != name@,
            decreases self@.len() - i,
        {
            i += 1;
        }
        assert(self@[i as int].name == name@);
        proof {
            lemma_families_skip(fs0, name@, l, i as int);
            assert(fs0.skip(i as int)[0] == fs0[i as int]);
        }
        let slen = self.families[i].samples.len();
        let mut j: usize = 0;
        let mut found: bool = false;
        while !found && j < slen
            invariant
                *self == *old(self),
                l == labels@,
                slen == self@[i as int].samples.len(),
                0 <= i < self@.len(),
                0 <= j <= slen,
                forall|k: int| 0 <= k < j ==> self@[i as int].samples[k].labels != l,
                found ==> j < slen && self@[i as int].samples[j as int].labels == l,
            decreases slen - j, (if found { 0int } else { 1int }),
        {
            let e = labels_eq(&self.families[i].samples[j].labels, &labels);
            proof {
                assert(self@[i as int].samples[j as int] == self.families@[i as int].samples@[
                    j as int
                ]@);
            }
            if e {
                found = true;
            } else {
                j += 1;
            }
        }
        proof {
            lemma_samples_skip(fs0[i as int].samples, l, j as int);
            if j < fs0[i as int].samples.len() {
                assert(fs0[i as int].samples.skip(j as int)[0] == fs0[i as int].samples[j as int]);
            }
        }
        let ghost target = inc_families(fs0, name@, l);
        if found {
            assert(counter_value(fs0, name@, l) == fs0[i as int].samples[j as int].value);
            let v = self.families[i].samples[j].value;
            self.families[i].samples[j].value = v + 1;
            proof {
                assert(fs0[i as int].samples.skip(j as int).drop_first() =~= fs0[
                    i as int
                ].samples.skip(j as int + 1));
                assert(self@.len() == target.len());
                assert forall|k: int| 0 <= k < self@.len() implies self@[k] == target[k] by {
                    if k != i {
                        assert(self@[k] =~~= fs0[k]);
                        assert(target[k] =~~= fs0[k]);
                    } else {
                        assert(self@[k].samples =~~= inc_samples(fs0[k].samples, l));
                        assert(self@[k] =~~= target[k]);
                    }
                }
                assert(self@ =~= target);
            }
        } else {
            assert(counter_value(fs0, name@, l) == 0);
            self.families[i].samples.push(Sample { labels, value: 1 });
            proof {
                assert(fs0[i as int].samples.skip(slen as int) =~= Seq::<SampleV>::empty());
                assert(self@.len() == target.len());
                assert forall|k: int| 0 <= k < self@.len() implies self@[k] == target[k] by {
                    if k != i {
                        assert(self@[k] =~~= fs0[k]);
                        assert(target[k] =~~= fs0[k]);
                    } else {
                        assert(self@[k].samples =~~= inc_samples(fs0[k].samples, l));
                        assert(self@[k] =~~= target[k]);
                    }
                }
                assert(self@ =~= target);
            }
        }
        proof {
            lemma_inc_counter(fs0, name@, l, name@, l);
            if old(self).wf() {
                assert forall|a: int, b: int| 0 <= a < b < self@.len() implies self@[a].name
                    != self@[b].name by {
                    assert(self@[a].name == fs0[a].name);
                    assert(self@[b].name == fs0[b].name);
                }
                assert forall|a: int| 0 <= a < self@.len() implies samples_distinct(
                    #[trigger] self@[a].samples,
                ) by {
                    if a != i {
                        assert(self@[a].samples == fs0[a].samples);
                    } else {
                        let ns = self@[a].samples;
                        let os = fs0[a].samples;
                        assert forall|p: int, q: int| 0 <= p < q < ns.len() implies ns[p].labels
                            != ns[q].labels by {
                            if q < os.len() {
                                assert(ns[p].labels == os[p].labels);
                                assert(ns[q].labels == os[q].labels);
                            } else {
                                assert(ns[p].labels == os[p].labels);
                                assert(ns[q].labels == l);
                            }
                        }
                    }
                }
            }
        }
    }
}

} // verus!
