//! Serialization of the registry in the text exposition format: per family
//! a `# HELP` and a `# TYPE` line, then one sample line per observed label
//! combination, in observation order.

use vstd::prelude::*;
use crate::registry::{Family, FamilyV, MetricRegistry, Sample, SampleV};

verus! {

/// The decimal digit character for d in [0, 9].
pub open spec fn digit_char(d: nat) -> char {
    if d == 0 {
        '0'
    } else if d == 1 {
        '1'
    } else if d == 2 {
        '2'
    } else if d == 3 {
        '3'
    } else if d == 4 {
        '4'
    } else if d == 5 {
        '5'
    } else if d == 6 {
        '6'
    } else if d == 7 {
        '7'
    } else if d == 8 {
        '8'
    } else {
        '9'
    }
}

/// The usual decimal writing of n, most significant digit first, no sign,
/// no leading zero except for n == 0 itself.
pub open spec fn dec_rep(n: nat) -> Seq<char>
    decreases n,
{
    if n < 10 {
        seq![digit_char(n)]
    } else {
        dec_rep(n / 10) + seq![digit_char(n % 10)]
    }
}

/// One sample line: `name{url="...",http_ver="...",method="..."} value`.
pub open spec fn render_sample(name: Seq<char>, s: SampleV) -> Seq<char> {
    name + "{url=\""@ + s.labels.url + "\",http_ver=\""@ + s.labels.http_ver + "\",method=\""@
        + s.labels.method + "\"} "@ + dec_rep(s.value) + "\n"@
}

/// The sample lines of one family, in observation order.
pub open spec fn render_samples(name: Seq<char>, ss: Seq<SampleV>) -> Seq<char>
    decreases ss.len(),
{
    if ss.len() == 0 {
        Seq::empty()
    } else {
        render_sample(name, ss[0]) + render_samples(name, ss.drop_first())
    }
}

/// One family: its `# HELP` line, its `# TYPE` line, then its sample lines.
/// A family with no observations contributes its two header lines and no
/// sample line.
pub open spec fn render_family(f: FamilyV) -> Seq<char> {
    "# HELP "@ + f.name + " "@ + f.help + "\n"@ + "# TYPE "@ + f.name + " counter\n"@
        + render_samples(f.name, f.samples)
}

/// The whole snapshot: every registered family, in registration order.
pub open spec fn render_families(fs: Seq<FamilyV>) -> Seq<char>
    decreases fs.len(),
{
    if fs.len() == 0 {
        Seq::empty()
    } else {
        render_family(fs[0]) + render_families(fs.drop_first())
    }
}

/// Appending one more sample appends exactly its line to the rendering.
pub proof fn lemma_render_samples_snoc(name: Seq<char>, ss: Seq<SampleV>, s: SampleV)
    ensures
        render_samples(name, ss.push(s)) == render_samples(name, ss) + render_sample(name, s),
    decreases ss.len(),
{
    if ss.len() == 0 {
        assert(ss.push(s)[0] == s);
        assert(ss.push(s).drop_first() =~= Seq::<SampleV>::empty());
        assert(render_samples(name, Seq::<SampleV>::empty()) =~= Seq::<char>::empty());
        assert(render_samples(name, ss.push(s)) =~= render_samples(name, ss) + render_sample(
            name,
            s,
        ));
    } else {
        lemma_render_samples_snoc(name, ss.drop_first(), s);
        assert(ss.push(s)[0] == ss[0]);
        assert(ss.push(s).drop_first() =~= ss.drop_first().push(s));
        assert(render_samples(name, ss.push(s)) =~= render_samples(name, ss) + render_sample(
            name,
            s,
        ));
    }
}

/// Appending one more family appends exactly its text to the rendering.
pub proof fn lemma_render_families_snoc(fs: Seq<FamilyV>, f: FamilyV)
    ensures
        render_families(fs.push(f)) == render_families(fs) + render_family(f),
    decreases fs.len(),
{
    if fs.len() == 0 {
        assert(fs.push(f)[0] == f);
        assert(fs.push(f).drop_first() =~= Seq::<FamilyV>::empty());
        assert(render_families(Seq::<FamilyV>::empty()) =~= Seq::<char>::empty());
        assert(render_families(fs.push(f)) =~= render_families(fs) + render_family(f));
    } else {
        lemma_render_families_snoc(fs.drop_first(), f);
        assert(fs.push(f)[0] == fs[0]);
        assert(fs.push(f).drop_first() =~= fs.drop_first().push(f));
        assert(render_families(fs.push(f)) =~= render_families(fs) + render_family(f));
    }
}

/// The decimal digit for d in [0, 9], as a one-character string.
fn digit_str(d: u64) -> (r: &'static str)
    requires
        d < 10,
    ensures
        r@ == seq![digit_char(d as nat)],
{
    let r = match d {
        0 => "0",
        1 => "1",
        2 => "2",
        3 => "3",
        4 => "4",
        5 => "5",
        6 => "6",
        7 => "7",
        8 => "8",
        _ => "9",
    };
    proof {
        reveal_strlit("0");
        reveal_strlit("1");
        reveal_strlit("2");
        reveal_strlit("3");
        reveal_strlit("4");
        reveal_strlit("5");
        reveal_strlit("6");
        reveal_strlit("7");
        reveal_strlit("8");
        reveal_strlit("9");
        assert(r@ =~= seq![digit_char(d as nat)]);
    }
    r
}

/// Writes n in decimal.
pub fn u64_to_dec(n: u64) -> (r: String)
    ensures
        r@ == dec_rep(n as nat),
    decreases n,
{
    if n < 10 {
        digit_str(n).to_owned()
    } else {
        assert(n / 10 < n);
        let mut s = u64_to_dec(n / 10);
        s.append(digit_str(n % 10));
        assert(s@ =~= dec_rep(n as nat));
        s
    }
}

/// Writes one sample line.
fn render_sample_text(name: &String, s: &Sample) -> (r: String)
    ensures
        r@ == render_sample(name@, s@),
{
    let mut out = String::new();
    out.append(name.as_str());
    out.append("{url=\"");
    out.append(s.labels.url.as_str());
    out.append("\",http_ver=\"");
    out.append(s.labels.http_ver.as_str());
    out.append("\",method=\"");
    out.append(s.labels.method.as_str());
    out.append("\"} ");
    let value = u64_to_dec(s.value);
    out.append(value.as_str());
    out.append("\n");
    assert(out@ =~= render_sample(name@, s@));
    out
}

/// Writes one family: headers, then its sample lines in observation order.
fn render_family_text(f: &Family) -> (r: String)
    ensures
        r@ == render_family(f@),
{
    let mut out = String::new();
    out.append("# HELP ");
    out.append(f.name.as_str());
    out.append(" ");
    out.append(f.help.as_str());
    out.append("\n");
    out.append("# TYPE ");
    out.append(f.name.as_str());
    out.append(" counter\n");
    let n = f.samples.len();
    let mut j: usize = 0;
    while j < n
        invariant
            n == f.samples@.len(),
            0 <= j <= n,
            out@ == "# HELP "@ + f@.name + " "@ + f@.help + "\n"@ + "# TYPE "@ + f@.name
                + " counter\n"@ + render_samples(f@.name, f@.samples.take(j as int)),
        decreases n - j,
    {
        let line = render_sample_text(&f.name, &f.samples[j]);
        out.append(line.as_str());
        proof {
            assert(f@.samples.take(j + 1) =~= f@.samples.take(j as int).push(f@.samples[j as int]));
            lemma_render_samples_snoc(f@.name, f@.samples.take(j as int), f@.samples[j as int]);
            assert(f@.samples[j as int] == f.samples@[j as int]@);
        }
        j += 1;
    }
    proof {
        assert(f@.samples.take(n as int) =~= f@.samples);
    }
    out
}

impl MetricRegistry {
    /// A deterministic, complete textual snapshot of every registered
    /// family and every counter within it, in the text exposition format.
    /// A pure read: the registry is not changed.
    pub fn render_text(&self) -> (r: String)
        ensures
            r@ == render_families(self@),
    {
        let mut out = String::new();
        let n = self.families.len();
        let mut i: usize = 0;
        while i < n
            invariant
                n == self.families@.len(),
                0 <= i <= n,
                out@ == render_families(self@.take(i as int)),
            decreases n - i,
        {
            let text = render_family_text(&self.families[i]);
            out.append(text.as_str());
            proof {
                assert(self@.take(i + 1) =~= self@.take(i as int).push(self@[i as int]));
                lemma_render_families_snoc(self@.take(i as int), self@[i as int]);
                assert(self@[i as int] == self.families@[i as int]@);
            }
            i += 1;
        }
        proof {
            assert(self@.take(n as int) =~= self@);
        }
        out
    }
}

/// The scrape body: the snapshot of the service's own registry, followed by
/// whatever snapshot the runtime's default metric set produced. Either half
/// may be empty; the request is answered with whatever is available.
pub fn compose_scrape_body(custom: String, process_default: &String) -> (r: String)
    ensures
        r@ == custom@ + process_default@,
{
    let mut out = custom;
    out.append(process_default.as_str());
    out
}

} // verus!
