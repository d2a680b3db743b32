//! Control-catalog crosswalk: which catalogued controls map to a framework.
//!
//! Only mechanisms the harness actually implements are catalogued; the
//! catalog itself is parsed by the host program.
use vstd::prelude::*;

use crate::text::{contains, lowercase, str_contains, str_eq, to_lowercase};

verus! {

/// A compliance framework.
#[derive(Clone, Copy, Debug, PartialEq, Eq, Structural)]
pub enum Framework {
    /// OWASP Agentic AI Top 10
    OwaspAgenticTop10,
    /// NIST AI RMF 1.0
    NistAiRmf,
    /// EU AI Act
    EuAiAct,
    /// SOC 2 (AICPA Trust Services Criteria)
    Soc2,
}

/// The slug a framework is catalogued under.
pub open spec fn framework_slug(f: Framework) -> Seq<char> {
    match f {
        Framework::OwaspAgenticTop10 => "owasp-agentic-top10"@,
        Framework::NistAiRmf => "nist-ai-rmf"@,
        Framework::EuAiAct => "eu-ai-act"@,
        Framework::Soc2 => "soc2"@,
    }
}

impl Framework {
    /// The slug a framework is catalogued under.
    pub fn slug(self) -> (s: &'static str)
        ensures
            s@ == framework_slug(self),
    {
        match self {
            Framework::OwaspAgenticTop10 => "owasp-agentic-top10",
            Framework::NistAiRmf => "nist-ai-rmf",
            Framework::EuAiAct => "eu-ai-act",
            Framework::Soc2 => "soc2",
        }
    }
}

/// The control catalog.
pub struct Catalog {
    pub catalog_version: u32,
    pub controls: Vec<Control>,
}

/// One catalogued control and the frameworks it maps to.
pub struct Control {
    pub id: String,
    pub name: String,
    pub mechanism: String,
    pub frameworks: Vec<Mapping>,
}

/// A control's place in one framework.
pub struct Mapping {
    pub framework: String,
    pub category: String,
}

/// Whether a control maps to the framework catalogued as `slug`.
pub open spec fn maps_to(c: Control, slug: Seq<char>) -> bool {
    exists|k: int| 0 <= k < c.frameworks.len() && c.frameworks@[k].framework@ == slug
}

/// The controls that map to `slug`, in catalog order.
pub open spec fn controls_for(controls: Seq<Control>, slug: Seq<char>) -> Seq<Control>
    decreases controls.len(),
{
    if controls.len() == 0 {
        seq![]
    } else {
        let r = controls_for(controls.drop_last(), slug);
        if maps_to(controls.last(), slug) {
            r.push(controls.last())
        } else {
            r
        }
    }
}

/// Whether a control maps to `slug`.
fn control_maps_to(c: &Control, slug: &str) -> (b: bool)
    ensures
        b == maps_to(*c, slug@),
{
    let mut k: usize = 0;
    while k < c.frameworks.len()
        invariant
            k <= c.frameworks.len(),
            forall|j: int| 0 <= j < k ==> c.frameworks@[j].framework@ != slug@,
        decreases c.frameworks.len() - k,
    {
        if str_eq(c.frameworks[k].framework.as_str(), slug) {
            return true;
        }
        k = k + 1;
    }
    false
}

/// The catalog narrowed to one framework's controls (in catalog order), or
/// whole when no framework is given.
pub fn filter_catalog(catalog: Catalog, framework: Option<Framework>) -> (out: Catalog)
    ensures
        out.catalog_version == catalog.catalog_version,
        match framework {
            None => out.controls@ == catalog.controls@,
            Some(f) => out.controls@ == controls_for(catalog.controls@, framework_slug(f)),
        },
{
    let fw = match framework {
        None => return catalog,
        Some(f) => f,
    };
    let slug = fw.slug();
    let Catalog { catalog_version, controls } = catalog;
    let ghost all = controls@;
    let mut rest = controls;
    let mut kept: Vec<Control> = Vec::new();
    let mut i: usize = 0;
    let n = rest.len();
    while i < n
        invariant
            i <= n,
            n == all.len(),
            rest@ == all.skip(i as int),
            kept@ == controls_for(all.take(i as int), slug@),
        decreases n - i,
    {
        let c = rest.remove(0);
        proof {
            assert(c == all[i as int]);
            assert(rest@ =~= all.skip(i + 1));
            assert(all.take(i + 1).drop_last() =~= all.take(i as int));
        }
        if control_maps_to(&c, slug) {
            kept.push(c);
        }
        i = i + 1;
    }
    proof {
        assert(all.take(i as int) =~= all);
    }
    Catalog { catalog_version, controls: kept }
}

/// Every control a filtered catalog keeps maps to the framework.
pub proof fn filtered_controls_map_to(controls: Seq<Control>, slug: Seq<char>)
    ensures
        forall|k: int| 0 <= k < controls_for(controls, slug).len() ==> maps_to(#[trigger] controls_for(controls, slug)[k], slug),
        controls_for(controls, slug).len() <= controls.len(),
    decreases controls.len(),
{
    if controls.len() > 0 {
        filtered_controls_map_to(controls.drop_last(), slug);
    }
}

/// The framework titles the compliance report lists, in report order.
pub open spec fn framework_titles() -> Seq<Seq<char>> {
    seq!["OWASP Agentic Top 10"@, "NIST AI RMF 1.0"@, "EU AI Act"@, "SOC 2"@]
}

/// The titles among `titles` whose lowercase form contains the lowercase
/// `filter`, in order.
pub open spec fn titles_matching(titles: Seq<Seq<char>>, filter: Seq<char>) -> Seq<Seq<char>>
    decreases titles.len(),
{
    if titles.len() == 0 {
        seq![]
    } else {
        let r = titles_matching(titles.drop_last(), filter);
        if contains(lowercase(titles.last()), lowercase(filter)) {
            r.push(titles.last())
        } else {
            r
        }
    }
}

/// The framework titles a `--framework` filter selects: every title when no
/// filter is given, else those whose lowercase form contains the lowercase
/// filter (so `soc` selects `SOC 2`).
pub fn frameworks_matching(filter: Option<&str>) -> (out: Vec<&'static str>)
    ensures
        match filter {
            None => out@.map_values(|t: &str| t@) == framework_titles(),
            Some(f) => out@.map_values(|t: &str| t@) == titles_matching(framework_titles(), f@),
        },
{
    let titles: Vec<&'static str> = vec!["OWASP Agentic Top 10", "NIST AI RMF 1.0", "EU AI Act", "SOC 2"];
    let ghost tv = titles@.map_values(|t: &str| t@);
    proof {
        assert(tv =~= framework_titles());
    }
    let f = match filter {
        None => return titles,
        Some(f) => f,
    };
    let needle = to_lowercase(f);
    let mut out: Vec<&'static str> = Vec::new();
    let mut i: usize = 0;
    while i < titles.len()
        invariant
            i <= titles.len(),
            tv == titles@.map_values(|t: &str| t@),
            needle@ == lowercase(f@),
            out@.map_values(|t: &str| t@) == titles_matching(tv.take(i as int), f@),
        decreases titles.len() - i,
    {
        let t = titles[i];
        let hay = to_lowercase(t);
        let ghost before = out@;
        proof {
            assert(tv.take(i + 1).drop_last() =~= tv.take(i as int));
            assert(tv.take(i + 1).last() == t@);
        }
        if str_contains(hay.as_str(), needle.as_str()) {
            out.push(t);
            proof {
                assert(out@.map_values(|t: &str| t@) =~= before.map_values(|t: &str| t@).push(t@));
            }
        }
        i = i + 1;
    }
    proof {
        assert(tv.take(i as int) =~= tv);
    }
    out
}

} // verus!
