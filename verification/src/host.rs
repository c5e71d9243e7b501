//! Host resolution orchestration.
//!
//! Every strategy's outcome for one hostname is merged into a single
//! ordered, labeled result list: the three public-provider entries first,
//! then the OS and simulated default-resolver entries, then the exhaustive
//! per-nameserver entries, then the two external-tool entries. The
//! concatenation order is a documented contract; the source labels within
//! one hostname's list are unique, and every entry names the hostname it
//! was requested for.

use vstd::prelude::*;

use crate::nameservers::{exhaustive_label_spec, lemma_exhaustive_label_injective};
use crate::resolvers::{
    dig, dns, drill, exhaustive_resolutions, exhaustive_resolv_conf, exhaustive_wf, local,
    os_result, outcome_result, simulated_result, tool_result, ExhaustiveOutcome, LookupOutcome,
    SimulatedOutcome, ToolOutcome,
};
use crate::types::{Resolution, ResolutionView};

verus! {

/// Everything the strategies for one hostname came back with, gathered
/// after all of them completed or timed out. A fault in one source is
/// data here, never an abort.
pub struct HostOutcomes {
    /// The three public-provider lookups, in Cloudflare, Google, Quad9
    /// order.
    pub public_dns: Vec<LookupOutcome>,
    /// The OS-level resolution: address strings, or the OS error text.
    pub os_lookup: Result<Vec<String>, String>,
    /// The single lookup through the system's default configuration.
    pub simulated: SimulatedOutcome,
    /// The per-nameserver fan-out over the system configuration.
    pub exhaustive: ExhaustiveOutcome,
    /// The `dig` utility's pair of invocations.
    pub dig: ToolOutcome,
    /// The `drill` utility's pair of invocations.
    pub drill: ToolOutcome,
}

/// Well-formedness of gathered outcomes: exactly one outcome per public
/// provider, and the exhaustive part consistent with its groups.
pub open spec fn host_outcomes_wf(h: HostOutcomes) -> bool {
    &&& h.public_dns@.len() == 3
    &&& exhaustive_wf(h.exhaustive)
}

/// The full result list one hostname's resolution owes, in the documented
/// concatenation order: public DNS, local (OS first, then simulated),
/// exhaustive per-nameserver, `dig`, `drill`.
pub open spec fn host_resolutions(name: Seq<char>, h: HostOutcomes) -> Seq<ResolutionView> {
    seq![
        ResolutionView {
            name,
            source: "Cloudflare DNS"@,
            result: outcome_result(h.public_dns@[0]),
        },
        ResolutionView { name, source: "Google DNS"@, result: outcome_result(h.public_dns@[1]) },
        ResolutionView { name, source: "Quad9 DNS"@, result: outcome_result(h.public_dns@[2]) },
        ResolutionView { name, source: "OS resolution"@, result: os_result(h.os_lookup) },
        ResolutionView {
            name,
            source: "simulated nslookup"@,
            result: simulated_result(h.simulated),
        },
    ] + exhaustive_resolutions(name, h.exhaustive) + seq![
        ResolutionView { name, source: "dig"@, result: tool_result(h.dig) },
        ResolutionView { name, source: "drill"@, result: tool_result(h.drill) },
    ]
}

/// The source labels of one hostname's result list are pairwise distinct:
/// the fixed labels differ from each other and, by their lengths, from
/// every discovered-target label, and discovered-target labels differ
/// among themselves because the discovered addresses do.
pub proof fn lemma_host_sources_unique(name: Seq<char>, h: HostOutcomes)
    requires
        host_outcomes_wf(h),
    ensures
        forall|i: int, j: int|
            0 <= i < j < host_resolutions(name, h).len() ==> host_resolutions(name, h)[i].source
                != host_resolutions(name, h)[j].source,
{
    let s = host_resolutions(name, h);
    let ex = exhaustive_resolutions(name, h.exhaustive);
    let nex = ex.len() as int;
    reveal_strlit("Cloudflare DNS");
    reveal_strlit("Google DNS");
    reveal_strlit("Quad9 DNS");
    reveal_strlit("OS resolution");
    reveal_strlit("simulated nslookup");
    reveal_strlit("dig");
    reveal_strlit("drill");
    reveal_strlit("DNS resolution with all servers in resolv.conf");
    reveal_strlit("resolv.conf server[");
    reveal_strlit("]");
    assert(s.len() == 7 + nex);
    assert forall|g: int| 0 <= g < nex implies ex[g].source.len() >= 20 by {
        match h.exhaustive {
            ExhaustiveOutcome::Unreadable(_) => {
                assert(ex[g].source.len() == 46);
            },
            ExhaustiveOutcome::Queried { groups, outcomes } => {
                if groups@.len() == 0 {
                    assert(ex[g].source.len() == 46);
                } else {
                    assert(ex[g].source == exhaustive_label_spec(groups@[g].address@));
                    assert(ex[g].source.len() == 20 + groups@[g].address@.len());
                }
            },
        }
    }
    assert forall|i: int, j: int| 0 <= i < j < s.len() implies s[i].source != s[j].source by {
        if 5 <= i && i < 5 + nex && 5 <= j && j < 5 + nex {
            match h.exhaustive {
                ExhaustiveOutcome::Unreadable(_) => {
                    assert(nex == 1);
                },
                ExhaustiveOutcome::Queried { groups, outcomes } => {
                    if groups@.len() == 0 {
                        assert(nex == 1);
                    } else {
                        let a1 = groups@[i - 5].address@;
                        let a2 = groups@[j - 5].address@;
                        assert(s[i].source == exhaustive_label_spec(a1));
                        assert(s[j].source == exhaustive_label_spec(a2));
                        assert(a1 != a2);
                        if exhaustive_label_spec(a1) == exhaustive_label_spec(a2) {
                            lemma_exhaustive_label_injective(a1, a2);
                        }
                    }
                },
            }
        } else {
            if 5 <= i && i < 5 + nex {
                assert(s[i].source.len() >= 20);
            }
            if 5 <= j && j < 5 + nex {
                assert(s[j].source.len() >= 20);
            }
            assert(s[i].source.len() != s[j].source.len());
        }
    }
}

/// Resolves one hostname from its gathered strategy outcomes. The result
/// list holds at least eight entries -- no strategy ever silently
/// disappears -- every entry's `name` equals the requested hostname, the
/// source labels are pairwise unique, and the entries stand in the
/// documented concatenation order.
pub fn resolve_host(name: &str, outcomes: HostOutcomes) -> (r: Vec<Resolution>)
    requires
        host_outcomes_wf(outcomes),
    ensures
        r@.map_values(|x: Resolution| x@) == host_resolutions(name@, outcomes),
        r@.len() >= 8,
        (match outcomes.exhaustive {
            ExhaustiveOutcome::Unreadable(_) => r@.len() == 8,
            ExhaustiveOutcome::Queried { groups, .. } => if groups@.len() == 0 {
                r@.len() == 8
            } else {
                r@.len() == 7 + groups@.len()
            },
        }),
        forall|i: int| 0 <= i < r@.len() ==> r@[i]@.name == name@,
        forall|i: int, j: int| 0 <= i < j < r@.len() ==> r@[i]@.source != r@[j]@.source,
{
    let ghost expected = host_resolutions(name@, outcomes);
    let HostOutcomes { public_dns, os_lookup, simulated, exhaustive, dig: for_dig, drill: for_drill } =
        outcomes;
    let mut r = dns(name, public_dns);
    let mut loc = local(name, os_lookup, simulated);
    r.append(&mut loc);
    let mut exh = exhaustive_resolv_conf(name, exhaustive);
    let ghost exh_view = exh@;
    r.append(&mut exh);
    r.push(dig(name, for_dig));
    r.push(drill(name, for_drill));
    proof {
        let ex = exhaustive_resolutions(name@, outcomes.exhaustive);
        assert(exh_view.map_values(|x: Resolution| x@) == ex);
        assert forall|k: int| 0 <= k < ex.len() implies r@[5 + k]@ == ex[k] by {
            assert(r@[5 + k] == exh_view[k]);
            assert(exh_view.map_values(|x: Resolution| x@)[k] == ex[k]);
        }
        assert(r@.map_values(|x: Resolution| x@) =~= expected);
        lemma_host_sources_unique(name@, outcomes);
        assert forall|i: int| 0 <= i < r@.len() implies r@[i]@.name == name@ by {
            assert(r@.map_values(|x: Resolution| x@)[i] == expected[i]);
        }
        assert forall|i: int, j: int| 0 <= i < j < r@.len() implies r@[i]@.source
            != r@[j]@.source by {
            assert(r@.map_values(|x: Resolution| x@)[i] == expected[i]);
            assert(r@.map_values(|x: Resolution| x@)[j] == expected[j]);
        }
    }
    r
}

/// Resolves a batch of hostnames from their gathered outcomes: one
/// result list per requested hostname, in input order, each list
/// non-empty, ordered and labeled as [`resolve_host`] says. Hostnames
/// are gathered independently; nothing one hostname's sources did can
/// affect another's list.
pub fn resolve_batch(names: &Vec<String>, gathered: Vec<HostOutcomes>) -> (r: Vec<
    Vec<Resolution>,
>)
    requires
        names@.len() == gathered@.len(),
        forall|i: int| 0 <= i < gathered@.len() ==> host_outcomes_wf(#[trigger] gathered@[i]),
    ensures
        r@.len() == names@.len(),
        forall|i: int|
            0 <= i < r@.len() ==> (#[trigger] r@[i])@.map_values(|x: Resolution| x@)
                == host_resolutions(names@[i]@, gathered@[i]),
        forall|i: int| 0 <= i < r@.len() ==> #[trigger] r@[i]@.len() >= 8,
        forall|i: int, j: int|
            0 <= i < r@.len() && 0 <= j < r@[i]@.len() ==> #[trigger] r@[i]@[j]@.name
                == names@[i]@,
{
    let ghost all = gathered@;
    let mut gathered = gathered;
    let mut r: Vec<Vec<Resolution>> = Vec::new();
    let mut i: usize = 0;
    while i < names.len()
        invariant
            names@.len() == all.len(),
            0 <= i <= names@.len(),
            gathered@ == all.skip(i as int),
            forall|k: int| 0 <= k < all.len() ==> host_outcomes_wf(#[trigger] all[k]),
            r@.len() == i,
            forall|k: int|
                0 <= k < i ==> (#[trigger] r@[k])@.map_values(|x: Resolution| x@)
                    == host_resolutions(names@[k]@, all[k]),
            forall|k: int| 0 <= k < i ==> #[trigger] r@[k]@.len() >= 8,
            forall|k: int, j: int|
                0 <= k < i && 0 <= j < r@[k]@.len() ==> #[trigger] r@[k]@[j]@.name == names@[k]@,
        decreases names@.len() - i,
    {
        let outcomes = gathered.remove(0);
        assert(outcomes == all[i as int]);
        r.push(resolve_host(names[i].as_str(), outcomes));
        i = i + 1;
        assert(gathered@ =~= all.skip(i as int));
    }
    r
}

/// The rendering mode the caller selected. The two explicit flags are
/// mutually exclusive; selecting both is a usage error, never silently
/// resolved in favor of one.
pub enum RenderMode {
    /// A pretty-printed table per hostname (the default).
    Pretty,
    /// Plain rows of text.
    Ascii,
    /// The documented JSON shape.
    Json,
}

/// Selects the rendering mode from the two command-line flags; `None` is
/// the usage error of selecting both at once.
pub fn select_render_mode(ascii: bool, json: bool) -> (r: Option<RenderMode>)
    ensures
        ascii && json ==> r is None,
        ascii && !json ==> r == Some(RenderMode::Ascii),
        !ascii && json ==> r == Some(RenderMode::Json),
        !ascii && !json ==> r == Some(RenderMode::Pretty),
{
    match (ascii, json) {
        (true, true) => None,
        (true, false) => Some(RenderMode::Ascii),
        (false, true) => Some(RenderMode::Json),
        (false, false) => Some(RenderMode::Pretty),
    }
}

/// Checks the internal contract of a finished batch: no hostname's result
/// list may be empty. A violation signals a bug in the orchestration
/// layer and is the one condition the caller treats as fatal.
pub fn batch_is_valid(sets: &Vec<Vec<Resolution>>) -> (r: bool)
    ensures
        r == (forall|i: int| 0 <= i < sets@.len() ==> sets@[i]@.len() > 0),
{
    let mut i: usize = 0;
    while i < sets.len()
        invariant
            0 <= i <= sets@.len(),
            forall|j: int| 0 <= j < i ==> sets@[j]@.len() > 0,
        decreases sets@.len() - i,
    {
        if sets[i].is_empty() {
            return false;
        }
        i = i + 1;
    }
    true
}

} // verus!
