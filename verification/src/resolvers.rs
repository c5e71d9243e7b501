//! Per-strategy outcome mapping.
//!
//! Every resolution strategy performs its network or process work at the
//! edge of the program and reports back a plain outcome value; the
//! functions here turn each outcome into the [`Resolution`] the strategy
//! owes for its label. Every failure mode -- lookup error, timeout,
//! configuration-read error, process error -- becomes structured data, so
//! a fault in one source can never abort a sibling.

use vstd::prelude::*;

use crate::nameservers::{exhaustive_label, exhaustive_label_spec, NameserverGroup};
use crate::types::{DugResult, DugResultView, Resolution, ResolutionView};

verus! {

/// What a single timeout-guarded address lookup came back with.
pub enum LookupOutcome {
    /// The lookup succeeded; the answer's address strings in answer order
    /// (possibly none).
    Addresses(Vec<String>),
    /// The resolver library reported a failure, with its message.
    LookupError(String),
    /// The deadline expired before the lookup finished.
    TimedOut,
}

/// The failure message recorded when a lookup or process invocation
/// exceeds its deadline; it names the configured deadline,
/// [`crate::LOOKUP_TIMEOUT_MS`].
pub open spec fn timeout_message() -> Seq<char> {
    "Timed out after 7000ms"@
}

/// The timeout message names the configured deadline,
/// [`crate::LOOKUP_TIMEOUT_MS`], in decimal.
pub proof fn lemma_timeout_message_names_deadline()
    ensures
        timeout_message() == "Timed out after "@ + crate::decimal::dec_digits(
            crate::LOOKUP_TIMEOUT_MS as nat,
        ) + "ms"@,
{
    reveal_strlit("Timed out after 7000ms");
    reveal_strlit("Timed out after ");
    reveal_strlit("ms");
    let seven = crate::decimal::digit_char(7);
    let zero = crate::decimal::digit_char(0);
    assert(seven == '7');
    assert(zero == '0');
    assert(crate::decimal::dec_digits(7) =~= seq!['7']);
    assert(crate::decimal::dec_digits(70) =~= seq!['7', '0']);
    assert(crate::decimal::dec_digits(700) =~= seq!['7', '0', '0']);
    assert(crate::decimal::dec_digits(7000) =~= seq!['7', '0', '0', '0']);
    assert(timeout_message() =~= "Timed out after "@ + crate::decimal::dec_digits(7000) + "ms"@);
}

/// The result a lookup outcome maps to: records on success, the failure
/// message on error, and the timeout message when the deadline expired.
pub open spec fn outcome_result(o: LookupOutcome) -> DugResultView {
    match o {
        LookupOutcome::Addresses(addrs) => DugResultView::Records(addrs.deep_view()),
        LookupOutcome::LookupError(e) => DugResultView::Failure(e@),
        LookupOutcome::TimedOut => DugResultView::Failure(timeout_message()),
    }
}

/// Turns one labeled lookup outcome into its resolution.
pub fn lookup_resolution(name: &str, label: &str, outcome: LookupOutcome) -> (r: Resolution)
    ensures
        r@.name == name@,
        r@.source == label@,
        r@.result == outcome_result(outcome),
{
    match outcome {
        LookupOutcome::Addresses(addrs) => {
            Resolution::new(name, label, DugResult::from_records(addrs))
        },
        LookupOutcome::LookupError(e) => Resolution::with_err(name, label, e),
        LookupOutcome::TimedOut => {
            Resolution::with_err(name, label, "Timed out after 7000ms".to_owned())
        },
    }
}

/// The result of the OS-level resolution: either the ordered address
/// strings the operating system returned, or the OS error text.
pub open spec fn os_result(lookup: Result<Vec<String>, String>) -> DugResultView {
    match lookup {
        Ok(addrs) => DugResultView::Records(addrs.deep_view()),
        Err(e) => DugResultView::Failure(e@),
    }
}

/// Builds the resolution for the operating system's native
/// address-resolution facility, labeled `OS resolution`.
pub fn os(name: &str, lookup: Result<Vec<String>, String>) -> (r: Resolution)
    ensures
        r@.name == name@,
        r@.source == "OS resolution"@,
        r@.result == os_result(lookup),
{
    match lookup {
        Ok(addrs) => Resolution::with_records(name, "OS resolution", addrs),
        Err(e) => Resolution::with_err(name, "OS resolution", e),
    }
}

/// What the simulated default-resolver strategy came back with: the
/// system resolver configuration may already fail to read, and otherwise
/// exactly one timeout-guarded lookup is issued.
pub enum SimulatedOutcome {
    /// The default resolver configuration could not be constructed.
    ConfigError(String),
    /// The configuration was read and one lookup was issued.
    Looked(LookupOutcome),
}

/// The result the simulated default-resolver outcome maps to.
pub open spec fn simulated_result(o: SimulatedOutcome) -> DugResultView {
    match o {
        SimulatedOutcome::ConfigError(e) => DugResultView::Failure(e@),
        SimulatedOutcome::Looked(lookup) => outcome_result(lookup),
    }
}

/// Builds the resolution for the single lookup through the system's
/// default resolver configuration, labeled `simulated nslookup`.
pub fn resolv_conf(name: &str, outcome: SimulatedOutcome) -> (r: Resolution)
    ensures
        r@.name == name@,
        r@.source == "simulated nslookup"@,
        r@.result == simulated_result(outcome),
{
    match outcome {
        SimulatedOutcome::ConfigError(e) => Resolution::with_err(name, "simulated nslookup", e),
        SimulatedOutcome::Looked(lookup) => lookup_resolution(name, "simulated nslookup", lookup),
    }
}

/// Builds the OS resolution followed by the simulated default-resolver
/// resolution, in that order.
pub fn local(
    name: &str,
    os_lookup: Result<Vec<String>, String>,
    simulated: SimulatedOutcome,
) -> (r: Vec<Resolution>)
    ensures
        r@.len() == 2,
        r@[0]@.name == name@ && r@[0]@.source == "OS resolution"@ && r@[0]@.result == os_result(
            os_lookup,
        ),
        r@[1]@.name == name@ && r@[1]@.source == "simulated nslookup"@ && r@[1]@.result
            == simulated_result(simulated),
{
    let mut r: Vec<Resolution> = Vec::new();
    r.push(os(name, os_lookup));
    r.push(resolv_conf(name, simulated));
    r
}

/// Collects one labeled resolution per fan-out target. Each target's
/// outcome maps independently; exactly one resolution comes back per
/// input label, in label order.
pub fn collect_fanout(name: &str, labels: &Vec<String>, outcomes: Vec<LookupOutcome>) -> (r: Vec<
    Resolution,
>)
    requires
        labels@.len() == outcomes@.len(),
    ensures
        r@.len() == labels@.len(),
        forall|i: int|
            0 <= i < r@.len() ==> r@[i]@.name == name@ && r@[i]@.source == labels@[i]@
                && r@[i]@.result == outcome_result(outcomes@[i]),
{
    let ghost all_outcomes = outcomes@;
    let mut outcomes = outcomes;
    let mut r: Vec<Resolution> = Vec::new();
    let mut i: usize = 0;
    while i < labels.len()
        invariant
            labels@.len() == all_outcomes.len(),
            0 <= i <= labels@.len(),
            outcomes@ == all_outcomes.skip(i as int),
            r@.len() == i,
            forall|j: int|
                0 <= j < i ==> r@[j]@.name == name@ && r@[j]@.source == labels@[j]@
                    && r@[j]@.result == outcome_result(all_outcomes[j]),
        decreases labels@.len() - i,
    {
        let outcome = outcomes.remove(0);
        assert(outcome == all_outcomes[i as int]);
        r.push(lookup_resolution(name, labels[i].as_str(), outcome));
        i = i + 1;
        assert(outcomes@ =~= all_outcomes.skip(i as int));
    }
    r
}

/// The labels of the fixed set of public DNS providers, in the order the
/// fan-out queries them: Cloudflare, Google, Quad9.
pub fn public_dns_labels() -> (r: Vec<String>)
    ensures
        r@.len() == 3,
        r@[0]@ == "Cloudflare DNS"@,
        r@[1]@ == "Google DNS"@,
        r@[2]@ == "Quad9 DNS"@,
{
    let mut r: Vec<String> = Vec::new();
    r.push("Cloudflare DNS".to_owned());
    r.push("Google DNS".to_owned());
    r.push("Quad9 DNS".to_owned());
    r
}

/// Builds the three public-provider resolutions, labeled `Cloudflare
/// DNS`, `Google DNS` and `Quad9 DNS`, from the three lookup outcomes in
/// that order.
pub fn dns(name: &str, outcomes: Vec<LookupOutcome>) -> (r: Vec<Resolution>)
    requires
        outcomes@.len() == 3,
    ensures
        r@.len() == 3,
        forall|i: int| 0 <= i < 3 ==> r@[i]@.name == name@,
        r@[0]@.source == "Cloudflare DNS"@ && r@[0]@.result == outcome_result(outcomes@[0]),
        r@[1]@.source == "Google DNS"@ && r@[1]@.result == outcome_result(outcomes@[1]),
        r@[2]@.source == "Quad9 DNS"@ && r@[2]@.result == outcome_result(outcomes@[2]),
{
    let labels = public_dns_labels();
    collect_fanout(name, &labels, outcomes)
}

/// What the exhaustive per-nameserver strategy came back with: the system
/// resolver configuration may fail to read, and otherwise one
/// timeout-guarded lookup was issued per discovered group of nameservers.
pub enum ExhaustiveOutcome {
    /// The system resolver configuration could not be read.
    Unreadable(String),
    /// The configuration was read; `groups` are the discovered query
    /// targets and `outcomes[g]` is what the lookup against `groups[g]`
    /// came back with.
    Queried { groups: Vec<NameserverGroup>, outcomes: Vec<LookupOutcome> },
}

/// Well-formedness of an exhaustive outcome: one lookup outcome per
/// discovered group, and group addresses pairwise distinct (as
/// [`crate::nameservers::group_nameservers`] guarantees).
pub open spec fn exhaustive_wf(e: ExhaustiveOutcome) -> bool {
    match e {
        ExhaustiveOutcome::Unreadable(_) => true,
        ExhaustiveOutcome::Queried { groups, outcomes } => {
            &&& groups@.len() == outcomes@.len()
            &&& forall|g1: int, g2: int|
                0 <= g1 < g2 < groups@.len() ==> groups@[g1].address@ != groups@[g2].address@
        },
    }
}

/// The resolutions the exhaustive strategy owes: exactly one entry per
/// discovered address, labeled `resolv.conf server[<address>]`. The
/// strategy never silently disappears: when the configuration is
/// unreadable, or reads but lists no nameservers, it degrades to a
/// single failure entry labeled for the strategy as a whole.
pub open spec fn exhaustive_resolutions(name: Seq<char>, e: ExhaustiveOutcome) -> Seq<
    ResolutionView,
> {
    match e {
        ExhaustiveOutcome::Unreadable(err) => seq![
            ResolutionView {
                name,
                source: "DNS resolution with all servers in resolv.conf"@,
                result: DugResultView::Failure(err@),
            },
        ],
        ExhaustiveOutcome::Queried { groups, outcomes } => if groups@.len() == 0 {
            seq![
                ResolutionView {
                    name,
                    source: "DNS resolution with all servers in resolv.conf"@,
                    result: DugResultView::Failure("no nameservers configured"@),
                },
            ]
        } else {
            Seq::new(
                groups@.len(),
                |g: int|
                    ResolutionView {
                        name,
                        source: exhaustive_label_spec(groups@[g].address@),
                        result: outcome_result(outcomes@[g]),
                    },
            )
        },
    }
}

/// Builds the resolutions of the exhaustive per-nameserver strategy.
pub fn exhaustive_resolv_conf(name: &str, outcome: ExhaustiveOutcome) -> (r: Vec<Resolution>)
    requires
        exhaustive_wf(outcome),
    ensures
        r@.map_values(|x: Resolution| x@) == exhaustive_resolutions(name@, outcome),
{
    match outcome {
        ExhaustiveOutcome::Unreadable(err) => {
            let mut r: Vec<Resolution> = Vec::new();
            r.push(
                Resolution::with_err(name, "DNS resolution with all servers in resolv.conf", err),
            );
            proof {
                assert(r@.map_values(|x: Resolution| x@) =~= exhaustive_resolutions(
                    name@,
                    ExhaustiveOutcome::Unreadable(err),
                ));
            }
            r
        },
        ExhaustiveOutcome::Queried { groups, outcomes } => {
            if groups.len() == 0 {
                let mut r: Vec<Resolution> = Vec::new();
                r.push(
                    Resolution::with_err(
                        name,
                        "DNS resolution with all servers in resolv.conf",
                        "no nameservers configured".to_owned(),
                    ),
                );
                proof {
                    assert(r@.map_values(|x: Resolution| x@) =~= exhaustive_resolutions(
                        name@,
                        ExhaustiveOutcome::Queried { groups: groups, outcomes: outcomes },
                    ));
                }
                return r;
            }
            let mut labels: Vec<String> = Vec::new();
            let mut g: usize = 0;
            while g < groups.len()
                invariant
                    0 <= g <= groups@.len(),
                    labels@.len() == g,
                    forall|h: int|
                        0 <= h < g ==> labels@[h]@ == exhaustive_label_spec(groups@[h].address@),
                decreases groups@.len() - g,
            {
                labels.push(exhaustive_label(groups[g].address.as_str()));
                g = g + 1;
            }
            let ghost expected = exhaustive_resolutions(
                name@,
                ExhaustiveOutcome::Queried { groups: groups, outcomes: outcomes },
            );
            let r = collect_fanout(name, &labels, outcomes);
            proof {
                assert(r@.map_values(|x: Resolution| x@) =~= expected);
            }
            r
        },
    }
}

/// What one external-tool invocation (one record type) came back with,
/// after interpretation: the parsed record lines, or a failure message.
pub type CommandLines = Result<Vec<String>, String>;

/// How one spawned process ended, as the edge of the program reports it.
/// Each invocation is timeout-guarded on its own, so a timeout is an
/// outcome of one invocation, never of the pair.
pub enum SpawnOutcome {
    /// The process could not be started (for example, the tool is missing
    /// from the execution path); the spawn error text.
    SpawnFailed(String),
    /// The invocation exceeded its deadline before finishing.
    TimedOut,
    /// The process ran: its exit code (`None` when it was terminated by a
    /// signal) and its standard output decoded as text (`None` when the
    /// output is not valid text).
    Finished { exit_code: Option<i32>, stdout: Option<String> },
}

/// The mathematical value of an interpreted invocation.
pub open spec fn command_lines_view(r: CommandLines) -> Result<Seq<Seq<char>>, Seq<char>> {
    match r {
        Ok(lines) => Ok(lines.deep_view()),
        Err(e) => Err(e@),
    }
}

/// How a spawn outcome is interpreted: a spawn failure keeps its error
/// text; a timeout, a signal termination, a non-zero exit code and
/// undecodable output each map to their own message; a clean exit yields
/// the non-empty lines of the output, one record per line.
pub open spec fn command_lines_spec(o: SpawnOutcome) -> Result<Seq<Seq<char>>, Seq<char>> {
    match o {
        SpawnOutcome::SpawnFailed(e) => Err(e@),
        SpawnOutcome::TimedOut => Err(timeout_message()),
        SpawnOutcome::Finished { exit_code, stdout } => match exit_code {
            None => Err("process terminated by signal"@),
            Some(code) => if code != 0 {
                Err("process failed with exit code "@ + crate::decimal::dec_int(code as int))
            } else {
                match stdout {
                    None => Err("output not valid text"@),
                    Some(text) => Ok(crate::text::split_lines_spec(text@)),
                }
            },
        },
    }
}

/// Interprets how one external-tool invocation ended, per
/// [`command_lines_spec`].
pub fn command_output(outcome: SpawnOutcome) -> (r: CommandLines)
    ensures
        command_lines_view(r) == command_lines_spec(outcome),
{
    match outcome {
        SpawnOutcome::SpawnFailed(e) => Err(e),
        SpawnOutcome::TimedOut => Err("Timed out after 7000ms".to_owned()),
        SpawnOutcome::Finished { exit_code, stdout } => match exit_code {
            None => Err("process terminated by signal".to_owned()),
            Some(code) => if code != 0 {
                let mut msg = "process failed with exit code ".to_owned();
                let rendered = crate::decimal::i32_to_string(code);
                msg.append(rendered.as_str());
                Err(msg)
            } else {
                match stdout {
                    None => Err("output not valid text".to_owned()),
                    Some(text) => Ok(crate::text::split_lines(text.as_str())),
                }
            },
        },
    }
}

/// What one external tool's pair of invocations came back with, each
/// interpreted by [`command_output`]: the IPv4 invocation first, the
/// IPv6 invocation second. Each invocation is timeout-guarded on its
/// own, so a timed-out invocation arrives here as its timeout failure
/// and never hides the other invocation's answer.
pub struct ToolOutcome {
    /// The interpreted IPv4-record invocation.
    pub v4: CommandLines,
    /// The interpreted IPv6-record invocation.
    pub v6: CommandLines,
}

/// The result an external tool's outcome maps to, under the merged
/// combination policy: one result per tool, the IPv4 lines followed by
/// the IPv6 lines; when exactly one invocation fails -- by error or by
/// timeout -- the other invocation's lines stand; a failure only when
/// both invocations fail (the IPv4 failure message wins).
pub open spec fn tool_result(o: ToolOutcome) -> DugResultView {
    match (o.v4, o.v6) {
        (Ok(ra), Ok(rb)) => DugResultView::Records(ra.deep_view() + rb.deep_view()),
        (Ok(ra), Err(_)) => DugResultView::Records(ra.deep_view()),
        (Err(_), Ok(rb)) => DugResultView::Records(rb.deep_view()),
        (Err(e4), Err(_)) => DugResultView::Failure(e4@),
    }
}

/// Builds the single resolution an external tool owes, labeled with the
/// tool's name, under the merged combination policy of [`tool_result`].
pub fn tool_resolution(name: &str, tool: &str, outcome: ToolOutcome) -> (r: Resolution)
    ensures
        r@.name == name@,
        r@.source == tool@,
        r@.result == tool_result(outcome),
{
    match (outcome.v4, outcome.v6) {
        (Ok(ra), Ok(rb)) => {
            let ghost ra_view = ra.deep_view();
            let ghost rb_view = rb.deep_view();
            let mut recs = ra;
            let mut rb = rb;
            recs.append(&mut rb);
            proof {
                assert(recs.deep_view() =~= ra_view + rb_view);
            }
            Resolution::with_records(name, tool, recs)
        },
        (Ok(ra), Err(_)) => Resolution::with_records(name, tool, ra),
        (Err(_), Ok(rb)) => Resolution::with_records(name, tool, rb),
        (Err(e4), Err(_)) => Resolution::with_err(name, tool, e4),
    }
}

/// Builds the resolution of the `dig` utility from BIND.
pub fn dig(name: &str, outcome: ToolOutcome) -> (r: Resolution)
    ensures
        r@.name == name@,
        r@.source == "dig"@,
        r@.result == tool_result(outcome),
{
    tool_resolution(name, "dig", outcome)
}

/// Builds the resolution of the `drill` utility from ldns.
pub fn drill(name: &str, outcome: ToolOutcome) -> (r: Resolution)
    ensures
        r@.name == name@,
        r@.source == "drill"@,
        r@.result == tool_result(outcome),
{
    tool_resolution(name, "drill", outcome)
}

} // verus!
