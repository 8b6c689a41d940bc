//! Request and response payloads of the JSON-RPC surface, and the assembly
//! of metrics responses.

use vstd::prelude::*;

use crate::config::SandboxConfig;
use crate::error::ServerError;
use crate::names::valid_name;
use crate::strutil::str_eq;

verus! {

/// Parameters of `sandbox.start`.
pub struct SandboxStartRequest {
    /// Sandbox name.
    pub sandbox_name: String,
    /// Namespace.
    pub namespace: String,
    /// Optional configuration carried by the request.
    pub config: Option<SandboxConfig>,
}

/// Parameters of `sandbox.stop`.
pub struct SandboxStopRequest {
    /// Sandbox name.
    pub sandbox_name: String,
    /// Namespace.
    pub namespace: String,
}

/// Parameters of a forwarded REPL evaluation.
pub struct RunCodeRequest {
    /// The code to evaluate.
    pub code: String,
    /// Namespace of the target sandbox.
    pub namespace: String,
    /// Name of the target sandbox.
    pub sandbox_name: String,
}

/// A JSON-RPC response envelope.
pub struct JsonRpcResponse<T> {
    /// Always `"2.0"`.
    pub jsonrpc: String,
    /// The result of the call.
    pub result: T,
    /// The request id the response answers.
    pub id: Option<u64>,
}

impl<T> JsonRpcResponse<T> {
    /// Wraps a result in a response envelope.
    pub fn new(result: T, id: Option<u64>) -> (r: JsonRpcResponse<T>)
        ensures
            r.jsonrpc@ == "2.0"@,
            r.result == result,
            r.id == id,
    {
        JsonRpcResponse { jsonrpc: "2.0".to_owned(), result, id }
    }
}

/// A plain message result.
pub struct RegularMessageResponse {
    /// The message.
    pub message: String,
}

/// The health endpoint's result.
pub struct SystemStatusResponse {}

/// The configuration endpoint's result.
pub struct SandboxConfigResponse {}

/// One sandbox's status in a metrics response.
pub struct SandboxStatus {
    /// The namespace the sandbox lives in.
    pub namespace: String,
    /// The sandbox's name.
    pub name: String,
    /// Whether the supervisor reports it running.
    pub running: bool,
    /// CPU usage, in thousandths of a percent.
    pub cpu_usage: u64,
    /// Memory usage in bytes.
    pub memory_usage: u64,
    /// Disk usage in bytes.
    pub disk_usage: u64,
}

/// The result of `sandbox.metrics.get`.
pub struct SandboxStatusResponse {
    /// One record per known sandbox.
    pub sandboxes: Vec<SandboxStatus>,
}

/// The portal server's shared state.
pub struct SharedState {
    /// Whether the portal is ready to take requests.
    pub ready: bool,
}

impl RegularMessageResponse {
    /// The health endpoint's fixed reply.
    pub fn healthy() -> (r: RegularMessageResponse)
        ensures
            r.message@ == "Service is healthy"@,
    {
        RegularMessageResponse { message: "Service is healthy".to_owned() }
    }
}

/// A status record as a supervisor reports it, without the namespace.
pub struct RawStatus {
    /// The sandbox's name.
    pub name: String,
    /// Whether it is running.
    pub running: bool,
    /// CPU usage, in thousandths of a percent.
    pub cpu_usage: u64,
    /// Memory usage in bytes.
    pub memory_usage: u64,
    /// Disk usage in bytes.
    pub disk_usage: u64,
}

/// The mathematical value of one status record.
#[verifier::ext_equal]
pub struct StatusView {
    /// View of the namespace.
    pub namespace: Seq<char>,
    /// View of the name.
    pub name: Seq<char>,
    /// Running flag.
    pub running: bool,
    /// CPU usage.
    pub cpu_usage: u64,
    /// Memory usage.
    pub memory_usage: u64,
    /// Disk usage.
    pub disk_usage: u64,
}

impl View for SandboxStatus {
    type V = StatusView;

    open spec fn view(&self) -> StatusView {
        StatusView {
            namespace: self.namespace@,
            name: self.name@,
            running: self.running,
            cpu_usage: self.cpu_usage,
            memory_usage: self.memory_usage,
            disk_usage: self.disk_usage,
        }
    }
}

/// The status views of one namespace's raw records.
pub open spec fn group_views(ns: Seq<char>, raw: Seq<RawStatus>) -> Seq<StatusView> {
    raw.map_values(|s: RawStatus| StatusView {
        namespace: ns,
        name: s.name@,
        running: s.running,
        cpu_usage: s.cpu_usage,
        memory_usage: s.memory_usage,
        disk_usage: s.disk_usage,
    })
}

/// One namespace's query result.
pub struct NamespaceStatuses {
    /// The namespace the records belong to.
    pub namespace: String,
    /// The records the supervisors reported.
    pub statuses: Vec<RawStatus>,
}

/// The flattened status views of a sequence of per-namespace results, in
/// order.
pub open spec fn spec_flatten(groups: Seq<NamespaceStatuses>) -> Seq<StatusView>
    decreases groups.len(),
{
    if groups.len() == 0 {
        Seq::empty()
    } else {
        group_views(groups[0].namespace@, groups[0].statuses@)
            + spec_flatten(groups.subrange(1, groups.len() as int))
    }
}

/// Which namespaces a metrics request queries.
#[derive(Clone, Copy, PartialEq, Eq, Structural, Debug)]
pub enum MetricsTarget {
    /// The wildcard `*`: every namespace.
    AllNamespaces,
    /// A single namespace.
    OneNamespace,
}

/// Validates a metrics request: the namespace `*` queries every namespace,
/// a valid name queries one, anything else is rejected; a sandbox filter, if
/// given, must be a valid name.
pub fn metrics_target(namespace: &str, sandbox: &Option<String>) -> (r: Result<
    MetricsTarget,
    ServerError,
>)
    ensures
        match r {
            Ok(t) => {
                &&& (sandbox matches Some(s) ==> valid_name(s@))
                &&& namespace@ == "*"@ ==> t == MetricsTarget::AllNamespaces
                &&& namespace@ != "*"@ ==> valid_name(namespace@)
                    && t == MetricsTarget::OneNamespace
            },
            Err(e) => {
                &&& e is InvalidInput
                &&& (sandbox matches Some(s) && !valid_name(s@))
                    || (namespace@ != "*"@ && !valid_name(namespace@))
            },
        },
{
    match sandbox {
        Some(s) => {
            if let Err(e) = crate::names::validate_sandbox_name(s.as_str()) {
                return Err(e);
            }
        }
        None => {}
    }
    if str_eq(namespace, "*") {
        Ok(MetricsTarget::AllNamespaces)
    } else {
        match crate::names::validate_namespace(namespace) {
            Ok(_) => Ok(MetricsTarget::OneNamespace),
            Err(e) => Err(e),
        }
    }
}

/// Flattens per-namespace status results into one metrics response,
/// attaching each record's namespace and keeping the order: missing
/// sandboxes simply contribute no records, never an error.
pub fn assemble_metrics(groups: Vec<NamespaceStatuses>) -> (r: SandboxStatusResponse)
    ensures
        r.sandboxes@.map_values(|s: SandboxStatus| s@) == spec_flatten(groups@),
{
    let mut out: Vec<SandboxStatus> = Vec::new();
    let n = groups.len();
    let mut i: usize = 0;
    proof {
        assert(groups@.subrange(0, n as int) =~= groups@);
        assert(out@.map_values(|s: SandboxStatus| s@)
            =~= Seq::<StatusView>::empty());
    }
    while i < n
        invariant
            i <= n,
            n == groups@.len(),
            spec_flatten(groups@) == out@.map_values(|s: SandboxStatus| s@)
                + spec_flatten(groups@.subrange(i as int, n as int)),
        decreases n - i,
    {
        let ghost rest = groups@.subrange(i as int, n as int);
        proof {
            assert(rest[0] == groups@[i as int]);
            assert(rest.subrange(1, rest.len() as int)
                =~= groups@.subrange(i + 1, n as int));
        }
        let g = &groups[i];
        let m = g.statuses.len();
        let mut j: usize = 0;
        while j < m
            invariant
                j <= m,
                m == g.statuses@.len(),
                g == &groups@[i as int],
                0 <= i < groups@.len(),
                n == groups@.len(),
                spec_flatten(groups@) == out@.map_values(|s: SandboxStatus| s@)
                    + group_views(g.namespace@, g.statuses@.subrange(j as int, m as int))
                    + spec_flatten(groups@.subrange(i + 1, n as int)),
            decreases m - j,
        {
            let s = &g.statuses[j];
            let ghost before = out@;
            out.push(SandboxStatus {
                namespace: g.namespace.clone(),
                name: s.name.clone(),
                running: s.running,
                cpu_usage: s.cpu_usage,
                memory_usage: s.memory_usage,
                disk_usage: s.disk_usage,
            });
            proof {
                assert(out@.map_values(|s2: SandboxStatus| s2@)
                    =~= before.map_values(|s2: SandboxStatus| s2@)
                        + seq![out@.last()@]);
                assert(group_views(g.namespace@, g.statuses@.subrange(j as int, m as int))
                    =~= seq![out@.last()@]
                        + group_views(g.namespace@, g.statuses@.subrange(j + 1, m as int)));
                assert(spec_flatten(groups@) =~= out@.map_values(|s2: SandboxStatus| s2@)
                    + group_views(g.namespace@, g.statuses@.subrange(j + 1, m as int))
                    + spec_flatten(groups@.subrange(i + 1, n as int)));
            }
            j = j + 1;
        }
        proof {
            assert(g.statuses@.subrange(m as int, m as int)
                =~= Seq::<RawStatus>::empty());
            assert(group_views(g.namespace@, g.statuses@.subrange(m as int, m as int))
                =~= Seq::<StatusView>::empty());
            assert(spec_flatten(groups@) =~= out@.map_values(|s2: SandboxStatus| s2@)
                + spec_flatten(groups@.subrange(i + 1, n as int)));
        }
        i = i + 1;
    }
    proof {
        assert(spec_flatten(groups@.subrange(n as int, n as int))
            =~= Seq::<StatusView>::empty());
        assert(spec_flatten(groups@) =~= out@.map_values(|s2: SandboxStatus| s2@));
    }
    SandboxStatusResponse { sandboxes: out }
}

/// Whether a status record names the given sandbox.
pub open spec fn status_named(s: RawStatus, name: Seq<char>) -> bool {
    s.name@ == name
}

/// Keeps only the records naming `name`: the per-sandbox filter of a
/// metrics query.
pub fn filter_statuses(statuses: Vec<RawStatus>, name: &str) -> (r: Vec<RawStatus>)
    ensures
        r@ == statuses@.filter(|s: RawStatus| status_named(s, name@)),
{
    let mut out: Vec<RawStatus> = Vec::new();
    let n = statuses.len();
    let mut i: usize = 0;
    proof {
        reveal_with_fuel(Seq::filter, 2);
        assert(statuses@.subrange(0, 0) =~= Seq::<RawStatus>::empty());
    }
    while i < n
        invariant
            i <= n,
            n == statuses@.len(),
            out@ == statuses@.subrange(0, i as int).filter(
                |s: RawStatus| status_named(s, name@),
            ),
        decreases n - i,
    {
        proof {
            reveal_with_fuel(Seq::filter, 2);
            assert(statuses@.subrange(0, i + 1).drop_last() =~= statuses@.subrange(0, i as int));
        }
        if crate::strutil::str_eq(statuses[i].name.as_str(), name) {
            let rec = RawStatus {
                name: statuses[i].name.clone(),
                running: statuses[i].running,
                cpu_usage: statuses[i].cpu_usage,
                memory_usage: statuses[i].memory_usage,
                disk_usage: statuses[i].disk_usage,
            };
            proof {
                assert(rec.name@ == statuses@[i as int].name@);
            }
            out.push(rec);
        }
        i = i + 1;
    }
    proof {
        assert(statuses@.subrange(0, n as int) =~= statuses@);
    }
    out
}

/// Applies the optional per-sandbox filter of a metrics request to every
/// namespace's records: with no filter the groups pass through unchanged,
/// with one each group keeps exactly the records naming that sandbox —
/// groups themselves are never dropped, so a missing sandbox simply yields
/// empty record lists.
pub fn filter_metrics(groups: Vec<NamespaceStatuses>, sandbox: &Option<String>) -> (r: Vec<
    NamespaceStatuses,
>)
    ensures
        r@.len() == groups@.len(),
        forall|i: int| 0 <= i < r@.len()
            ==> (#[trigger] r@[i]).namespace@ == groups@[i].namespace@,
        sandbox is None ==> forall|i: int| 0 <= i < r@.len()
            ==> (#[trigger] r@[i]).statuses@ == groups@[i].statuses@,
        sandbox matches Some(name) ==> forall|i: int| 0 <= i < r@.len()
            ==> (#[trigger] r@[i]).statuses@ == groups@[i].statuses@.filter(
                |s: RawStatus| status_named(s, name@),
            ),
{
    let name = match sandbox {
        None => {
            return groups;
        }
        Some(name) => name,
    };
    let mut out: Vec<NamespaceStatuses> = Vec::new();
    let n = groups.len();
    let mut i: usize = 0;
    let mut rest = groups;
    let ghost orig = rest@;
    while i < n
        invariant
            i <= n,
            n == orig.len(),
            n == rest@.len() + i,
            out@.len() == i,
            forall|j: int| 0 <= j < rest@.len()
                ==> #[trigger] rest@[j] == orig[j + i],
            forall|j: int| 0 <= j < i
                ==> (#[trigger] out@[j]).namespace@ == orig[j].namespace@
                    && out@[j].statuses@ == orig[j].statuses@.filter(
                    |s: RawStatus| status_named(s, name@),
                ),
        decreases n - i,
    {
        let g = rest.remove(0);
        out.push(NamespaceStatuses {
            namespace: g.namespace,
            statuses: filter_statuses(g.statuses, name.as_str()),
        });
        i = i + 1;
    }
    out
}

} // verus!
