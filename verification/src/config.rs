//! Sandbox configuration: the declarative description of one sandbox, the
//! request-over-disk merge, and the portal port-mapping rewrite.

use vstd::prelude::*;

use crate::error::ServerError;
use crate::strutil::{parse_u16, push_char, spec_decimal, str_eq, u64_to_string};
use crate::PORTAL_GUEST_PORT;

verus! {

/// How far a sandbox may reach over the network.
#[derive(Clone, Copy, PartialEq, Eq, Structural, Debug)]
pub enum NetworkScope {
    /// No communication with other sandboxes.
    Closed,
    /// Communication only within the sandbox's own subnet.
    Group,
    /// Communication with any non-private address.
    Public,
    /// Communication with any address.
    Any,
}

impl NetworkScope {
    /// The scope used when a configuration names none.
    pub fn default_scope() -> (r: NetworkScope)
        ensures
            r == NetworkScope::Public,
    {
        NetworkScope::Public
    }

    /// The wire value of each scope, in declaration order.
    pub fn as_u8(&self) -> (r: u8)
        ensures
            r == match self {
                NetworkScope::Closed => 0u8,
                NetworkScope::Group => 1u8,
                NetworkScope::Public => 2u8,
                NetworkScope::Any => 3u8,
            },
    {
        match self {
            NetworkScope::Closed => 0,
            NetworkScope::Group => 1,
            NetworkScope::Public => 2,
            NetworkScope::Any => 3,
        }
    }

    /// The scope for a wire value; fails on values above three.
    pub fn try_from(value: u8) -> (r: Result<NetworkScope, ServerError>)
        ensures
            value == 0 ==> r == Ok::<NetworkScope, ServerError>(NetworkScope::Closed),
            value == 1 ==> r == Ok::<NetworkScope, ServerError>(NetworkScope::Group),
            value == 2 ==> r == Ok::<NetworkScope, ServerError>(NetworkScope::Public),
            value == 3 ==> r == Ok::<NetworkScope, ServerError>(NetworkScope::Any),
            value > 3 ==> r is Err && r->Err_0 is InvalidInput,
    {
        match value {
            0 => Ok(NetworkScope::Closed),
            1 => Ok(NetworkScope::Group),
            2 => Ok(NetworkScope::Public),
            3 => Ok(NetworkScope::Any),
            _ => Err(ServerError::InvalidInput("network scope out of range".to_owned())),
        }
    }
}

/// One `host:guest` port mapping.
#[derive(Clone, Copy, PartialEq, Eq, Structural, Debug)]
pub struct PortPair {
    /// Host-side port.
    pub host: u16,
    /// Guest-side port.
    pub guest: u16,
}

/// The declarative description of one sandbox. Fields a request may omit are
/// options; list fields are empty when omitted.
pub struct SandboxConfig {
    /// OCI reference or local rootfs path.
    pub image: Option<String>,
    /// Memory in MiB.
    pub memory: Option<u32>,
    /// Number of vCPUs.
    pub cpus: Option<u8>,
    /// `host:guest` path pairs.
    pub volumes: Vec<String>,
    /// Exposed port mappings.
    pub ports: Vec<PortPair>,
    /// `KEY=VALUE` environment entries.
    pub envs: Vec<String>,
    /// Names of sandboxes this one depends on.
    pub depends_on: Vec<String>,
    /// Working directory inside the guest.
    pub workdir: Option<String>,
    /// Shell inside the guest.
    pub shell: Option<String>,
    /// Named scripts, `name` to command line.
    pub scripts: Vec<(String, String)>,
    /// Command to run.
    pub exec_cmd: Option<String>,
    /// Network scope.
    pub scope: Option<NetworkScope>,
}

impl SandboxConfig {
    /// A configuration with every field absent.
    pub fn empty() -> (r: SandboxConfig)
        ensures
            r.image is None,
            r.memory is None,
            r.cpus is None,
            r.volumes@.len() == 0,
            r.ports@.len() == 0,
            r.envs@.len() == 0,
            r.depends_on@.len() == 0,
            r.workdir is None,
            r.shell is None,
            r.scripts@.len() == 0,
            r.exec_cmd is None,
            r.scope is None,
    {
        SandboxConfig {
            image: None,
            memory: None,
            cpus: None,
            volumes: Vec::new(),
            ports: Vec::new(),
            envs: Vec::new(),
            depends_on: Vec::new(),
            workdir: None,
            shell: None,
            scripts: Vec::new(),
            exec_cmd: None,
            scope: None,
        }
    }
}

/// The request field if present, else the on-disk field.
pub open spec fn merged_opt<T>(request: Option<T>, existing: Option<T>) -> Option<T> {
    if request is Some {
        request
    } else {
        existing
    }
}

/// The request list if non-empty, else the on-disk list.
pub open spec fn merged_list<T>(request: Seq<T>, existing: Seq<T>) -> Seq<T> {
    if request.len() > 0 {
        request
    } else {
        existing
    }
}

fn pick_opt<T>(request: Option<T>, existing: Option<T>) -> (r: Option<T>)
    ensures
        r == merged_opt(request, existing),
{
    match request {
        Some(v) => Some(v),
        None => existing,
    }
}

fn pick_list<T>(request: Vec<T>, existing: Vec<T>) -> (r: Vec<T>)
    ensures
        r@ == merged_list(request@, existing@),
{
    if request.len() > 0 {
        request
    } else {
        existing
    }
}

/// Merges a request-supplied configuration over the on-disk one: request
/// fields win, missing fields fall back to disk, and the merge fails exactly
/// when neither side supplies an image.
pub fn merge_config(request: SandboxConfig, existing: SandboxConfig) -> (r: Result<
    SandboxConfig,
    ServerError,
>)
    ensures
        (request.image is None && existing.image is None) ==> (r is Err
            && r->Err_0 is InvalidInput),
        (request.image is Some || existing.image is Some) ==> r is Ok,
        r is Ok ==> {
            let m = r->Ok_0;
            &&& m.image == merged_opt(request.image, existing.image)
            &&& m.memory == merged_opt(request.memory, existing.memory)
            &&& m.cpus == merged_opt(request.cpus, existing.cpus)
            &&& m.volumes@ == merged_list(request.volumes@, existing.volumes@)
            &&& m.ports@ == merged_list(request.ports@, existing.ports@)
            &&& m.envs@ == merged_list(request.envs@, existing.envs@)
            &&& m.depends_on@ == merged_list(request.depends_on@, existing.depends_on@)
            &&& m.workdir == merged_opt(request.workdir, existing.workdir)
            &&& m.shell == merged_opt(request.shell, existing.shell)
            &&& m.scripts@ == merged_list(request.scripts@, existing.scripts@)
            &&& m.exec_cmd == merged_opt(request.exec_cmd, existing.exec_cmd)
            &&& m.scope == merged_opt(request.scope, existing.scope)
        },
{
    if request.image.is_none() && existing.image.is_none() {
        return Err(ServerError::InvalidInput(
            "no configuration provided and no existing configuration found".to_owned(),
        ));
    }
    Ok(SandboxConfig {
        image: pick_opt(request.image, existing.image),
        memory: pick_opt(request.memory, existing.memory),
        cpus: pick_opt(request.cpus, existing.cpus),
        volumes: pick_list(request.volumes, existing.volumes),
        ports: pick_list(request.ports, existing.ports),
        envs: pick_list(request.envs, existing.envs),
        depends_on: pick_list(request.depends_on, existing.depends_on),
        workdir: pick_opt(request.workdir, existing.workdir),
        shell: pick_opt(request.shell, existing.shell),
        scripts: pick_list(request.scripts, existing.scripts),
        exec_cmd: pick_opt(request.exec_cmd, existing.exec_cmd),
        scope: pick_opt(request.scope, existing.scope),
    })
}

/// Whether a mapping forwards to the portal's guest port.
pub open spec fn is_portal_mapping(p: PortPair) -> bool {
    p.guest == PORTAL_GUEST_PORT
}

/// `ports` with every portal mapping removed.
pub open spec fn spec_strip_portal(ports: Seq<PortPair>) -> Seq<PortPair> {
    ports.filter(|p: PortPair| !is_portal_mapping(p))
}

/// `ports` rewritten to hold exactly one portal mapping, to `host_port`, at
/// the end.
pub open spec fn spec_rewrite_portal(ports: Seq<PortPair>, host_port: u16) -> Seq<PortPair> {
    spec_strip_portal(ports).push(PortPair { host: host_port, guest: PORTAL_GUEST_PORT })
}

/// Rewrites the port list for a newly assigned portal host port: every prior
/// mapping onto the portal guest port is dropped, and the new mapping is
/// appended.
pub fn rewrite_portal_ports(ports: Vec<PortPair>, host_port: u16) -> (r: Vec<PortPair>)
    ensures
        r@ == spec_rewrite_portal(ports@, host_port),
{
    let mut out: Vec<PortPair> = Vec::new();
    let n = ports.len();
    let mut i: usize = 0;
    while i < n
        invariant
            i <= n,
            n == ports@.len(),
            out@ == spec_strip_portal(ports@.subrange(0, i as int)),
        decreases n - i,
    {
        let p = ports[i];
        proof {
            assert(ports@.subrange(0, i + 1).drop_last() =~= ports@.subrange(0, i as int));
            reveal_with_fuel(Seq::filter, 2);
            assert(spec_strip_portal(ports@.subrange(0, i + 1))
                == if !is_portal_mapping(ports@[i as int]) {
                    spec_strip_portal(ports@.subrange(0, i as int)).push(ports@[i as int])
                } else {
                    spec_strip_portal(ports@.subrange(0, i as int))
                });
        }
        if p.guest != PORTAL_GUEST_PORT {
            out.push(p);
        }
        i = i + 1;
    }
    proof {
        assert(ports@.subrange(0, n as int) =~= ports@);
    }
    out.push(PortPair { host: host_port, guest: PORTAL_GUEST_PORT });
    out
}

proof fn lemma_strip_portal_all_clean(ports: Seq<PortPair>)
    requires
        forall|i: int| 0 <= i < ports.len() ==> !is_portal_mapping(#[trigger] ports[i]),
    ensures
        spec_strip_portal(ports) == ports,
    decreases ports.len(),
{
    reveal_with_fuel(Seq::filter, 2);
    if ports.len() > 0 {
        lemma_strip_portal_all_clean(ports.drop_last());
        assert(spec_strip_portal(ports)
            == spec_strip_portal(ports.drop_last()).push(ports.last()));
        assert(ports.drop_last().push(ports.last()) =~= ports);
    }
}

proof fn lemma_strip_portal_clean(ports: Seq<PortPair>)
    ensures
        forall|i: int|
            0 <= i < spec_strip_portal(ports).len()
                ==> !is_portal_mapping(#[trigger] spec_strip_portal(ports)[i]),
    decreases ports.len(),
{
    reveal_with_fuel(Seq::filter, 2);
    if ports.len() > 0 {
        lemma_strip_portal_clean(ports.drop_last());
    }
}

/// Rewriting a port list for the same portal host port twice gives the same
/// list as rewriting it once: the rewrite is idempotent.
pub proof fn lemma_rewrite_portal_idempotent(ports: Seq<PortPair>, host_port: u16)
    ensures
        spec_rewrite_portal(spec_rewrite_portal(ports, host_port), host_port)
            == spec_rewrite_portal(ports, host_port),
{
    let stripped = spec_strip_portal(ports);
    let once = spec_rewrite_portal(ports, host_port);
    lemma_strip_portal_clean(ports);
    reveal_with_fuel(Seq::filter, 2);
    assert(once.drop_last() =~= stripped);
    assert(spec_strip_portal(once) == spec_strip_portal(stripped));
    lemma_strip_portal_all_clean(stripped);
}

/// The textual form `host:guest` of a port mapping.
pub open spec fn spec_port_pair_text(p: PortPair) -> Seq<char> {
    spec_decimal(p.host as nat) + seq![':'] + spec_decimal(p.guest as nat)
}

/// Formats a port mapping as `host:guest`.
pub fn format_port_pair(p: &PortPair) -> (r: String)
    ensures
        r@ == spec_port_pair_text(*p),
{
    let mut s = u64_to_string(p.host as u64);
    push_char(&mut s, ':');
    let g = u64_to_string(p.guest as u64);
    s.append(g.as_str());
    proof {
        assert(s@ =~= spec_port_pair_text(*p));
    }
    s
}

/// The position of the first colon in `s`, if any.
pub open spec fn spec_first_colon(s: Seq<char>) -> Option<int>
    decreases s.len(),
{
    if s.len() == 0 {
        None
    } else if s[0] == ':' {
        Some(0int)
    } else {
        match spec_first_colon(s.subrange(1, s.len() as int)) {
            Some(i) => Some(i + 1),
            None => None,
        }
    }
}

proof fn lemma_first_colon_at(s: Seq<char>, i: int)
    requires
        0 <= i < s.len(),
        s[i] == ':',
        forall|k: int| 0 <= k < i ==> s[k] != ':',
    ensures
        spec_first_colon(s) == Some(i),
    decreases i,
{
    if i > 0 {
        lemma_first_colon_at(s.subrange(1, s.len() as int), i - 1);
    }
}

proof fn lemma_no_colon(s: Seq<char>)
    requires
        forall|k: int| 0 <= k < s.len() ==> s[k] != ':',
    ensures
        spec_first_colon(s) is None,
    decreases s.len(),
{
    if s.len() > 0 {
        lemma_no_colon(s.subrange(1, s.len() as int));
    }
}

/// Parses `host:guest` into a port mapping. Succeeds exactly when the text
/// has a colon and both sides are decimal numbers that fit in sixteen bits;
/// the split is at the first colon.
pub fn parse_port_pair(s: &str) -> (r: Option<PortPair>)
    ensures
        spec_first_colon(s@) is None ==> r is None,
        spec_first_colon(s@) matches Some(i) ==> {
            let host_txt = s@.subrange(0, i);
            let guest_txt = s@.subrange(i + 1, s@.len() as int);
            match r {
                Some(p) => {
                    &&& host_txt.len() > 0
                    &&& crate::strutil::all_digits(host_txt)
                    &&& p.host as nat == crate::strutil::spec_digits_val(host_txt)
                    &&& guest_txt.len() > 0
                    &&& crate::strutil::all_digits(guest_txt)
                    &&& p.guest as nat == crate::strutil::spec_digits_val(guest_txt)
                },
                None => {
                    ||| host_txt.len() == 0
                    ||| !crate::strutil::all_digits(host_txt)
                    ||| crate::strutil::spec_digits_val(host_txt) > u16::MAX
                    ||| guest_txt.len() == 0
                    ||| !crate::strutil::all_digits(guest_txt)
                    ||| crate::strutil::spec_digits_val(guest_txt) > u16::MAX
                },
            }
        },
{
    let len = s.unicode_len();
    let mut i: usize = 0;
    while i < len && s.get_char(i) != ':'
        invariant
            i <= len,
            len == s@.len(),
            forall|k: int| 0 <= k < i ==> s@[k] != ':',
        decreases len - i,
    {
        i = i + 1;
    }
    if i == len {
        proof {
            lemma_no_colon(s@);
        }
        return None;
    }
    proof {
        lemma_first_colon_at(s@, i as int);
    }
    let host_txt = s.substring_char(0, i);
    let guest_txt = s.substring_char(i + 1, len);
    let host = match parse_u16(host_txt) {
        Some(h) => h,
        None => {
            return None;
        }
    };
    let guest = match parse_u16(guest_txt) {
        Some(g) => g,
        None => {
            return None;
        }
    };
    Some(PortPair { host, guest })
}

/// How a sandbox's process is started, in priority order: the `start`
/// script, then `exec`, then the shell.
pub enum Entrypoint {
    /// The command line of the `start` script.
    StartScript(String),
    /// The `exec` command.
    Exec(String),
    /// The configured shell.
    Shell(String),
}

/// Whether the script list holds an entry named `k`.
pub open spec fn scripts_have(scripts: Seq<(String, String)>, k: Seq<char>) -> bool {
    exists|i: int| 0 <= i < scripts.len() && #[trigger] scripts[i].0@ == k
}

/// A well-formed script list: script names are pairwise distinct, as they
/// were when scripts lived in a map keyed by name.
pub open spec fn scripts_wf(scripts: Seq<(String, String)>) -> bool {
    forall|i: int, j: int|
        0 <= i < scripts.len() && 0 <= j < scripts.len() && i != j
            ==> (#[trigger] scripts[i]).0@ != (#[trigger] scripts[j]).0@
}

/// Finds a script by name.
pub fn find_script<'a>(scripts: &'a Vec<(String, String)>, name: &str) -> (r: Option<&'a String>)
    ensures
        match r {
            Some(cmd) => exists|i: int|
                0 <= i < scripts@.len() && #[trigger] scripts@[i].0@ == name@
                    && scripts@[i].1 == *cmd,
            None => !scripts_have(scripts@, name@),
        },
        scripts_wf(scripts@) ==> (r matches Some(cmd) ==> forall|i: int|
            0 <= i < scripts@.len() && (#[trigger] scripts@[i]).0@ == name@
                ==> scripts@[i].1 == *cmd),
{
    let n = scripts.len();
    let mut j: usize = 0;
    while j < n
        invariant
            j <= n,
            n == scripts@.len(),
            forall|k: int| 0 <= k < j ==> #[trigger] scripts@[k].0@ != name@,
        decreases n - j,
    {
        if str_eq(scripts[j].0.as_str(), name) {
            proof {
                if scripts_wf(scripts@) {
                    assert(forall|i: int|
                        0 <= i < scripts@.len() && (#[trigger] scripts@[i]).0@ == name@
                            ==> i == j);
                }
            }
            return Some(&scripts[j].1);
        }
        j = j + 1;
    }
    None
}

impl SandboxConfig {
    /// The scripts with `start` guaranteed present: when no `start` script
    /// is configured and a shell is, the shell is added under `start`.
    pub fn get_full_scripts(&self) -> (r: Vec<(String, String)>)
        ensures
            scripts_have(self.scripts@, "start"@)
                ==> scripts_view(r@) == scripts_view(self.scripts@),
            !scripts_have(self.scripts@, "start"@) && self.shell is Some
                ==> scripts_view(r@)
                    == scripts_view(self.scripts@).push(("start"@, self.shell->0@)),
            !scripts_have(self.scripts@, "start"@) && self.shell is None
                ==> scripts_view(r@) == scripts_view(self.scripts@),
            scripts_wf(self.scripts@) ==> scripts_wf(r@),
    {
        let mut out = clone_scripts(&self.scripts);
        proof {
            assert(scripts_view(out@).len() == out@.len());
            assert(scripts_view(self.scripts@).len() == self.scripts@.len());
            assert(out@.len() == self.scripts@.len());
            assert forall|i: int| 0 <= i < out@.len()
                implies (#[trigger] out@[i]).0@ == self.scripts@[i].0@ by {
                assert(scripts_view(out@)[i] == scripts_view(self.scripts@)[i]);
            }
        }
        let ghost base = out@;
        proof {
            assert(base.len() == self.scripts@.len());
        }
        let mut pushed_start = false;
        if find_script(&self.scripts, "start").is_none() {
            match &self.shell {
                Some(sh) => {
                    out.push(("start".to_owned(), sh.clone()));
                    pushed_start = true;
                    proof {
                        assert(scripts_view(out@)
                            =~= scripts_view(base).push(("start"@, self.shell->0@)));
                    }
                }
                None => {}
            }
        }
        proof {
            if scripts_wf(self.scripts@) {
                assert forall|i: int, j: int|
                    0 <= i < out@.len() && 0 <= j < out@.len() && i != j
                        implies (#[trigger] out@[i]).0@ != (#[trigger] out@[j]).0@ by {
                    if i < base.len() && j < base.len() {
                        assert(out@[i] == base[i]);
                        assert(out@[j] == base[j]);
                        assert(base[i].0@ == self.scripts@[i].0@);
                        assert(base[j].0@ == self.scripts@[j].0@);
                        assert(self.scripts@[i].0@ != self.scripts@[j].0@);
                    } else if i >= base.len() {
                        assert(pushed_start);
                        assert(out@[i].0@ == "start"@);
                        assert(out@[j] == base[j]);
                        assert(base[j].0@ == self.scripts@[j].0@);
                        assert(self.scripts@[j].0@ == "start"@
                            ==> scripts_have(self.scripts@, "start"@));
                    } else {
                        assert(pushed_start);
                        assert(out@[j].0@ == "start"@);
                        assert(out@[i] == base[i]);
                        assert(base[i].0@ == self.scripts@[i].0@);
                        assert(self.scripts@[i].0@ == "start"@
                            ==> scripts_have(self.scripts@, "start"@));
                    }
                }
            }
        }
        out
    }
}

/// The conventional in-guest path a named sandbox script is written to
/// before the VM is executed.
pub open spec fn spec_script_guest_path(name: Seq<char>) -> Seq<char> {
    "/.sandbox_scripts/"@ + name
}

/// Builds the in-guest path of a named sandbox script.
pub fn script_guest_path(name: &str) -> (r: String)
    ensures
        r@ == spec_script_guest_path(name@),
{
    let mut p = "/.sandbox_scripts/".to_owned();
    p.append(name);
    p
}

/// Resolves the entrypoint of a merged configuration: the `start` script
/// wins, then `exec`, then `shell`; with none of the three the sandbox
/// cannot launch and this fails.
pub fn resolve_entrypoint(config: &SandboxConfig) -> (r: Result<Entrypoint, ServerError>)
    ensures
        scripts_have(config.scripts@, "start"@) ==> r is Ok && r->Ok_0 is StartScript,
        !scripts_have(config.scripts@, "start"@) && config.exec_cmd is Some ==> r is Ok
            && r->Ok_0 is Exec && r->Ok_0->Exec_0 == config.exec_cmd->0,
        !scripts_have(config.scripts@, "start"@) && config.exec_cmd is None
            && config.shell is Some ==> r is Ok && r->Ok_0 is Shell
            && r->Ok_0->Shell_0 == config.shell->0,
        !scripts_have(config.scripts@, "start"@) && config.exec_cmd is None
            && config.shell is None ==> r is Err && r->Err_0 is InvalidInput,
{
    match find_script(&config.scripts, "start") {
        Some(cmd) => Ok(Entrypoint::StartScript(cmd.clone())),
        None => {
            match &config.exec_cmd {
                Some(e) => Ok(Entrypoint::Exec(e.clone())),
                None => {
                    match &config.shell {
                        Some(sh) => Ok(Entrypoint::Shell(sh.clone())),
                        None => Err(ServerError::InvalidInput(
                            "no entrypoint: configuration has no start script, exec or shell".to_owned(),
                        )),
                    }
                }
            }
        }
    }
}


/// The views of a sequence of strings.
pub open spec fn strs_view(v: Seq<String>) -> Seq<Seq<char>> {
    v.map_values(|s: String| s@)
}

/// The views of a script list.
pub open spec fn scripts_view(v: Seq<(String, String)>) -> Seq<(Seq<char>, Seq<char>)> {
    v.map_values(|e: (String, String)| (e.0@, e.1@))
}

/// The view of an optional string.
pub open spec fn opt_str_view(v: Option<String>) -> Option<Seq<char>> {
    match v {
        Some(s) => Some(s@),
        None => None,
    }
}

/// The mathematical value of a sandbox configuration.
#[verifier::ext_equal]
pub struct CfgView {
    /// View of `image`.
    pub image: Option<Seq<char>>,
    /// `memory` as is.
    pub memory: Option<u32>,
    /// `cpus` as is.
    pub cpus: Option<u8>,
    /// Views of `volumes`.
    pub volumes: Seq<Seq<char>>,
    /// `ports` as is.
    pub ports: Seq<PortPair>,
    /// Views of `envs`.
    pub envs: Seq<Seq<char>>,
    /// Views of `depends_on`.
    pub depends_on: Seq<Seq<char>>,
    /// View of `workdir`.
    pub workdir: Option<Seq<char>>,
    /// View of `shell`.
    pub shell: Option<Seq<char>>,
    /// Views of `scripts`.
    pub scripts: Seq<(Seq<char>, Seq<char>)>,
    /// View of `exec_cmd`.
    pub exec_cmd: Option<Seq<char>>,
    /// `scope` as is.
    pub scope: Option<NetworkScope>,
}

impl View for SandboxConfig {
    type V = CfgView;

    open spec fn view(&self) -> CfgView {
        CfgView {
            image: opt_str_view(self.image),
            memory: self.memory,
            cpus: self.cpus,
            volumes: strs_view(self.volumes@),
            ports: self.ports@,
            envs: strs_view(self.envs@),
            depends_on: strs_view(self.depends_on@),
            workdir: opt_str_view(self.workdir),
            shell: opt_str_view(self.shell),
            scripts: scripts_view(self.scripts@),
            exec_cmd: opt_str_view(self.exec_cmd),
            scope: self.scope,
        }
    }
}

fn clone_opt_string(v: &Option<String>) -> (r: Option<String>)
    ensures
        opt_str_view(r) == opt_str_view(*v),
{
    match v {
        Some(s) => Some(s.clone()),
        None => None,
    }
}

fn clone_strings(v: &Vec<String>) -> (r: Vec<String>)
    ensures
        strs_view(r@) == strs_view(v@),
{
    let mut out: Vec<String> = Vec::new();
    let n = v.len();
    let mut i: usize = 0;
    while i < n
        invariant
            i <= n,
            n == v@.len(),
            out@.len() == i,
            forall|k: int| 0 <= k < i ==> (#[trigger] out@[k])@ == v@[k]@,
        decreases n - i,
    {
        out.push(v[i].clone());
        i = i + 1;
    }
    proof {
        assert(strs_view(out@) =~= strs_view(v@));
    }
    out
}

fn clone_ports(v: &Vec<PortPair>) -> (r: Vec<PortPair>)
    ensures
        r@ == v@,
{
    let mut out: Vec<PortPair> = Vec::new();
    let n = v.len();
    let mut i: usize = 0;
    while i < n
        invariant
            i <= n,
            n == v@.len(),
            out@ == v@.subrange(0, i as int),
        decreases n - i,
    {
        out.push(v[i]);
        proof {
            assert(out@ =~= v@.subrange(0, i + 1));
        }
        i = i + 1;
    }
    proof {
        assert(v@.subrange(0, n as int) =~= v@);
    }
    out
}

fn clone_scripts(v: &Vec<(String, String)>) -> (r: Vec<(String, String)>)
    ensures
        scripts_view(r@) == scripts_view(v@),
{
    let mut out: Vec<(String, String)> = Vec::new();
    let n = v.len();
    let mut i: usize = 0;
    while i < n
        invariant
            i <= n,
            n == v@.len(),
            out@.len() == i,
            forall|k: int| 0 <= k < i ==> (#[trigger] out@[k]).0@ == v@[k].0@
                && out@[k].1@ == v@[k].1@,
        decreases n - i,
    {
        out.push((v[i].0.clone(), v[i].1.clone()));
        i = i + 1;
    }
    proof {
        assert(scripts_view(out@) =~= scripts_view(v@));
    }
    out
}

impl SandboxConfig {
    /// A deep copy with the same mathematical value.
    pub fn duplicate(&self) -> (r: SandboxConfig)
        ensures
            r@ == self@,
    {
        let r = SandboxConfig {
            image: clone_opt_string(&self.image),
            memory: self.memory,
            cpus: self.cpus,
            volumes: clone_strings(&self.volumes),
            ports: clone_ports(&self.ports),
            envs: clone_strings(&self.envs),
            depends_on: clone_strings(&self.depends_on),
            workdir: clone_opt_string(&self.workdir),
            shell: clone_opt_string(&self.shell),
            scripts: clone_scripts(&self.scripts),
            exec_cmd: clone_opt_string(&self.exec_cmd),
            scope: self.scope,
        };
        proof {
            assert(r@ =~= self@);
        }
        r
    }
}

/// The configuration persisted for a sandbox by a successful start: the
/// request merged over what was on disk, with the port list rewritten for
/// the assigned portal host port. `existing` is the on-disk entry, if any.
pub open spec fn cfg_after_start(existing: Option<CfgView>, req: CfgView, port: u16) -> CfgView {
    let e = match existing {
        Some(c) => c,
        None => CfgView {
            image: None,
            memory: None,
            cpus: None,
            volumes: Seq::empty(),
            ports: Seq::empty(),
            envs: Seq::empty(),
            depends_on: Seq::empty(),
            workdir: None,
            shell: None,
            scripts: Seq::empty(),
            exec_cmd: None,
            scope: None,
        },
    };
    CfgView {
        image: merged_opt(req.image, e.image),
        memory: merged_opt(req.memory, e.memory),
        cpus: merged_opt(req.cpus, e.cpus),
        volumes: merged_list(req.volumes, e.volumes),
        ports: spec_rewrite_portal(merged_list(req.ports, e.ports), port),
        envs: merged_list(req.envs, e.envs),
        depends_on: merged_list(req.depends_on, e.depends_on),
        workdir: merged_opt(req.workdir, e.workdir),
        shell: merged_opt(req.shell, e.shell),
        scripts: merged_list(req.scripts, e.scripts),
        exec_cmd: merged_opt(req.exec_cmd, e.exec_cmd),
        scope: merged_opt(req.scope, e.scope),
    }
}

proof fn lemma_strip_of_rewrite(ports: Seq<PortPair>, port: u16)
    ensures
        spec_strip_portal(spec_rewrite_portal(ports, port)) == spec_strip_portal(ports),
{
    let stripped = spec_strip_portal(ports);
    lemma_strip_portal_clean(ports);
    reveal_with_fuel(Seq::filter, 2);
    assert(spec_rewrite_portal(ports, port).drop_last() =~= stripped);
    lemma_strip_portal_all_clean(stripped);
}

/// Starting a sandbox that was already started once (and possibly stopped)
/// with the same request persists the same configuration as starting it from
/// the first state: the end state does not depend on the intermediate
/// start, only the newly assigned port `q` enters the result.
pub proof fn lemma_restart_equivalent(
    existing: Option<CfgView>,
    req: CfgView,
    p: u16,
    q: u16,
)
    ensures
        cfg_after_start(Some(cfg_after_start(existing, req, p)), req, q)
            == cfg_after_start(existing, req, q),
{
    let once = cfg_after_start(existing, req, p);
    let twice = cfg_after_start(Some(once), req, q);
    let direct = cfg_after_start(existing, req, q);
    let e = match existing {
        Some(c) => c,
        None => CfgView {
            image: None,
            memory: None,
            cpus: None,
            volumes: Seq::empty(),
            ports: Seq::empty(),
            envs: Seq::empty(),
            depends_on: Seq::empty(),
            workdir: None,
            shell: None,
            scripts: Seq::empty(),
            exec_cmd: None,
            scope: None,
        },
    };
    if req.ports.len() > 0 {
        assert(merged_list(req.ports, once.ports) == req.ports);
        lemma_strip_of_rewrite(req.ports, q);
        assert(twice.ports =~= direct.ports);
    } else {
        assert(merged_list(req.ports, e.ports) == e.ports);
        assert(once.ports == spec_rewrite_portal(e.ports, p));
        assert(merged_list(req.ports, once.ports) == once.ports);
        lemma_strip_of_rewrite(e.ports, p);
        assert(spec_strip_portal(once.ports) == spec_strip_portal(e.ports));
        assert(twice.ports =~= direct.ports);
    }
    assert(twice =~= direct);
}

/// The textual form of a port mapping parses back to exactly that mapping:
/// the first colon splits it into the two decimal numbers it was formatted
/// from, both in range.
pub proof fn lemma_port_pair_text_parses(p: PortPair)
    ensures
        ({
            let s = spec_port_pair_text(p);
            let h = spec_decimal(p.host as nat);
            let g = spec_decimal(p.guest as nat);
            &&& spec_first_colon(s) == Some(h.len() as int)
            &&& s.subrange(0, h.len() as int) == h
            &&& s.subrange(h.len() as int + 1, s.len() as int) == g
            &&& crate::strutil::all_digits(h)
            &&& crate::strutil::all_digits(g)
            &&& h.len() > 0 && g.len() > 0
            &&& crate::strutil::spec_digits_val(h) == p.host as nat
            &&& crate::strutil::spec_digits_val(g) == p.guest as nat
        }),
{
    let s = spec_port_pair_text(p);
    let h = spec_decimal(p.host as nat);
    let g = spec_decimal(p.guest as nat);
    crate::strutil::lemma_decimal_all_digits(p.host as nat);
    crate::strutil::lemma_decimal_all_digits(p.guest as nat);
    crate::strutil::lemma_decimal_val(p.host as nat);
    crate::strutil::lemma_decimal_val(p.guest as nat);
    assert(s[h.len() as int] == ':');
    assert(forall|k: int| 0 <= k < h.len()
        ==> s[k] == h[k] && crate::strutil::is_digit(#[trigger] h[k]));
    assert(forall|k: int| 0 <= k < h.len() ==> s[k] != ':');
    lemma_first_colon_at(s, h.len() as int);
    assert(s.subrange(0, h.len() as int) =~= h);
    assert(s.subrange(h.len() as int + 1, s.len() as int) =~= g);
}

} // verus!
