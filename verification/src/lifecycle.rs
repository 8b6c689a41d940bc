//! The sandbox lifecycle manager: the server's persistent state — namespaces,
//! per-sandbox configurations and the port allocator — and the `start` and
//! `stop` transitions over it.

use vstd::prelude::*;

use crate::config::{cfg_after_start, merge_config, rewrite_portal_ports, strs_view, CfgView,
    SandboxConfig};
use crate::error::ServerError;
use crate::names::valid_name;
use crate::ports::PortAllocator;
use crate::strutil::{push_char, str_eq};

verus! {

/// One persisted sandbox entry, keyed by `namespace/name`.
pub struct SandboxEntry {
    /// The portal key `namespace/name`.
    pub key: String,
    /// The persisted configuration.
    pub config: SandboxConfig,
}

/// The server's persistent state: the created namespaces, the persisted
/// sandbox configurations, and the portal port allocator.
pub struct ServerState {
    /// The port allocator.
    pub allocator: PortAllocator,
    /// The names of the namespaces that exist.
    pub namespaces: Vec<String>,
    /// The persisted sandbox configurations, keyed by `namespace/name`.
    pub sandboxes: Vec<SandboxEntry>,
}

/// What a successful `start` hands to the supervisor spawner.
pub struct StartPlan {
    /// The assigned portal host port.
    pub port: u16,
    /// The persisted configuration the sandbox is launched with.
    pub config: SandboxConfig,
    /// Readiness poll timeout: longer when the request carries an image,
    /// since a first-time pull may be needed.
    pub poll_timeout_secs: u64,
}

/// Readiness timeout when the request carries an image.
pub const POLL_TIMEOUT_PULL_SECS: u64 = 180;

/// Readiness timeout for a plain restart.
pub const POLL_TIMEOUT_SECS: u64 = 60;

/// The portal key of a sandbox: `namespace/name`.
pub open spec fn portal_key(ns: Seq<char>, sb: Seq<char>) -> Seq<char> {
    ns + seq!['/'] + sb
}

/// Builds the portal key `namespace/name`.
pub fn make_key(namespace: &str, sandbox: &str) -> (r: String)
    ensures
        r@ == portal_key(namespace@, sandbox@),
{
    let mut k = namespace.to_owned();
    push_char(&mut k, '/');
    k.append(sandbox);
    proof {
        assert(k@ =~= portal_key(namespace@, sandbox@));
    }
    k
}

impl ServerState {
    /// The namespace names, as sequences.
    pub open spec fn nss(self) -> Seq<Seq<char>> {
        strs_view(self.namespaces@)
    }

    /// Whether the namespace `n` exists.
    pub open spec fn has_namespace(self, n: Seq<char>) -> bool {
        exists|i: int| 0 <= i < self.nss().len() && self.nss()[i] == n
    }

    /// The sandbox keys and configuration values, in storage order.
    pub open spec fn sbs(self) -> Seq<(Seq<char>, CfgView)> {
        self.sandboxes@.map_values(|e: SandboxEntry| (e.key@, e.config@))
    }

    /// Whether a sandbox entry with key `k` exists.
    pub open spec fn has_sandbox(self, k: Seq<char>) -> bool {
        exists|i: int| 0 <= i < self.sbs().len() && (#[trigger] self.sbs()[i]).0 == k
    }

    /// The persisted configuration under key `k`, if any.
    pub open spec fn sandbox_cfg(self, k: Seq<char>) -> Option<CfgView> {
        if self.has_sandbox(k) {
            let i = choose|i: int| 0 <= i < self.sbs().len() && (#[trigger] self.sbs()[i]).0 == k;
            Some(self.sbs()[i].1)
        } else {
            None
        }
    }

    /// Well-formed state: the allocator is well-formed, namespace names are
    /// unique, and sandbox keys are unique.
    pub open spec fn wf(self) -> bool {
        &&& self.allocator.wf()
        &&& forall|i: int, j: int|
            0 <= i < self.nss().len() && 0 <= j < self.nss().len() && i != j
                ==> self.nss()[i] != self.nss()[j]
        &&& forall|i: int, j: int|
            0 <= i < self.sbs().len() && 0 <= j < self.sbs().len() && i != j
                ==> (#[trigger] self.sbs()[i]).0 != (#[trigger] self.sbs()[j]).0
    }

    /// With unique keys, any index holding `k` determines `sandbox_cfg`.
    pub proof fn lemma_sandbox_cfg_at(self, i: int)
        requires
            forall|a: int, b: int|
                0 <= a < self.sbs().len() && 0 <= b < self.sbs().len() && a != b
                    ==> (#[trigger] self.sbs()[a]).0 != (#[trigger] self.sbs()[b]).0,
            0 <= i < self.sbs().len(),
        ensures
            self.sandbox_cfg(self.sbs()[i].0) == Some(self.sbs()[i].1),
    {
        assert(self.has_sandbox(self.sbs()[i].0));
        let j = choose|j: int|
            0 <= j < self.sbs().len() && (#[trigger] self.sbs()[j]).0 == self.sbs()[i].0;
        assert(j == i);
    }

    /// A fresh server state over the port range `[port_min, port_max]`.
    pub fn new(port_min: u16, port_max: u16) -> (r: ServerState)
        requires
            port_min <= port_max,
        ensures
            r.wf(),
            r.nss().len() == 0,
            r.sbs().len() == 0,
            r.allocator.spec_port_min() == port_min,
            r.allocator.spec_port_max() == port_max,
            r.allocator.num_free() == port_max - port_min + 1,
            r.allocator.num_assigned() == 0,
    {
        let r = ServerState {
            allocator: PortAllocator::new(port_min, port_max),
            namespaces: Vec::new(),
            sandboxes: Vec::new(),
        };
        r
    }

    fn find_namespace(&self, ns: &str) -> (r: Option<usize>)
        ensures
            match r {
                Some(i) => 0 <= i < self.nss().len() && self.nss()[i as int] == ns@,
                None => !self.has_namespace(ns@),
            },
    {
        let n = self.namespaces.len();
        let mut j: usize = 0;
        while j < n
            invariant
                j <= n,
                n == self.nss().len(),
                forall|k: int| 0 <= k < j ==> self.nss()[k] != ns@,
            decreases n - j,
        {
            if str_eq(self.namespaces[j].as_str(), ns) {
                return Some(j);
            }
            j = j + 1;
        }
        None
    }

    fn find_sandbox(&self, key: &str) -> (r: Option<usize>)
        ensures
            match r {
                Some(i) => 0 <= i < self.sbs().len() && self.sbs()[i as int].0 == key@,
                None => !self.has_sandbox(key@),
            },
    {
        let n = self.sandboxes.len();
        let mut j: usize = 0;
        while j < n
            invariant
                j <= n,
                n == self.sbs().len(),
                forall|k: int| 0 <= k < j ==> (#[trigger] self.sbs()[k]).0 != key@,
            decreases n - j,
        {
            if str_eq(self.sandboxes[j].key.as_str(), key) {
                return Some(j);
            }
            j = j + 1;
        }
        None
    }
}

/// Two states with the same sandbox sequence (the first with unique keys)
/// answer every configuration lookup alike.
proof fn lemma_same_sbs_same_cfg(a: ServerState, b: ServerState)
    requires
        a.sbs() == b.sbs(),
        forall|i: int, j: int|
            0 <= i < a.sbs().len() && 0 <= j < a.sbs().len() && i != j
                ==> (#[trigger] a.sbs()[i]).0 != (#[trigger] a.sbs()[j]).0,
    ensures
        forall|k: Seq<char>| a.sandbox_cfg(k) == b.sandbox_cfg(k),
{
    assert forall|k: Seq<char>| a.sandbox_cfg(k) == b.sandbox_cfg(k) by {
        if a.has_sandbox(k) {
            let i = choose|i: int|
                0 <= i < a.sbs().len() && (#[trigger] a.sbs()[i]).0 == k;
            a.lemma_sandbox_cfg_at(i);
            assert(b.sbs()[i].0 == k);
            b.lemma_sandbox_cfg_at(i);
        } else {
            assert(!b.has_sandbox(k)) by {
                if b.has_sandbox(k) {
                    let i = choose|i: int|
                        0 <= i < b.sbs().len() && (#[trigger] b.sbs()[i]).0 == k;
                    assert(a.sbs()[i].0 == k);
                }
            }
        }
    }
}

/// The transition relation of `start_sandbox`: how the post-state and result
/// relate to the pre-state and request.
pub open spec fn start_post(
    pre: ServerState,
    post: ServerState,
    ns: Seq<char>,
    sb: Seq<char>,
    req: CfgView,
    r: Result<StartPlan, ServerError>,
) -> bool {
    let key = portal_key(ns, sb);
    let existing = pre.sandbox_cfg(key);
    let can_merge = req.image is Some || (existing matches Some(e) && e.image is Some);
    let can_assign = pre.allocator.has_key(key) || pre.allocator.num_free() > 0;
    &&& !(valid_name(sb) && valid_name(ns)) ==> (r is Err && r->Err_0 is InvalidInput
        && post == pre)
    &&& valid_name(sb) && valid_name(ns) ==> {
        &&& if pre.has_namespace(ns) {
            post.nss() == pre.nss()
        } else {
            post.nss() == pre.nss().push(ns)
        }
        &&& !can_merge ==> (r is Err && r->Err_0 is InvalidInput
            && post.allocator == pre.allocator && post.sbs() == pre.sbs())
        &&& can_merge && !can_assign ==> (r is Err && r->Err_0 is ResourceExhausted
            && post.allocator == pre.allocator && post.sbs() == pre.sbs())
        &&& can_merge && can_assign ==> (r matches Ok(plan) && {
            &&& post.allocator.has_key(key)
            &&& post.allocator.key_port(key) == Some(plan.port)
            &&& pre.allocator.has_key(key) ==> post.allocator == pre.allocator
                && Some(plan.port) == pre.allocator.key_port(key)
            &&& !pre.allocator.has_key(key) ==> pre.allocator.in_free(plan.port)
                && post.allocator.num_free() == pre.allocator.num_free() - 1
            &&& forall|k: Seq<char>| k != key
                ==> post.allocator.key_port(k) == pre.allocator.key_port(k)
            &&& post.sandbox_cfg(key) == Some(cfg_after_start(existing, req, plan.port))
            &&& forall|k: Seq<char>| k != key ==> post.sandbox_cfg(k) == pre.sandbox_cfg(k)
            &&& plan.config@ == cfg_after_start(existing, req, plan.port)
            &&& plan.poll_timeout_secs == if req.image is Some {
                POLL_TIMEOUT_PULL_SECS
            } else {
                POLL_TIMEOUT_SECS
            }
        })
    }
    &&& pre.wf() ==> post.wf()
}

/// The transition relation of `stop_sandbox`.
///
/// The port is released unconditionally — also when the VMM reported a
/// failure — so a failed stop can never leak portal capacity. A stop on an
/// unknown namespace reports not-found and changes nothing; the persisted
/// configurations are never changed by a stop.
pub open spec fn stop_post(
    pre: ServerState,
    post: ServerState,
    ns: Seq<char>,
    sb: Seq<char>,
    vmm_ok: bool,
    r: Result<String, ServerError>,
) -> bool {
    let key = portal_key(ns, sb);
    &&& !(valid_name(sb) && valid_name(ns)) ==> (r is Err && r->Err_0 is InvalidInput
        && post == pre)
    &&& valid_name(sb) && valid_name(ns) && !pre.has_namespace(ns) ==> (r is Err
        && r->Err_0 is NotFound && post == pre)
    &&& valid_name(sb) && valid_name(ns) && pre.has_namespace(ns) ==> {
        &&& post.nss() == pre.nss()
        &&& post.sbs() == pre.sbs()
        &&& !post.allocator.has_key(key)
        &&& !pre.allocator.has_key(key) ==> post.allocator == pre.allocator
        &&& pre.wf() && pre.allocator.has_key(key)
            ==> post.allocator.in_free(pre.allocator.key_port(key)->0)
                && post.allocator.num_free() == pre.allocator.num_free() + 1
        &&& forall|k: Seq<char>| k != key
            ==> post.allocator.key_port(k) == pre.allocator.key_port(k)
        &&& vmm_ok ==> (r matches Ok(m) && m@ == "stopped sandbox "@ + sb)
        &&& !vmm_ok ==> (r is Err && r->Err_0 is Backend)
    }
    &&& pre.wf() ==> post.wf()
}

impl ServerState {
    /// Starts (or restarts) a sandbox: validates the names, creates the
    /// namespace if needed, merges the request over the persisted
    /// configuration, assigns a portal port, rewrites the port list, and
    /// persists the result. Fails without touching VM state when the names
    /// are invalid, no image is known, or no port is free.
    pub fn start_sandbox(
        &mut self,
        namespace: &str,
        sandbox: &str,
        request: SandboxConfig,
    ) -> (r: Result<StartPlan, ServerError>)
        requires
            old(self).wf(),
        ensures
            final(self).wf(),
            start_post(*old(self), *final(self), namespace@, sandbox@, request@, r),
    {
        let ghost pre = *old(self);
        let ghost req = request@;
        let req_has_image = request.image.is_some();
        if let Err(e) = crate::names::validate_sandbox_name(sandbox) {
            return Err(e);
        }
        if let Err(e) = crate::names::validate_namespace(namespace) {
            return Err(e);
        }
        let key = make_key(namespace, sandbox);

        // Ensure the namespace exists.
        if self.find_namespace(namespace).is_none() {
            self.namespaces.push(namespace.to_owned());
            proof {
                assert(self.nss() =~= pre.nss().push(namespace@));
                assert(forall|i: int, j: int|
                    0 <= i < self.nss().len() && 0 <= j < self.nss().len() && i != j
                        ==> self.nss()[i] != self.nss()[j]) by {
                    assert(forall|i: int| 0 <= i < pre.nss().len()
                        ==> self.nss()[i] == pre.nss()[i]);
                    assert(!pre.has_namespace(namespace@));
                }
                assert(self.sbs() =~= pre.sbs());
                assert(self.allocator == pre.allocator);
            }
        }
        let ghost mid = *self;
        let ghost kseq = key@;
        proof {
            assert(mid.sbs() == pre.sbs());
            lemma_same_sbs_same_cfg(pre, mid);
        }

        // Merge the request over the persisted configuration, if any.
        let found = self.find_sandbox(key.as_str());
        let existing_cfg = match found {
            Some(i) => {
                proof {
                    self.lemma_sandbox_cfg_at(i as int);
                }
                self.sandboxes[i].config.duplicate()
            }
            None => SandboxConfig::empty(),
        };
        proof {
            match found {
                Some(i) => {
                    assert(pre.sandbox_cfg(key@) == Some(existing_cfg@));
                }
                None => {
                    assert(pre.sandbox_cfg(key@) is None);
                }
            }
        }
        let ghost existing = pre.sandbox_cfg(key@);
        let merged = match merge_config(request, existing_cfg) {
            Ok(m) => m,
            Err(e) => {
                return Err(e);
            }
        };

        // Assign a portal port; failure leaves the state untouched.
        let port = match self.allocator.assign(key.as_str()) {
            Ok(p) => p,
            Err(e) => {
                return Err(e);
            }
        };

        // Rewrite the port list for the assigned port and persist.
        let SandboxConfig {
            image,
            memory,
            cpus,
            volumes,
            ports,
            envs,
            depends_on,
            workdir,
            shell,
            scripts,
            exec_cmd,
            scope,
        } = merged;
        let config = SandboxConfig {
            image,
            memory,
            cpus,
            volumes,
            ports: rewrite_portal_ports(ports, port),
            envs,
            depends_on,
            workdir,
            shell,
            scripts,
            exec_cmd,
            scope,
        };
        proof {
            assert(config@ =~= cfg_after_start(existing, req, port));
        }
        let stored = config.duplicate();
        let ghost before_upsert = *self;
        match found {
            Some(i) => {
                self.sandboxes[i] = SandboxEntry { key, config: stored };
                proof {
                    assert(forall|j: int| 0 <= j < self.sbs().len() && j != i
                        ==> self.sbs()[j] == before_upsert.sbs()[j]);
                    assert(self.sbs()[i as int].0 == kseq);
                    assert(self.sbs()[i as int].1 == cfg_after_start(existing, req, port));
                }
            }
            None => {
                self.sandboxes.push(SandboxEntry { key, config: stored });
                proof {
                    let newi = self.sbs().len() - 1;
                    assert(forall|j: int| 0 <= j < newi
                        ==> self.sbs()[j] == before_upsert.sbs()[j]);
                    assert(self.sbs()[newi].0 == kseq);
                    assert(self.sbs()[newi].1 == cfg_after_start(existing, req, port));
                }
            }
        }
        proof {
            let idx: int = if found is Some {
                found->0 as int
            } else {
                before_upsert.sbs().len() as int
            };
            lemma_upsert_cfg(before_upsert, *self, kseq, cfg_after_start(existing, req, port),
                idx);
        }
        let poll_timeout_secs: u64 = if req_has_image {
            POLL_TIMEOUT_PULL_SECS
        } else {
            POLL_TIMEOUT_SECS
        };
        Ok(StartPlan { port, config, poll_timeout_secs })
    }
}

/// After writing `cfg` under `key` at index `i` (every other index
/// unchanged, keys still unique), lookups see `cfg` under `key` and the old
/// value everywhere else.
proof fn lemma_upsert_cfg(
    pre: ServerState,
    post: ServerState,
    key: Seq<char>,
    cfg: CfgView,
    i: int,
)
    requires
        forall|a: int, b: int|
            0 <= a < pre.sbs().len() && 0 <= b < pre.sbs().len() && a != b
                ==> (#[trigger] pre.sbs()[a]).0 != (#[trigger] pre.sbs()[b]).0,
        0 <= i <= pre.sbs().len(),
        post.sbs().len() == if i == pre.sbs().len() {
            pre.sbs().len() + 1
        } else {
            pre.sbs().len() as nat
        },
        forall|j: int| 0 <= j < post.sbs().len() && j != i
            ==> post.sbs()[j] == pre.sbs()[j],
        post.sbs()[i].0 == key,
        post.sbs()[i].1 == cfg,
        i < pre.sbs().len() ==> pre.sbs()[i].0 == key,
        i == pre.sbs().len() ==> !pre.has_sandbox(key),
    ensures
        forall|a: int, b: int|
            0 <= a < post.sbs().len() && 0 <= b < post.sbs().len() && a != b
                ==> (#[trigger] post.sbs()[a]).0 != (#[trigger] post.sbs()[b]).0,
        post.sandbox_cfg(key) == Some(cfg),
        forall|k: Seq<char>| k != key ==> post.sandbox_cfg(k) == pre.sandbox_cfg(k),
{
    assert forall|a: int, b: int|
        0 <= a < post.sbs().len() && 0 <= b < post.sbs().len() && a != b
            implies (#[trigger] post.sbs()[a]).0 != (#[trigger] post.sbs()[b]).0 by {
        if a != i && b != i {
            assert(post.sbs()[a] == pre.sbs()[a]);
            assert(post.sbs()[b] == pre.sbs()[b]);
        } else if a == i {
            assert(post.sbs()[b] == pre.sbs()[b]);
            if i < pre.sbs().len() {
                assert(pre.sbs()[b].0 != pre.sbs()[i].0);
            } else {
                assert(pre.sbs()[b].0 == key ==> pre.has_sandbox(key));
            }
        } else {
            assert(post.sbs()[a] == pre.sbs()[a]);
            if i < pre.sbs().len() {
                assert(pre.sbs()[a].0 != pre.sbs()[i].0);
            } else {
                assert(pre.sbs()[a].0 == key ==> pre.has_sandbox(key));
            }
        }
    }
    post.lemma_sandbox_cfg_at(i);
    assert forall|k: Seq<char>| k != key
        implies post.sandbox_cfg(k) == pre.sandbox_cfg(k) by {
        if pre.has_sandbox(k) {
            let j = choose|j: int|
                0 <= j < pre.sbs().len() && (#[trigger] pre.sbs()[j]).0 == k;
            pre.lemma_sandbox_cfg_at(j);
            assert(j != i);
            assert(post.sbs()[j] == pre.sbs()[j]);
            post.lemma_sandbox_cfg_at(j);
        } else {
            assert(!post.has_sandbox(k)) by {
                if post.has_sandbox(k) {
                    let j = choose|j: int|
                        0 <= j < post.sbs().len() && (#[trigger] post.sbs()[j]).0 == k;
                    assert(j != i);
                    assert(pre.sbs()[j].0 == k);
                }
            }
        }
    }
}

impl ServerState {
    /// Stops a sandbox: validates the names, requires the namespace to
    /// exist, and releases the portal port unconditionally — also when the
    /// VMM reported failure (`vmm_ok == false`), so that no port ever leaks.
    /// Stopping an already-stopped sandbox succeeds and releases nothing.
    pub fn stop_sandbox(&mut self, namespace: &str, sandbox: &str, vmm_ok: bool) -> (r: Result<
        String,
        ServerError,
    >)
        requires
            old(self).wf(),
        ensures
            final(self).wf(),
            stop_post(*old(self), *final(self), namespace@, sandbox@, vmm_ok, r),
    {
        if let Err(e) = crate::names::validate_sandbox_name(sandbox) {
            return Err(e);
        }
        if let Err(e) = crate::names::validate_namespace(namespace) {
            return Err(e);
        }
        if self.find_namespace(namespace).is_none() {
            return Err(ServerError::NotFound("namespace does not exist".to_owned()));
        }
        let key = make_key(namespace, sandbox);
        self.allocator.release(key.as_str());
        proof {
            assert(self.sbs() =~= old(self).sbs());
            assert(self.nss() =~= old(self).nss());
        }
        if !vmm_ok {
            return Err(ServerError::Backend("the VMM reported a failure on stop".to_owned()));
        }
        let mut msg = "stopped sandbox ".to_owned();
        msg.append(sandbox);
        proof {
            assert(msg@ == "stopped sandbox "@ + sandbox@);
        }
        Ok(msg)
    }
}

/// Stopping twice releases nothing extra and cannot fail: after a completed
/// stop, a second stop succeeds and leaves the whole state exactly as it
/// was.
pub proof fn lemma_stop_twice(
    s0: ServerState,
    s1: ServerState,
    s2: ServerState,
    ns: Seq<char>,
    sb: Seq<char>,
    r1: Result<String, ServerError>,
    r2: Result<String, ServerError>,
)
    requires
        s0.wf(),
        valid_name(ns),
        valid_name(sb),
        s0.has_namespace(ns),
        stop_post(s0, s1, ns, sb, true, r1),
        stop_post(s1, s2, ns, sb, true, r2),
    ensures
        r1 is Ok,
        r2 is Ok,
        s2.allocator == s1.allocator,
        s2.nss() == s1.nss(),
        s2.sbs() == s1.sbs(),
{
    assert(s1.nss() == s0.nss());
    assert(s1.has_namespace(ns));
    assert(!s1.allocator.has_key(portal_key(ns, sb)));
}

/// A completed stop always returns the sandbox's portal port to the free
/// pool, also when the VMM reported failure: afterwards the key holds no
/// assignment, and the port that was assigned is free again.
pub proof fn lemma_stop_releases_port(
    s0: ServerState,
    s1: ServerState,
    ns: Seq<char>,
    sb: Seq<char>,
    vmm_ok: bool,
    r: Result<String, ServerError>,
)
    requires
        s0.wf(),
        valid_name(ns),
        valid_name(sb),
        s0.has_namespace(ns),
        stop_post(s0, s1, ns, sb, vmm_ok, r),
    ensures
        !s1.allocator.has_key(portal_key(ns, sb)),
        s0.allocator.has_key(portal_key(ns, sb))
            ==> s1.allocator.in_free(s0.allocator.key_port(portal_key(ns, sb))->0),
{
}

/// `start; stop; start` ends in the same observable state as a single
/// `start`: the persisted configuration after the third call is exactly what
/// a single start from the first state would persist with the same
/// assigned port — only the port may differ between the two runs — and the
/// sandbox's key holds an assignment either way.
pub proof fn lemma_start_stop_start(
    s0: ServerState,
    s1: ServerState,
    s2: ServerState,
    s3: ServerState,
    ns: Seq<char>,
    sb: Seq<char>,
    req: CfgView,
    plan1: StartPlan,
    plan3: StartPlan,
    r_stop: Result<String, ServerError>,
)
    requires
        s0.wf(),
        valid_name(ns),
        valid_name(sb),
        start_post(s0, s1, ns, sb, req, Ok(plan1)),
        stop_post(s1, s2, ns, sb, true, r_stop),
        start_post(s2, s3, ns, sb, req, Ok(plan3)),
        s1.has_namespace(ns),
    ensures
        s3.sandbox_cfg(portal_key(ns, sb))
            == Some(cfg_after_start(s0.sandbox_cfg(portal_key(ns, sb)), req, plan3.port)),
        s3.allocator.key_port(portal_key(ns, sb)) == Some(plan3.port),
        forall|k: Seq<char>| k != portal_key(ns, sb)
            ==> s3.sandbox_cfg(k) == s0.sandbox_cfg(k),
{
    let key = portal_key(ns, sb);
    let e0 = s0.sandbox_cfg(key);
    assert(s1.sandbox_cfg(key) == Some(cfg_after_start(e0, req, plan1.port)));
    assert(s2.sbs() == s1.sbs());
    assert(s2.sandbox_cfg(key) == s1.sandbox_cfg(key)) by {
        assert(forall|k: Seq<char>| s2.sandbox_cfg(k) == s1.sandbox_cfg(k));
    }
    assert(s3.sandbox_cfg(key)
        == Some(cfg_after_start(Some(cfg_after_start(e0, req, plan1.port)), req, plan3.port)));
    crate::config::lemma_restart_equivalent(e0, req, plan1.port, plan3.port);
    assert forall|k: Seq<char>| k != key
        implies s3.sandbox_cfg(k) == s0.sandbox_cfg(k) by {
        assert(s3.sandbox_cfg(k) == s2.sandbox_cfg(k));
        assert(s2.sandbox_cfg(k) == s1.sandbox_cfg(k));
        assert(s1.sandbox_cfg(k) == s0.sandbox_cfg(k));
    }
}

impl ServerState {
    /// The namespaces a metrics request must query: every namespace for the
    /// wildcard `*`, the named one when it exists — and a not-found error
    /// when it does not. Invalid names are rejected like any other input.
    pub fn metrics_namespaces(&self, namespace: &str, sandbox: &Option<String>) -> (r: Result<
        Vec<String>,
        ServerError,
    >)
        ensures
            match r {
                Ok(nss) => {
                    &&& (sandbox matches Some(s) ==> valid_name(s@))
                    &&& namespace@ == "*"@ ==> crate::config::strs_view(nss@) == self.nss()
                    &&& namespace@ != "*"@ ==> valid_name(namespace@)
                        && self.has_namespace(namespace@)
                        && crate::config::strs_view(nss@) == seq![namespace@]
                },
                Err(e) => {
                    &&& (e is InvalidInput || e is NotFound)
                    &&& e is InvalidInput ==> ((sandbox matches Some(s) && !valid_name(s@))
                        || (namespace@ != "*"@ && !valid_name(namespace@)))
                    &&& e is NotFound ==> namespace@ != "*"@ && valid_name(namespace@)
                        && !self.has_namespace(namespace@)
                },
            },
    {
        match crate::payload::metrics_target(namespace, sandbox) {
            Err(e) => Err(e),
            Ok(crate::payload::MetricsTarget::AllNamespaces) => {
                let mut out: Vec<String> = Vec::new();
                let n = self.namespaces.len();
                let mut i: usize = 0;
                while i < n
                    invariant
                        i <= n,
                        n == self.nss().len(),
                        out@.len() == i,
                        forall|k: int| 0 <= k < i ==> (#[trigger] out@[k])@ == self.nss()[k],
                    decreases n - i,
                {
                    out.push(self.namespaces[i].clone());
                    i = i + 1;
                }
                proof {
                    assert(crate::config::strs_view(out@) =~= self.nss());
                }
                Ok(out)
            }
            Ok(crate::payload::MetricsTarget::OneNamespace) => {
                if self.find_namespace(namespace).is_none() {
                    return Err(ServerError::NotFound(
                        "namespace directory does not exist".to_owned(),
                    ));
                }
                let mut out: Vec<String> = Vec::new();
                out.push(namespace.to_owned());
                proof {
                    assert(crate::config::strs_view(out@) =~= seq![namespace@]);
                }
                Ok(out)
            }
        }
    }
}

/// Polling cadence of the readiness poll, in milliseconds.
pub const POLL_INTERVAL_MS: u64 = 20;

/// Bound on readiness poll attempts.
pub const MAX_POLL_ATTEMPTS: u32 = 2500;

/// What the readiness poll does after one status snapshot.
#[derive(Clone, Copy, PartialEq, Eq, Structural, Debug)]
pub enum PollStep {
    /// The snapshot showed the sandbox running: the start is verified.
    Running,
    /// Not running yet: sleep one interval and poll again.
    Retry,
    /// The attempt bound is exhausted. This is non-fatal: the start still
    /// reports success, with a warning that it could not be verified.
    GaveUp,
}

/// Whether a status snapshot shows the named sandbox running.
pub fn snapshot_running(statuses: &Vec<crate::payload::RawStatus>, name: &str) -> (r: bool)
    ensures
        r == exists|i: int|
            0 <= i < statuses@.len() && (#[trigger] statuses@[i]).name@ == name@
                && statuses@[i].running,
{
    let n = statuses.len();
    let mut j: usize = 0;
    while j < n
        invariant
            j <= n,
            n == statuses@.len(),
            forall|k: int| 0 <= k < j
                ==> !((#[trigger] statuses@[k]).name@ == name@ && statuses@[k].running),
        decreases n - j,
    {
        if crate::strutil::str_eq(statuses[j].name.as_str(), name) && statuses[j].running {
            return true;
        }
        j = j + 1;
    }
    false
}

/// The readiness poll after a start: bounded attempts at a fixed cadence,
/// done as soon as a snapshot shows the sandbox running.
pub struct ReadinessPoll {
    attempts: u32,
}

impl ReadinessPoll {
    /// Number of snapshots taken so far.
    pub closed spec fn spec_attempts(self) -> u32 {
        self.attempts
    }

    /// A fresh poll with no attempts made.
    pub fn new() -> (r: ReadinessPoll)
        ensures
            r.spec_attempts() == 0,
    {
        ReadinessPoll { attempts: 0 }
    }

    /// Records one status snapshot: a running sandbox ends the poll;
    /// otherwise it retries until the bound is exhausted, then gives up
    /// (non-fatally).
    pub fn observe(&mut self, running: bool) -> (r: PollStep)
        requires
            old(self).spec_attempts() < MAX_POLL_ATTEMPTS,
        ensures
            final(self).spec_attempts() == old(self).spec_attempts() + 1,
            running ==> r == PollStep::Running,
            !running && old(self).spec_attempts() + 1 < MAX_POLL_ATTEMPTS
                ==> r == PollStep::Retry,
            !running && old(self).spec_attempts() + 1 == MAX_POLL_ATTEMPTS
                ==> r == PollStep::GaveUp,
    {
        self.attempts = self.attempts + 1;
        if running {
            PollStep::Running
        } else if self.attempts < MAX_POLL_ATTEMPTS {
            PollStep::Retry
        } else {
            PollStep::GaveUp
        }
    }
}

} // verus!
