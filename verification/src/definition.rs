//! The stack definition: a named collection of service definitions, the
//! dependency graph they induce, and the deployment order computed from
//! it.  Any structural change recomputes and re-validates the order; an
//! invalid graph rejects the whole mutation, so the definition never
//! carries a stale or cyclic order.

use vstd::prelude::*;
use vstd::string::StringExecFns;
use crate::error::StackError;
use crate::kv::StrMap;
use crate::kv::kv_first_index;
use crate::kv::kv_get;
use crate::kv::kv_insert;
use crate::kv::lemma_kv_first_index;
use crate::kv::lemma_kv_first_index_is;
use crate::service::Service;
use crate::service::ServiceView;
use crate::strutil::str_eq;

verus! {

/// How replicas are replaced when a service is re-deployed.
#[derive(Debug, Clone, Copy, PartialEq, Eq, Structural)]
pub enum ScaleStrategy {
    RollingUpdate,
    Recreate,
}

/// The desired replica count of one service, and how to reach it.
#[derive(Debug, Clone, Copy, PartialEq, Eq, Structural)]
pub struct ScalePolicy {
    pub replicas: u32,
    pub strategy: ScaleStrategy,
}

impl DeepView for ScalePolicy {
    type V = ScalePolicy;

    open spec fn deep_view(&self) -> ScalePolicy {
        *self
    }
}

/// An insertion-ordered map from service names to scale policies.
#[derive(Debug)]
pub struct PolicyMap {
    entries: Vec<(String, ScalePolicy)>,
}

impl View for PolicyMap {
    type V = Seq<(Seq<char>, ScalePolicy)>;

    closed spec fn view(&self) -> Seq<(Seq<char>, ScalePolicy)> {
        self.entries.deep_view()
    }
}

impl PolicyMap {
    /// An empty map.
    pub fn new() -> (m: PolicyMap)
        ensures
            m@ =~= Seq::<(Seq<char>, ScalePolicy)>::empty(),
    {
        PolicyMap { entries: Vec::new() }
    }

    /// The index of the first entry whose key is `k`, if any.
    fn find_index(&self, k: &str) -> (r: Option<usize>)
        ensures
            match r {
                Some(i) => kv_first_index(self@, k@) == i as int,
                None => kv_first_index(self@, k@) == -1,
            },
    {
        let mut i: usize = 0;
        let n = self.entries.len();
        while i < n
            invariant
                n == self.entries.len(),
                self@ == self.entries.deep_view(),
                self@.len() == n,
                forall|j: int|
                    0 <= j < n ==> #[trigger] self@[j] == ((self.entries[j].0)@, self.entries[j].1),
                0 <= i <= n,
                forall|j: int| 0 <= j < i ==> self@[j].0 != k@,
            decreases n - i,
        {
            if str_eq(self.entries[i].0.as_str(), k) {
                proof {
                    lemma_kv_first_index_is(self@, k@, i as int);
                }
                return Some(i);
            }
            i = i + 1;
        }
        proof {
            lemma_kv_first_index(self@, k@);
            if kv_first_index(self@, k@) != -1 {
                assert(self@[kv_first_index(self@, k@)].0 == k@);
            }
        }
        None
    }

    /// Binds `key` to `policy`; a key already present keeps its position.
    pub fn insert(&mut self, key: String, policy: ScalePolicy)
        ensures
            final(self)@ == kv_insert(old(self)@, (key@, policy)),
            kv_get(final(self)@, key@) == Some(policy),
    {
        let ghost m0 = self@;
        let idx = self.find_index(key.as_str());
        match idx {
            Some(i) => {
                proof {
                    lemma_kv_first_index(m0, key@);
                }
                self.entries[i] = (key, policy);
                proof {
                    assert(self@ =~= m0.update(
                        i as int,
                        ((self.entries[i as int].0)@, self.entries[i as int].1),
                    ));
                    crate::kv::lemma_kv_first_index_update(
                        m0,
                        (self.entries[i as int].0)@,
                        i as int,
                        self@[i as int],
                    );
                }
            },
            None => {
                self.entries.push((key, policy));
                proof {
                    let n = m0.len() as int;
                    assert(self@ =~= m0.push(((self.entries[n].0)@, self.entries[n].1)));
                    crate::kv::lemma_kv_first_index_push(m0, (self.entries[n].0)@, self@[n]);
                }
            },
        }
    }

    /// The policy bound to `k`, if any.
    pub fn get(&self, k: &str) -> (r: Option<&ScalePolicy>)
        ensures
            match r {
                Some(p) => kv_get(self@, k@) == Some(*p),
                None => kv_get(self@, k@) is None,
            },
    {
        match self.find_index(k) {
            Some(i) => {
                proof {
                    lemma_kv_first_index(self@, k@);
                    assert(self@[i as int] == ((self.entries[i as int].0)@, self.entries[
                        i as int].1));
                }
                Some(&self.entries[i].1)
            },
            None => None,
        }
    }

    /// Copies the map.
    pub fn duplicate(&self) -> (m: PolicyMap)
        ensures
            m@ == self@,
    {
        let mut entries: Vec<(String, ScalePolicy)> = Vec::new();
        let mut i: usize = 0;
        while i < self.entries.len()
            invariant
                0 <= i <= self.entries.len(),
                entries.deep_view() =~= self.entries.deep_view().take(i as int),
            decreases self.entries.len() - i,
        {
            let ghost pre = entries;
            let item = (self.entries[i].0.clone(), self.entries[i].1);
            let ghost gx = item;
            entries.push(item);
            proof {
                crate::strutil::lemma_push_deep_view(pre, entries, gx);
                assert(self.entries.deep_view().take(i + 1) =~= self.entries.deep_view().take(
                    i as int,
                ).push(self.entries.deep_view()[i as int]));
            }
            i = i + 1;
        }
        proof {
            assert(self.entries.deep_view().take(self.entries.len() as int) =~= self@);
        }
        PolicyMap { entries }
    }
}

/// The mathematical value of the runtime configuration.
pub ghost struct RuntimeConfigView {
    pub deployment_order: Seq<Seq<char>>,
    pub health_check_timeout: u64,
    pub scale_policies: Seq<(Seq<char>, ScalePolicy)>,
    pub network_mappings: Seq<(Seq<char>, Seq<char>)>,
    pub volume_mappings: Seq<(Seq<char>, Seq<char>)>,
}

/// Derived configuration carried beside the service definitions: the
/// deployment order, scale policies and name mappings.
#[derive(Debug)]
pub struct RuntimeConfig {
    pub deployment_order: Vec<String>,
    pub health_check_timeout: u64,
    pub scale_policies: PolicyMap,
    pub network_mappings: StrMap,
    pub volume_mappings: StrMap,
}

impl View for RuntimeConfig {
    type V = RuntimeConfigView;

    open spec fn view(&self) -> RuntimeConfigView {
        RuntimeConfigView {
            deployment_order: self.deployment_order.deep_view(),
            health_check_timeout: self.health_check_timeout,
            scale_policies: self.scale_policies@,
            network_mappings: self.network_mappings@,
            volume_mappings: self.volume_mappings@,
        }
    }
}

/// A fresh runtime configuration: no order, no policies, no mappings,
/// and a thirty-second health check timeout.
pub open spec fn spec_runtime_config_new() -> RuntimeConfigView {
    RuntimeConfigView {
        deployment_order: Seq::empty(),
        health_check_timeout: 30,
        scale_policies: Seq::empty(),
        network_mappings: Seq::empty(),
        volume_mappings: Seq::empty(),
    }
}

impl Default for RuntimeConfig {
    /// The fresh configuration.
    fn default() -> (r: RuntimeConfig)
        ensures
            r@ == spec_runtime_config_new(),
    {
        let r = RuntimeConfig {
            deployment_order: Vec::new(),
            health_check_timeout: 30,
            scale_policies: PolicyMap::new(),
            network_mappings: StrMap::new(),
            volume_mappings: StrMap::new(),
        };
        proof {
            assert(r@.deployment_order =~= Seq::<Seq<char>>::empty());
        }
        r
    }
}

/// Whether some defined service carries the name `n`.
pub open spec fn names_contain(ss: Seq<ServiceView>, n: Seq<char>) -> bool {
    exists|k: int| 0 <= k < ss.len() && ss[k].name == n
}

/// Whether no two services share a name.
pub open spec fn unique_names(ss: Seq<ServiceView>) -> bool {
    forall|i: int, j: int| 0 <= i < j < ss.len() ==> ss[i].name != ss[j].name
}

/// Whether every declared dependency names a defined service.
pub open spec fn deps_ok(ss: Seq<ServiceView>) -> bool {
    forall|i: int, j: int|
        0 <= i < ss.len() && 0 <= j < ss[i].depends_on.len() ==> names_contain(
            ss,
            ss[i].depends_on[j],
        )
}

/// Whether every dependency of `s` is already placed.
pub open spec fn ready(s: ServiceView, placed: Seq<Seq<char>>) -> bool {
    forall|j: int| 0 <= j < s.depends_on.len() ==> placed.contains(s.depends_on[j])
}

/// The least index at or after `i` of a service that is not placed yet
/// and whose dependencies are all placed, if any.
pub open spec fn first_ready_from(ss: Seq<ServiceView>, placed: Seq<Seq<char>>, i: int) -> Option<
    int,
>
    decreases ss.len() - i,
{
    if i < 0 || i >= ss.len() {
        None
    } else if !placed.contains(ss[i].name) && ready(ss[i], placed) {
        Some(i)
    } else {
        first_ready_from(ss, placed, i + 1)
    }
}

/// Extends `placed` by up to `k` rounds, each appending the first ready
/// unplaced service, stopping early when none is ready.
pub open spec fn topo_rounds(ss: Seq<ServiceView>, placed: Seq<Seq<char>>, k: nat) -> Seq<
    Seq<char>,
>
    decreases k,
{
    if k == 0 {
        placed
    } else {
        match first_ready_from(ss, placed, 0) {
            Some(i) => topo_rounds(ss, placed.push(ss[i].name), (k - 1) as nat),
            None => placed,
        }
    }
}

/// The deployment order of the services: the sequence the round-based
/// construction yields, when it places every service; nothing when it
/// stalls, which happens exactly when no valid order exists.
pub open spec fn spec_deployment_order(ss: Seq<ServiceView>) -> Option<Seq<Seq<char>>> {
    let r = topo_rounds(ss, Seq::empty(), ss.len());
    if r.len() == ss.len() {
        Some(r)
    } else {
        None
    }
}

/// Whether some service's name equals `name`.
pub fn contains_service_named(services: &Vec<Service>, name: &str) -> (b: bool)
    ensures
        b == names_contain(services.deep_view(), name@),
{
    let ghost ss = services.deep_view();
    let mut k: usize = 0;
    while k < services.len()
        invariant
            ss == services.deep_view(),
            ss.len() == services.len(),
            forall|j: int| 0 <= j < services.len() ==> #[trigger] ss[j] == services[j]@,
            0 <= k <= services.len(),
            forall|j: int| 0 <= j < k ==> ss[j].name != name@,
        decreases services.len() - k,
    {
        if str_eq(services[k].name.as_str(), name) {
            proof {
                assert(ss[k as int].name == name@);
            }
            return true;
        }
        k = k + 1;
    }
    false
}

/// Whether `v` holds a string equal to `s`.
pub fn vec_contains_str(v: &Vec<String>, s: &str) -> (b: bool)
    ensures
        b == v.deep_view().contains(s@),
{
    let ghost dv = v.deep_view();
    let mut k: usize = 0;
    while k < v.len()
        invariant
            dv == v.deep_view(),
            dv.len() == v.len(),
            forall|j: int| 0 <= j < v.len() ==> #[trigger] dv[j] == v[j]@,
            0 <= k <= v.len(),
            forall|j: int| 0 <= j < k ==> dv[j] != s@,
        decreases v.len() - k,
    {
        if str_eq(v[k].as_str(), s) {
            proof {
                assert(dv[k as int] == s@);
            }
            return true;
        }
        k = k + 1;
    }
    false
}

/// Whether every dependency of `svc` occurs in `placed`.
fn all_deps_placed(svc: &Service, placed: &Vec<String>) -> (b: bool)
    ensures
        b == ready(svc@, placed.deep_view()),
{
    let ghost deps = svc@.depends_on;
    let mut j: usize = 0;
    while j < svc.depends_on.len()
        invariant
            deps == svc@.depends_on,
            deps.len() == svc.depends_on.len(),
            forall|i: int|
                0 <= i < svc.depends_on.len() ==> #[trigger] deps[i] == svc.depends_on[i]@,
            0 <= j <= svc.depends_on.len(),
            forall|i: int| 0 <= i < j ==> placed.deep_view().contains(deps[i]),
        decreases svc.depends_on.len() - j,
    {
        if !vec_contains_str(placed, svc.depends_on[j].as_str()) {
            proof {
                assert(!placed.deep_view().contains(deps[j as int]));
            }
            return false;
        }
        j = j + 1;
    }
    true
}

/// The first service that is not placed yet and whose dependencies are
/// all placed, if any.
fn find_first_ready(services: &Vec<Service>, placed: &Vec<String>) -> (r: Option<usize>)
    ensures
        match r {
            Some(i) => i < services.len() && first_ready_from(
                services.deep_view(),
                placed.deep_view(),
                0,
            ) == Some(i as int),
            None => first_ready_from(services.deep_view(), placed.deep_view(), 0) is None,
        },
{
    let ghost ss = services.deep_view();
    let ghost pl = placed.deep_view();
    let mut i: usize = 0;
    while i < services.len()
        invariant
            ss == services.deep_view(),
            pl == placed.deep_view(),
            ss.len() == services.len(),
            forall|j: int| 0 <= j < services.len() ==> #[trigger] ss[j] == services[j]@,
            0 <= i <= services.len(),
            first_ready_from(ss, pl, 0) == first_ready_from(ss, pl, i as int),
        decreases services.len() - i,
    {
        if !vec_contains_str(placed, services[i].name.as_str()) && all_deps_placed(
            &services[i],
            placed,
        ) {
            return Some(i);
        }
        i = i + 1;
    }
    None
}

/// The names of the services, in definition order.
pub open spec fn svc_names(ss: Seq<ServiceView>) -> Seq<Seq<char>> {
    Seq::new(ss.len(), |i: int| ss[i].name)
}

/// The index of the first service named `n`, or -1.
pub open spec fn svc_index(ss: Seq<ServiceView>, n: Seq<char>) -> int
    decreases ss.len(),
{
    if ss.len() == 0 {
        -1
    } else if ss[0].name == n {
        0
    } else {
        let r = svc_index(ss.drop_first(), n);
        if r == -1 {
            -1
        } else {
            r + 1
        }
    }
}

/// `svc_index` finds the least matching index, and -1 exactly when no
/// service matches.
pub proof fn lemma_svc_index(ss: Seq<ServiceView>, n: Seq<char>)
    ensures
        svc_index(ss, n) == -1 ==> forall|i: int| 0 <= i < ss.len() ==> ss[i].name != n,
        svc_index(ss, n) != -1 ==> {
            let idx = svc_index(ss, n);
            &&& 0 <= idx < ss.len()
            &&& ss[idx].name == n
            &&& forall|j: int| 0 <= j < idx ==> ss[j].name != n
        },
    decreases ss.len(),
{
    if ss.len() > 0 && ss[0].name != n {
        lemma_svc_index(ss.drop_first(), n);
        assert forall|i: int| 1 <= i < ss.len() implies ss.drop_first()[i - 1] == ss[i] by {}
    }
}

/// An index that matches, below which nothing matches, is the first index.
pub proof fn lemma_svc_index_is(ss: Seq<ServiceView>, n: Seq<char>, i: int)
    requires
        0 <= i < ss.len(),
        ss[i].name == n,
        forall|j: int| 0 <= j < i ==> ss[j].name != n,
    ensures
        svc_index(ss, n) == i,
{
    lemma_svc_index(ss, n);
}

/// The services after adding or updating a definition, keyed by its name.
pub open spec fn svc_upsert(ss: Seq<ServiceView>, sv: ServiceView) -> Seq<ServiceView> {
    let i = svc_index(ss, sv.name);
    if i == -1 {
        ss.push(sv)
    } else {
        ss.update(i, sv)
    }
}

/// Whether `(service, dependency)` is the first dependency, in scan
/// order, that names no defined service.
pub open spec fn spec_first_missing_dep(
    ss: Seq<ServiceView>,
    service: Seq<char>,
    dependency: Seq<char>,
) -> bool {
    exists|i: int, j: int|
        {
            &&& 0 <= i < ss.len()
            &&& 0 <= j < ss[i].depends_on.len()
            &&& !names_contain(ss, ss[i].depends_on[j])
            &&& service == ss[i].name
            &&& dependency == ss[i].depends_on[j]
            &&& forall|i2: int, j2: int|
                0 <= i2 < ss.len() && 0 <= j2 < ss[i2].depends_on.len() && (i2 < i || (i2 == i && j2
                    < j)) ==> names_contain(ss, ss[i2].depends_on[j2])
        }
}

/// What a failed order computation reports about `ss`: either the first
/// missing dependency, or that the dependencies are all defined and no
/// deployment order exists.
pub open spec fn spec_order_failure(ss: Seq<ServiceView>, e: StackError) -> bool {
    match e {
        StackError::MissingDependency { service, dependency } => !deps_ok(ss)
            && spec_first_missing_dep(ss, service@, dependency@),
        StackError::CircularDependency => deps_ok(ss) && spec_deployment_order(ss) is None,
        _ => false,
    }
}

/// Computes the deployment order of `services`: a sequence holding each
/// service once, dependencies always before their dependents, built by
/// repeatedly taking the first defined service that has become ready.
/// Fails with a configuration error naming the first dependency that no
/// defined service carries, or reporting a dependency cycle.
pub fn compute_order(services: &Vec<Service>) -> (r: Result<Vec<String>, StackError>)
    ensures
        match r {
            Ok(o) => deps_ok(services.deep_view()) && spec_deployment_order(services.deep_view())
                == Some(o.deep_view()),
            Err(e) => spec_order_failure(services.deep_view(), e),
        },
        r is Ok <==> deps_ok(services.deep_view()) && spec_deployment_order(services.deep_view())
            is Some,
{
    let ghost ss = services.deep_view();
    let n = services.len();
    // Validate that every dependency names a defined service.
    let mut i: usize = 0;
    while i < n
        invariant
            ss == services.deep_view(),
            n == services.len(),
            ss.len() == n,
            forall|j: int| 0 <= j < n ==> #[trigger] ss[j] == services[j]@,
            0 <= i <= n,
            forall|i2: int, j2: int|
                0 <= i2 < i && 0 <= j2 < ss[i2].depends_on.len() ==> names_contain(
                    ss,
                    ss[i2].depends_on[j2],
                ),
        decreases n - i,
    {
        let deps_len = services[i].depends_on.len();
        let mut j: usize = 0;
        while j < deps_len
            invariant
                ss == services.deep_view(),
                n == services.len(),
                ss.len() == n,
                forall|j2: int| 0 <= j2 < n ==> #[trigger] ss[j2] == services[j2]@,
                0 <= i < n,
                deps_len == services[i as int].depends_on.len(),
                ss[i as int].depends_on.len() == deps_len,
                forall|j2: int|
                    0 <= j2 < deps_len ==> #[trigger] ss[i as int].depends_on[j2] == services[
                        i as int].depends_on[j2]@,
                forall|i2: int, j2: int|
                    0 <= i2 < i && 0 <= j2 < ss[i2].depends_on.len() ==> names_contain(
                        ss,
                        ss[i2].depends_on[j2],
                    ),
                0 <= j <= deps_len,
                forall|j2: int| 0 <= j2 < j ==> names_contain(ss, ss[i as int].depends_on[j2]),
            decreases deps_len - j,
        {
            if !contains_service_named(services, services[i].depends_on[j].as_str()) {
                let service = services[i].name.clone();
                let dependency = services[i].depends_on[j].clone();
                proof {
                    let gi = i as int;
                    let gj = j as int;
                    assert(!names_contain(ss, ss[gi].depends_on[gj]));
                    assert(forall|i2: int, j2: int|
                        0 <= i2 < ss.len() && 0 <= j2 < ss[i2].depends_on.len() && (i2 < gi || (i2
                            == gi && j2 < gj)) ==> names_contain(ss, ss[i2].depends_on[j2]));
                    assert(spec_first_missing_dep(ss, ss[gi].name, ss[gi].depends_on[gj]));
                }
                return Err(StackError::MissingDependency { service, dependency });
            }
            j = j + 1;
        }
        i = i + 1;
    }
    // Place services one round at a time.
    let mut order: Vec<String> = Vec::new();
    proof {
        assert(order.deep_view() =~= Seq::<Seq<char>>::empty());
    }
    let mut round: usize = 0;
    while round < n
        invariant
            ss == services.deep_view(),
            n == services.len(),
            ss.len() == n,
            forall|j: int| 0 <= j < n ==> #[trigger] ss[j] == services[j]@,
            deps_ok(ss),
            0 <= round <= n,
            order.deep_view().len() == round,
            order.len() == round,
            topo_rounds(ss, Seq::empty(), n as nat) == topo_rounds(
                ss,
                order.deep_view(),
                (n - round) as nat,
            ),
        decreases n - round,
    {
        match find_first_ready(services, &order) {
            None => {
                proof {
                    let odv = order.deep_view();
                    assert(topo_rounds(ss, odv, (n - round) as nat) == odv);
                    assert(topo_rounds(ss, Seq::empty(), n as nat).len() == round);
                }
                return Err(StackError::CircularDependency);
            },
            Some(idx) => {
                let ghost pre = order;
                let ghost k = (n - round) as nat;
                let item = services[idx].name.clone();
                let ghost gx = item;
                order.push(item);
                proof {
                    crate::strutil::lemma_push_deep_view(pre, order, gx);
                    assert(gx@ == ss[idx as int].name);
                    assert(order.deep_view() =~= pre.deep_view().push(ss[idx as int].name));
                    assert(topo_rounds(ss, pre.deep_view(), k) == topo_rounds(
                        ss,
                        pre.deep_view().push(ss[idx as int].name),
                        (k - 1) as nat,
                    ));
                }
                round = round + 1;
            },
        }
    }
    proof {
        assert(topo_rounds(ss, order.deep_view(), 0) == order.deep_view());
        assert(spec_deployment_order(ss) == Some(order.deep_view()));
    }
    Ok(order)
}

/// Whether every dependency of the service named `o[k]` stands in `o`
/// before position `k`.
pub open spec fn deps_before(ss: Seq<ServiceView>, o: Seq<Seq<char>>, k: int) -> bool {
    forall|i: int, j: int|
        #![trigger ss[i].depends_on[j]]
        0 <= i < ss.len() && ss[i].name == o[k] && 0 <= j < ss[i].depends_on.len() ==> o.take(
            k,
        ).contains(ss[i].depends_on[j])
}

/// Whether every dependency of every service whose name stands in `o`
/// stands in `o` earlier than that name.
pub open spec fn placed_edges_ok(ss: Seq<ServiceView>, o: Seq<Seq<char>>) -> bool {
    forall|k: int| 0 <= k < o.len() ==> #[trigger] deps_before(ss, o, k)
}

/// Whether `o` is a duplicate-free sequence of defined service names in
/// which every dependency comes before its dependent.
pub open spec fn partial_topo(ss: Seq<ServiceView>, o: Seq<Seq<char>>) -> bool {
    &&& o.no_duplicates()
    &&& forall|k: int| 0 <= k < o.len() ==> names_contain(ss, #[trigger] o[k])
    &&& placed_edges_ok(ss, o)
}

/// Whether `o` is a valid deployment order for `ss`: each defined
/// service's name exactly once, and for every dependency edge, the
/// dependency before the dependent.
pub open spec fn is_topo_order(ss: Seq<ServiceView>, o: Seq<Seq<char>>) -> bool {
    &&& o.len() == ss.len()
    &&& partial_topo(ss, o)
    &&& forall|i: int| 0 <= i < ss.len() ==> o.contains(#[trigger] ss[i].name)
}

/// `first_ready_from` finds an unplaced ready service, skipping only
/// services that are placed or not ready; and finds none exactly when
/// every service at or after `i` is placed or not ready.
proof fn lemma_first_ready_characterization(ss: Seq<ServiceView>, placed: Seq<Seq<char>>, i: int)
    requires
        0 <= i <= ss.len(),
    ensures
        match first_ready_from(ss, placed, i) {
            Some(r) => {
                &&& i <= r < ss.len()
                &&& !placed.contains(ss[r].name)
                &&& ready(ss[r], placed)
                &&& forall|t: int|
                    i <= t < r ==> placed.contains(#[trigger] ss[t].name) || !ready(ss[t], placed)
            },
            None => forall|t: int|
                i <= t < ss.len() ==> placed.contains(#[trigger] ss[t].name) || !ready(
                    ss[t],
                    placed,
                ),
        },
    decreases ss.len() - i,
{
    if i < ss.len() {
        if !(!placed.contains(ss[i].name) && ready(ss[i], placed)) {
            lemma_first_ready_characterization(ss, placed, i + 1);
        }
    }
}

/// Appending the name of a defined service that is not placed yet
/// keeps the placement duplicate-free and made of defined names.
proof fn lemma_place_name(ss: Seq<ServiceView>, placed: Seq<Seq<char>>, idx: int)
    requires
        placed.no_duplicates(),
        forall|t: int| 0 <= t < placed.len() ==> names_contain(ss, #[trigger] placed[t]),
        0 <= idx < ss.len(),
        !placed.contains(ss[idx].name),
    ensures
        placed.push(ss[idx].name).no_duplicates(),
        forall|t: int|
            0 <= t < placed.push(ss[idx].name).len() ==> names_contain(
                ss,
                #[trigger] placed.push(ss[idx].name)[t],
            ),
{
    let o2 = placed.push(ss[idx].name);
    assert forall|a: int, b: int|
        0 <= a < o2.len() && 0 <= b < o2.len() && a != b implies o2[a] != o2[b] by {
        if a < placed.len() && b < placed.len() {
            assert(o2[a] == placed[a] && o2[b] == placed[b]);
        } else if b == placed.len() {
            assert(o2[b] == ss[idx].name && o2[a] == placed[a]);
            if placed[a] == ss[idx].name {
                assert(placed.contains(ss[idx].name));
            }
        } else {
            assert(o2[a] == ss[idx].name && o2[b] == placed[b]);
            if placed[b] == ss[idx].name {
                assert(placed.contains(ss[idx].name));
            }
        }
    }
    assert forall|t: int| 0 <= t < o2.len() implies names_contain(ss, #[trigger] o2[t]) by {
        if t < placed.len() {
            assert(o2[t] == placed[t]);
        } else {
            assert(o2[t] == ss[idx].name);
        }
    }
}

/// Appending a ready, unplaced service keeps a placement well-formed.
proof fn lemma_push_partial_topo(ss: Seq<ServiceView>, placed: Seq<Seq<char>>, idx: int)
    requires
        unique_names(ss),
        partial_topo(ss, placed),
        0 <= idx < ss.len(),
        !placed.contains(ss[idx].name),
        ready(ss[idx], placed),
    ensures
        partial_topo(ss, placed.push(ss[idx].name)),
{
    let o2 = placed.push(ss[idx].name);
    lemma_place_name(ss, placed, idx);
    assert forall|k: int| 0 <= k < o2.len() implies #[trigger] deps_before(ss, o2, k) by {
        if k < placed.len() {
            assert(o2[k] == placed[k]);
            assert(deps_before(ss, placed, k));
            assert(o2.take(k) =~= placed.take(k));
            assert forall|i: int, j: int|
                #![trigger ss[i].depends_on[j]]
                0 <= i < ss.len() && ss[i].name == o2[k] && 0 <= j
                    < ss[i].depends_on.len() implies o2.take(k).contains(
                ss[i].depends_on[j],
            ) by {
                assert(placed.take(k).contains(ss[i].depends_on[j]));
            }
        } else {
            assert(o2[k] == ss[idx].name);
            assert(o2.take(k) =~= placed);
            assert forall|i: int, j: int|
                #![trigger ss[i].depends_on[j]]
                0 <= i < ss.len() && ss[i].name == o2[k] && 0 <= j
                    < ss[i].depends_on.len() implies o2.take(k).contains(
                ss[i].depends_on[j],
            ) by {
                if i != idx {
                    assert(ss[i].name == ss[idx].name);
                    assert(false);
                }
                assert(placed.contains(ss[i].depends_on[j]));
            }
        }
    }
}

/// Every round of the order construction keeps the placement
/// well-formed.
proof fn lemma_rounds_preserve(ss: Seq<ServiceView>, placed: Seq<Seq<char>>, k: nat)
    requires
        unique_names(ss),
        partial_topo(ss, placed),
    ensures
        partial_topo(ss, topo_rounds(ss, placed, k)),
    decreases k,
{
    if k > 0 {
        lemma_first_ready_characterization(ss, placed, 0);
        match first_ready_from(ss, placed, 0) {
            Some(i) => {
                lemma_push_partial_topo(ss, placed, i);
                lemma_rounds_preserve(ss, placed.push(ss[i].name), (k - 1) as nat);
            },
            None => {},
        }
    }
}

/// When the order computation succeeds on services with distinct names,
/// what it returns is a valid deployment order: every defined service
/// exactly once, and every dependency placed before each service that
/// depends on it.  Teardown walks this order in reverse, so there every
/// dependent comes before its dependencies.
pub proof fn lemma_deployment_order_topological(ss: Seq<ServiceView>)
    requires
        unique_names(ss),
        spec_deployment_order(ss) is Some,
    ensures
        is_topo_order(ss, spec_deployment_order(ss)->0),
{
    broadcast use vstd::seq_lib::seq_to_set_is_finite;
    broadcast use vstd::set::group_set_axioms;

    let o = topo_rounds(ss, Seq::empty(), ss.len());
    assert(partial_topo(ss, Seq::<Seq<char>>::empty()));
    lemma_rounds_preserve(ss, Seq::empty(), ss.len());
    let names = svc_names(ss);
    assert(o.to_set().subset_of(names.to_set())) by {
        assert forall|x: Seq<char>| o.to_set().contains(x) implies names.to_set().contains(x) by {
            assert(o.contains(x));
            let k = choose|k: int| 0 <= k < o.len() && o[k] == x;
            assert(names_contain(ss, o[k]));
            let i = choose|i: int| 0 <= i < ss.len() && ss[i].name == x;
            assert(names[i] == x);
            assert(names.contains(x));
        }
    }
    o.unique_seq_to_set();
    names.lemma_cardinality_of_set();
    vstd::set_lib::lemma_len_subset(o.to_set(), names.to_set());
    vstd::set_lib::lemma_subset_equality(o.to_set(), names.to_set());
    assert forall|i: int| 0 <= i < ss.len() implies o.contains(#[trigger] ss[i].name) by {
        assert(names[i] == ss[i].name);
        assert(names.contains(ss[i].name));
        assert(names.to_set().contains(ss[i].name));
        assert(o.to_set().contains(ss[i].name));
    }
}

/// The least index of an element of `o` that `placed` does not hold.
proof fn first_index_not_placed(o: Seq<Seq<char>>, placed: Seq<Seq<char>>, i: int) -> (k: int)
    requires
        0 <= i < o.len(),
        forall|j: int| 0 <= j < i ==> placed.contains(#[trigger] o[j]),
        exists|j: int| i <= j < o.len() && !placed.contains(#[trigger] o[j]),
    ensures
        0 <= k < o.len(),
        !placed.contains(o[k]),
        forall|j: int| 0 <= j < k ==> placed.contains(#[trigger] o[j]),
    decreases o.len() - i,
{
    if !placed.contains(o[i]) {
        i
    } else {
        first_index_not_placed(o, placed, i + 1)
    }
}

/// While a valid deployment order exists, the round-based construction
/// never stalls: with enough rounds it places every service.
proof fn lemma_no_stall(ss: Seq<ServiceView>, placed: Seq<Seq<char>>, o: Seq<Seq<char>>, k: nat)
    requires
        unique_names(ss),
        is_topo_order(ss, o),
        placed.no_duplicates(),
        forall|t: int| 0 <= t < placed.len() ==> names_contain(ss, #[trigger] placed[t]),
        k + placed.len() >= ss.len(),
        placed.len() <= ss.len(),
    ensures
        topo_rounds(ss, placed, k).len() == ss.len(),
    decreases k,
{
    broadcast use vstd::seq_lib::seq_to_set_is_finite;
    broadcast use vstd::set::group_set_axioms;

    if placed.len() == ss.len() {
        assert(topo_rounds(ss, placed, k).len() >= placed.len()) by {
            lemma_rounds_grow(ss, placed, k);
        }
        assert(topo_rounds(ss, placed, k).len() <= ss.len()) by {
            lemma_rounds_capped(ss, placed, k);
        }
    } else {
        // Some name of `o` is missing from `placed`.
        assert(exists|j: int| 0 <= j < o.len() && !placed.contains(#[trigger] o[j])) by {
            if forall|j: int| 0 <= j < o.len() ==> placed.contains(#[trigger] o[j]) {
                assert(o.to_set().subset_of(placed.to_set())) by {
                    assert forall|x: Seq<char>| o.to_set().contains(x) implies placed.to_set()
                        .contains(x) by {
                        let j = choose|j: int| 0 <= j < o.len() && o[j] == x;
                        assert(placed.contains(o[j]));
                    }
                }
                o.unique_seq_to_set();
                placed.lemma_cardinality_of_set();
                vstd::set_lib::lemma_len_subset(o.to_set(), placed.to_set());
                assert(false);
            }
        }
        let k0 = first_index_not_placed(o, placed, 0);
        // The service bearing that name is unplaced and ready.
        assert(names_contain(ss, o[k0])) by {
            assert(partial_topo(ss, o));
        }
        let i = choose|i: int| 0 <= i < ss.len() && ss[i].name == o[k0];
        assert(ready(ss[i], placed)) by {
            assert(deps_before(ss, o, k0));
            assert forall|j: int| 0 <= j < ss[i].depends_on.len() implies placed.contains(
                #[trigger] ss[i].depends_on[j],
            ) by {
                assert(o[k0] == ss[i].name);
                assert(o.take(k0).contains(ss[i].depends_on[j]));
                let k2 = choose|k2: int|
                    0 <= k2 < o.take(k0).len() && o.take(k0)[k2] == ss[i].depends_on[j];
                assert(o[k2] == ss[i].depends_on[j]);
                assert(placed.contains(o[k2]));
            }
        }
        lemma_first_ready_characterization(ss, placed, 0);
        match first_ready_from(ss, placed, 0) {
            None => {
                assert(placed.contains(ss[i].name) || !ready(ss[i], placed));
                assert(false);
            },
            Some(r) => {
                let placed2 = placed.push(ss[r].name);
                lemma_place_name(ss, placed, r);
                lemma_no_stall(ss, placed2, o, (k - 1) as nat);
            },
        }
    }
}

/// Rounds never shrink the placement.
proof fn lemma_rounds_grow(ss: Seq<ServiceView>, placed: Seq<Seq<char>>, k: nat)
    ensures
        topo_rounds(ss, placed, k).len() >= placed.len(),
    decreases k,
{
    if k > 0 {
        match first_ready_from(ss, placed, 0) {
            Some(i) => {
                lemma_rounds_grow(ss, placed.push(ss[i].name), (k - 1) as nat);
            },
            None => {},
        }
    }
}

/// Rounds place only unplaced services, so a duplicate-free placement
/// of defined names never grows past the number of services.
proof fn lemma_rounds_capped(ss: Seq<ServiceView>, placed: Seq<Seq<char>>, k: nat)
    requires
        unique_names(ss),
        placed.no_duplicates(),
        forall|t: int| 0 <= t < placed.len() ==> names_contain(ss, #[trigger] placed[t]),
        placed.len() <= ss.len(),
    ensures
        topo_rounds(ss, placed, k).len() <= ss.len(),
    decreases k,
{
    broadcast use vstd::seq_lib::seq_to_set_is_finite;
    broadcast use vstd::set::group_set_axioms;

    if k > 0 {
        lemma_first_ready_characterization(ss, placed, 0);
        match first_ready_from(ss, placed, 0) {
            Some(i) => {
                let placed2 = placed.push(ss[i].name);
                lemma_place_name(ss, placed, i);
                assert(placed2.len() <= ss.len()) by {
                    let names = svc_names(ss);
                    assert(placed2.to_set().subset_of(names.to_set())) by {
                        assert forall|x: Seq<char>| placed2.to_set().contains(x) implies names
                            .to_set().contains(x) by {
                            let t = choose|t: int| 0 <= t < placed2.len() && placed2[t] == x;
                            assert(names_contain(ss, placed2[t]));
                            let w = choose|w: int| 0 <= w < ss.len() && ss[w].name == x;
                            assert(names[w] == x);
                            assert(names.contains(x));
                        }
                    }
                    placed2.unique_seq_to_set();
                    names.lemma_cardinality_of_set();
                    vstd::set_lib::lemma_len_subset(placed2.to_set(), names.to_set());
                }
                lemma_rounds_capped(ss, placed2, (k - 1) as nat);
            },
            None => {},
        }
    }
}

/// When the order computation fails on services with distinct names and
/// well-defined dependencies, no valid deployment order exists at all:
/// the dependency graph contains a cycle.
pub proof fn lemma_order_failure_means_cycle(ss: Seq<ServiceView>)
    requires
        unique_names(ss),
        spec_deployment_order(ss) is None,
    ensures
        forall|o: Seq<Seq<char>>| !is_topo_order(ss, o),
{
    assert forall|o: Seq<Seq<char>>| !is_topo_order(ss, o) by {
        if is_topo_order(ss, o) {
            lemma_no_stall(ss, Seq::empty(), o, ss.len());
        }
    }
}

/// The deployment order is a function of the service definitions alone:
/// recomputing it on an unchanged definition yields the same sequence.
pub proof fn lemma_deployment_order_idempotent(s1: Seq<ServiceView>, s2: Seq<ServiceView>)
    requires
        s1 == s2,
    ensures
        spec_deployment_order(s1) == spec_deployment_order(s2),
{
}

/// Copies a vector of service definitions.
pub fn clone_service_vec(v: &Vec<Service>) -> (r: Vec<Service>)
    ensures
        r.deep_view() == v.deep_view(),
{
    let mut r: Vec<Service> = Vec::new();
    let mut i: usize = 0;
    while i < v.len()
        invariant
            0 <= i <= v.len(),
            r.deep_view() =~= v.deep_view().take(i as int),
        decreases v.len() - i,
    {
        let ghost pre = r;
        let item = v[i].duplicate();
        let ghost gx = item;
        r.push(item);
        proof {
            crate::strutil::lemma_push_deep_view(pre, r, gx);
            assert(v.deep_view().take(i + 1) =~= v.deep_view().take(i as int).push(
                v.deep_view()[i as int],
            ));
        }
        i = i + 1;
    }
    proof {
        assert(v.deep_view().take(v.len() as int) =~= v.deep_view());
    }
    r
}

/// The mathematical value of a stack definition.
pub ghost struct StackDefinitionView {
    pub name: Seq<char>,
    pub services: Seq<ServiceView>,
    pub runtime_config: RuntimeConfigView,
}

/// A named collection of service definitions with the derived runtime
/// configuration.  The deployment order is recomputed on every
/// structural change, and a change that would make the graph invalid is
/// rejected whole.
#[derive(Debug)]
pub struct StackDefinition {
    pub name: String,
    pub services: Vec<Service>,
    pub runtime_config: RuntimeConfig,
}

impl View for StackDefinition {
    type V = StackDefinitionView;

    open spec fn view(&self) -> StackDefinitionView {
        StackDefinitionView {
            name: self.name@,
            services: self.services.deep_view(),
            runtime_config: self.runtime_config@,
        }
    }
}

impl StackDefinition {
    /// An empty stack definition with the given name.
    pub fn new(name: String) -> (r: StackDefinition)
        ensures
            r@.name == name@,
            r@.services =~= Seq::<ServiceView>::empty(),
            r@.runtime_config == spec_runtime_config_new(),
    {
        let r = StackDefinition {
            name,
            services: Vec::new(),
            runtime_config: RuntimeConfig::default(),
        };
        proof {
            assert(r@.services =~= Seq::<ServiceView>::empty());
        }
        r
    }

    /// The index of the first service named `name`, if any.
    fn find_index(&self, name: &str) -> (r: Option<usize>)
        ensures
            match r {
                Some(i) => svc_index(self@.services, name@) == i as int,
                None => svc_index(self@.services, name@) == -1,
            },
    {
        let ghost ss = self@.services;
        let mut i: usize = 0;
        let n = self.services.len();
        while i < n
            invariant
                ss == self.services.deep_view(),
                n == self.services.len(),
                ss.len() == n,
                forall|j: int| 0 <= j < n ==> #[trigger] ss[j] == self.services[j]@,
                0 <= i <= n,
                forall|j: int| 0 <= j < i ==> ss[j].name != name@,
            decreases n - i,
        {
            if str_eq(self.services[i].name.as_str(), name) {
                proof {
                    lemma_svc_index_is(ss, name@, i as int);
                }
                return Some(i);
            }
            i = i + 1;
        }
        proof {
            lemma_svc_index(ss, name@);
            if svc_index(ss, name@) != -1 {
                assert(ss[svc_index(ss, name@)].name == name@);
            }
        }
        None
    }

    /// The names of the defined services, in definition order.
    pub fn get_service_names(&self) -> (r: Vec<String>)
        ensures
            r.deep_view() == svc_names(self@.services),
    {
        let ghost ss = self@.services;
        let mut r: Vec<String> = Vec::new();
        let mut i: usize = 0;
        while i < self.services.len()
            invariant
                ss == self.services.deep_view(),
                ss.len() == self.services.len(),
                forall|j: int| 0 <= j < ss.len() ==> #[trigger] ss[j] == self.services[j]@,
                0 <= i <= self.services.len(),
                r.deep_view() =~= svc_names(ss).take(i as int),
            decreases self.services.len() - i,
        {
            let ghost pre = r;
            let item = self.services[i].name.clone();
            let ghost gx = item;
            r.push(item);
            proof {
                crate::strutil::lemma_push_deep_view(pre, r, gx);
                assert(svc_names(ss).take(i + 1) =~= svc_names(ss).take(i as int).push(
                    ss[i as int].name,
                ));
            }
            i = i + 1;
        }
        proof {
            assert(svc_names(ss).take(self.services.len() as int) =~= svc_names(ss));
        }
        r
    }

    /// The definition of the service named `name`, if any.
    pub fn get_service(&self, name: &str) -> (r: Option<&Service>)
        ensures
            match r {
                Some(s) => svc_index(self@.services, name@) >= 0 && s@ == self@.services[svc_index(
                    self@.services,
                    name@,
                )],
                None => svc_index(self@.services, name@) == -1,
            },
    {
        match self.find_index(name) {
            Some(i) => {
                proof {
                    lemma_svc_index(self@.services, name@);
                }
                Some(&self.services[i])
            },
            None => None,
        }
    }

    /// Adds or replaces the service under the given name, then recomputes
    /// and re-validates the deployment order.  When the resulting graph
    /// is invalid the definition is left exactly as it was.
    pub fn set_service(&mut self, name: String, service: Service) -> (r: Result<(), StackError>)
        ensures
            ({
                let updated = svc_upsert(
                    old(self)@.services,
                    (ServiceView { name: name@, ..service@ }),
                );
                &&& (r is Ok <==> deps_ok(updated) && spec_deployment_order(updated) is Some)
                &&& match r {
                    Ok(_) => final(self)@ == (StackDefinitionView {
                        services: updated,
                        runtime_config: (RuntimeConfigView {
                            deployment_order: spec_deployment_order(updated)->0,
                            ..old(self)@.runtime_config
                        }),
                        ..old(self)@
                    }),
                    Err(e) => *final(self) == *old(self) && spec_order_failure(updated, e),
                }
            }),
    {
        let mut sv = service;
        sv.name = name;
        let ghost svv = sv@;
        let mut candidate = clone_service_vec(&self.services);
        match self.find_index(sv.name.as_str()) {
            Some(i) => {
                proof {
                    lemma_svc_index(self@.services, svv.name);
                }
                candidate[i] = sv;
                proof {
                    assert(candidate.deep_view() =~= svc_upsert(self@.services, svv));
                }
            },
            None => {
                let ghost pre = candidate;
                let ghost gx = sv;
                candidate.push(sv);
                proof {
                    crate::strutil::lemma_push_deep_view(pre, candidate, gx);
                    assert(candidate.deep_view() =~= svc_upsert(self@.services, svv));
                }
            },
        }
        match compute_order(&candidate) {
            Ok(order) => {
                self.services = candidate;
                self.runtime_config.deployment_order = order;
                Ok(())
            },
            Err(e) => Err(e),
        }
    }

    /// Removes the service named `name`, then recomputes and re-validates
    /// the deployment order.  When another service still depends on the
    /// removed one, the removal is rejected and the definition is left
    /// exactly as it was.
    pub fn remove_service(&mut self, name: &str) -> (r: Result<Option<Service>, StackError>)
        ensures
            ({
                let idx = svc_index(old(self)@.services, name@);
                let updated = old(self)@.services.remove(idx);
                match r {
                    Ok(None) => idx == -1 && *final(self) == *old(self),
                    Ok(Some(s)) => {
                        &&& idx >= 0
                        &&& s@ == old(self)@.services[idx]
                        &&& deps_ok(updated)
                        &&& spec_deployment_order(updated) is Some
                        &&& final(self)@ == (StackDefinitionView {
                            services: updated,
                            runtime_config: (RuntimeConfigView {
                                deployment_order: spec_deployment_order(updated)->0,
                                ..old(self)@.runtime_config
                            }),
                            ..old(self)@
                        })
                    },
                    Err(e) => idx >= 0 && *final(self) == *old(self) && spec_order_failure(
                        updated,
                        e,
                    ),
                }
            }),
    {
        match self.find_index(name) {
            None => Ok(None),
            Some(i) => {
                proof {
                    lemma_svc_index(self@.services, name@);
                }
                let mut candidate = clone_service_vec(&self.services);
                let removed = candidate.remove(i);
                proof {
                    assert(candidate.deep_view() =~= self@.services.remove(i as int));
                }
                match compute_order(&candidate) {
                    Ok(order) => {
                        self.services = candidate;
                        self.runtime_config.deployment_order = order;
                        Ok(Some(removed))
                    },
                    Err(e) => Err(e),
                }
            },
        }
    }

    /// Recomputes the deployment order from the current services.  On
    /// failure the stored order is left unchanged, never partially
    /// computed.
    pub fn build_deployment_order(&mut self) -> (r: Result<(), StackError>)
        ensures
            r is Ok <==> deps_ok(old(self)@.services) && spec_deployment_order(
                old(self)@.services,
            ) is Some,
            match r {
                Ok(_) => final(self)@ == (StackDefinitionView {
                    runtime_config: (RuntimeConfigView {
                        deployment_order: spec_deployment_order(old(self)@.services)->0,
                        ..old(self)@.runtime_config
                    }),
                    ..old(self)@
                }),
                Err(e) => *final(self) == *old(self) && spec_order_failure(old(self)@.services, e),
            },
    {
        match compute_order(&self.services) {
            Ok(order) => {
                self.runtime_config.deployment_order = order;
                Ok(())
            },
            Err(e) => Err(e),
        }
    }

    /// The stored deployment order.
    pub fn get_deployment_order(&self) -> (r: &Vec<String>)
        ensures
            r.deep_view() == self@.runtime_config.deployment_order,
    {
        &self.runtime_config.deployment_order
    }

    /// Sets the scale policy of a service.
    pub fn set_scale_policy(&mut self, service_name: String, policy: ScalePolicy)
        ensures
            final(self)@ == (StackDefinitionView {
                runtime_config: (RuntimeConfigView {
                    scale_policies: kv_insert(
                        old(self)@.runtime_config.scale_policies,
                        (service_name@, policy),
                    ),
                    ..old(self)@.runtime_config
                }),
                ..old(self)@
            }),
    {
        self.runtime_config.scale_policies.insert(service_name, policy);
    }

    /// The scale policy of a service, if one was set.
    pub fn get_scale_policy(&self, service_name: &str) -> (r: Option<&ScalePolicy>)
        ensures
            match r {
                Some(p) => kv_get(self@.runtime_config.scale_policies, service_name@) == Some(*p),
                None => kv_get(self@.runtime_config.scale_policies, service_name@) is None,
            },
    {
        self.runtime_config.scale_policies.get(service_name)
    }
}

} // verus!
