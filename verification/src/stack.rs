//! The stack orchestrator: it owns a stack definition and the runtime
//! state, decides which runtime actions each lifecycle operation needs,
//! and records their outcomes.  The embedding program performs the
//! container engine calls themselves and reports back; every decision
//! and every state change is made here, under contract.

use vstd::prelude::*;
use vstd::string::StringExecFns;
use vstd::string::StrSliceExecFns;
use crate::definition::StackDefinition;
use crate::definition::StackDefinitionView;
use crate::definition::RuntimeConfigView;
use crate::definition::ScalePolicy;
use crate::definition::ScaleStrategy;
use crate::definition::clone_service_vec;
use crate::definition::compute_order;
use crate::definition::deps_ok;
use crate::definition::spec_deployment_order;
use crate::definition::spec_order_failure;
use crate::definition::svc_index;
use crate::definition::lemma_svc_index;
use crate::error::StackError;
use crate::kv::kv_get;
use crate::kv::kv_insert;
use crate::service::Service;
use crate::service::ServiceView;
use crate::state::StackState;
use crate::state::StackStateView;
use crate::state::StackStatus;
use crate::state::spec_ids;
use crate::state::spec_state_empty;

verus! {

/// The mathematical value of an orchestrated stack.
pub ghost struct StackView {
    pub definition: StackDefinitionView,
    pub state: StackStateView,
}

/// A stack under orchestration: its definition and what has actually
/// been materialized for it.
#[derive(Debug)]
pub struct Stack {
    pub definition: StackDefinition,
    pub state: StackState,
}

impl View for Stack {
    type V = StackView;

    open spec fn view(&self) -> StackView {
        StackView { definition: self.definition@, state: self.state@ }
    }
}

impl Stack {
    /// A new, empty stack with the given name, not deployed.
    pub fn new(name: String) -> (r: Stack)
        ensures
            r@.definition.name == name@,
            r@.definition.services =~= Seq::<ServiceView>::empty(),
            r@.definition.runtime_config == crate::definition::spec_runtime_config_new(),
            r@.state == spec_state_empty(),
    {
        Stack { definition: StackDefinition::new(name), state: StackState::default() }
    }

    /// The stack's name.
    pub fn name(&self) -> (r: String)
        ensures
            r@ == self@.definition.name,
    {
        self.definition.name.clone()
    }

    /// Registers a service under its own name, recomputing and
    /// re-validating the deployment order.  A name already registered,
    /// or a registration that would make the graph invalid, is refused
    /// whole, and the stack is left exactly as it was.
    pub fn register_service(&mut self, service: Service) -> (r: Result<(), StackError>)
        ensures
            ({
                let pushed = old(self)@.definition.services.push(service@);
                let dup = svc_index(old(self)@.definition.services, service@.name) != -1;
                &&& (r is Ok <==> !dup && deps_ok(pushed) && spec_deployment_order(pushed) is Some)
                &&& match r {
                    Ok(_) => final(self)@ == (StackView {
                        definition: (StackDefinitionView {
                            services: pushed,
                            runtime_config: (RuntimeConfigView {
                                deployment_order: spec_deployment_order(pushed)->0,
                                ..old(self)@.definition.runtime_config
                            }),
                            ..old(self)@.definition
                        }),
                        ..old(self)@
                    }),
                    Err(e) => *final(self) == *old(self) && if dup {
                        e matches StackError::DuplicateService { service: s, stack: k } && s@
                            == service@.name && k@ == old(self)@.definition.name
                    } else {
                        spec_order_failure(pushed, e)
                    },
                }
            }),
    {
        let dup = self.definition.get_service(service.name.as_str()).is_some();
        if dup {
            return Err(
                StackError::DuplicateService {
                    service: service.name.clone(),
                    stack: self.definition.name.clone(),
                },
            );
        }
        let mut candidate = clone_service_vec(&self.definition.services);
        let ghost pre = candidate;
        let ghost gx = service;
        candidate.push(service);
        proof {
            crate::strutil::lemma_push_deep_view(pre, candidate, gx);
        }
        match compute_order(&candidate) {
            Ok(order) => {
                self.definition.services = candidate;
                self.definition.runtime_config.deployment_order = order;
                Ok(())
            },
            Err(e) => Err(e),
        }
    }

    /// Registers several services at once, recomputing and re-validating
    /// the deployment order when all of them are in place, so that the
    /// services may reference one another in any order.  A duplicate
    /// name or an invalid graph refuses the whole batch, and the stack
    /// is left exactly as it was.
    pub fn register_services(&mut self, services: &Vec<Service>) -> (r: Result<(), StackError>)
        ensures
            ({
                let combined = old(self)@.definition.services + services.deep_view();
                &&& (r is Ok <==> batch_names_fresh(
                    old(self)@.definition.services,
                    services.deep_view(),
                ) && deps_ok(combined) && spec_deployment_order(combined) is Some)
                &&& match r {
                    Ok(_) => final(self)@ == (StackView {
                        definition: (StackDefinitionView {
                            services: combined,
                            runtime_config: (RuntimeConfigView {
                                deployment_order: spec_deployment_order(combined)->0,
                                ..old(self)@.definition.runtime_config
                            }),
                            ..old(self)@.definition
                        }),
                        ..old(self)@
                    }),
                    Err(e) => *final(self) == *old(self) && match e {
                        StackError::DuplicateService { service, stack } => {
                            &&& stack@ == old(self)@.definition.name
                            &&& exists|i: int|
                                {
                                    &&& 0 <= i < services.deep_view().len()
                                    &&& svc_index(
                                        old(self)@.definition.services
                                            + services.deep_view().take(i),
                                        (#[trigger] services.deep_view()[i]).name,
                                    ) != -1
                                    &&& service@ == services.deep_view()[i].name
                                    &&& forall|j: int|
                                        0 <= j < i ==> svc_index(
                                            old(self)@.definition.services
                                                + services.deep_view().take(j),
                                            (#[trigger] services.deep_view()[j]).name,
                                        ) == -1
                                }
                        },
                        _ => batch_names_fresh(
                            old(self)@.definition.services,
                            services.deep_view(),
                        ) && spec_order_failure(combined, e),
                    },
                }
            }),
    {
        let ghost base = self@.definition.services;
        let ghost add = services.deep_view();
        let mut candidate = clone_service_vec(&self.definition.services);
        let mut i: usize = 0;
        proof {
            assert(candidate.deep_view() =~= base + add.take(0));
        }
        while i < services.len()
            invariant
                base == self@.definition.services,
                add == services.deep_view(),
                add.len() == services.len(),
                forall|j: int| 0 <= j < services.len() ==> #[trigger] add[j] == services[j]@,
                0 <= i <= services.len(),
                candidate.deep_view() == base + add.take(i as int),
                forall|j: int|
                    0 <= j < i ==> svc_index(base + add.take(j), (#[trigger] add[j]).name) == -1,
            decreases services.len() - i,
        {
            if crate::definition::contains_service_named(
                &candidate,
                services[i].name.as_str(),
            ) {
                proof {
                    lemma_svc_index(candidate.deep_view(), add[i as int].name);
                    if svc_index(candidate.deep_view(), add[i as int].name) == -1 {
                        let k = choose|k: int|
                            0 <= k < candidate.deep_view().len() && candidate.deep_view()[k].name
                                == add[i as int].name;
                        assert(false);
                    }
                }
                return Err(
                    StackError::DuplicateService {
                        service: services[i].name.clone(),
                        stack: self.definition.name.clone(),
                    },
                );
            }
            proof {
                lemma_svc_index(candidate.deep_view(), add[i as int].name);
                if svc_index(candidate.deep_view(), add[i as int].name) != -1 {
                    let idx = svc_index(candidate.deep_view(), add[i as int].name);
                    assert(candidate.deep_view()[idx].name == add[i as int].name);
                }
            }
            let ghost pre = candidate;
            let item = services[i].duplicate();
            let ghost gx = item;
            candidate.push(item);
            proof {
                crate::strutil::lemma_push_deep_view(pre, candidate, gx);
                assert(candidate.deep_view() =~= base + add.take(i + 1));
            }
            i = i + 1;
        }
        proof {
            assert(add.take(services.len() as int) =~= add);
        }
        match compute_order(&candidate) {
            Ok(order) => {
                self.definition.services = candidate;
                self.definition.runtime_config.deployment_order = order;
                Ok(())
            },
            Err(e) => Err(e),
        }
    }

    /// Drops the registration of a service, recomputing and re-validating
    /// the deployment order; says whether one was dropped.  A removal
    /// that would leave a dangling dependency is refused whole, and the
    /// stack is left exactly as it was.
    pub fn unregister_service(&mut self, service_name: &str) -> (r: Result<bool, StackError>)
        ensures
            ({
                let idx = svc_index(old(self)@.definition.services, service_name@);
                let updated = old(self)@.definition.services.remove(idx);
                match r {
                    Ok(false) => idx == -1 && *final(self) == *old(self),
                    Ok(true) => {
                        &&& idx >= 0
                        &&& deps_ok(updated)
                        &&& spec_deployment_order(updated) is Some
                        &&& final(self)@ == (StackView {
                            definition: (StackDefinitionView {
                                services: updated,
                                runtime_config: (RuntimeConfigView {
                                    deployment_order: spec_deployment_order(updated)->0,
                                    ..old(self)@.definition.runtime_config
                                }),
                                ..old(self)@.definition
                            }),
                            ..old(self)@
                        })
                    },
                    Err(e) => idx >= 0 && *final(self) == *old(self) && spec_order_failure(
                        updated,
                        e,
                    ),
                }
            }),
    {
        match self.definition.remove_service(service_name) {
            Ok(None) => Ok(false),
            Ok(Some(_)) => Ok(true),
            Err(e) => Err(e),
        }
    }

    /// The registered service names, in registration order.
    pub fn get_registered_services(&self) -> (r: Vec<String>)
        ensures
            r.deep_view() == crate::definition::svc_names(self@.definition.services),
    {
        self.definition.get_service_names()
    }

    /// The registered service names, in registration order.
    pub fn get_services(&self) -> (r: Vec<String>)
        ensures
            r.deep_view() == crate::definition::svc_names(self@.definition.services),
    {
        self.definition.get_service_names()
    }

    /// How many services are registered.
    pub fn service_count(&self) -> (n: usize)
        ensures
            n == self@.definition.services.len(),
    {
        self.definition.services.len()
    }

    /// Whether a service of that name is registered.
    pub fn has_service(&self, service_name: &str) -> (b: bool)
        ensures
            b <==> svc_index(self@.definition.services, service_name@) != -1,
    {
        self.definition.get_service(service_name).is_some()
    }

    /// Adds or replaces a service under the given name, recomputing and
    /// re-validating the deployment order; an invalid graph rejects the
    /// whole mutation.
    pub fn add_service(&mut self, name: String, service: Service) -> (r: Result<(), StackError>)
        ensures
            ({
                let updated = crate::definition::svc_upsert(
                    old(self)@.definition.services,
                    (ServiceView { name: name@, ..service@ }),
                );
                &&& (r is Ok <==> deps_ok(updated) && spec_deployment_order(updated) is Some)
                &&& match r {
                    Ok(_) => final(self)@ == (StackView {
                        definition: (StackDefinitionView {
                            services: updated,
                            runtime_config: (RuntimeConfigView {
                                deployment_order: spec_deployment_order(updated)->0,
                                ..old(self)@.definition.runtime_config
                            }),
                            ..old(self)@.definition
                        }),
                        ..old(self)@
                    }),
                    Err(e) => *final(self) == *old(self) && spec_order_failure(updated, e),
                }
            }),
    {
        self.definition.set_service(name, service)
    }

    /// Removes the service of that name, recomputing and re-validating
    /// the deployment order; a removal that would leave a dangling
    /// dependency is rejected whole.
    pub fn remove_service(&mut self, name: &str) -> (r: Result<Option<Service>, StackError>)
        ensures
            ({
                let idx = svc_index(old(self)@.definition.services, name@);
                let updated = old(self)@.definition.services.remove(idx);
                match r {
                    Ok(None) => idx == -1 && *final(self) == *old(self),
                    Ok(Some(s)) => {
                        &&& idx >= 0
                        &&& s@ == old(self)@.definition.services[idx]
                        &&& final(self)@ == (StackView {
                            definition: (StackDefinitionView {
                                services: updated,
                                runtime_config: (RuntimeConfigView {
                                    deployment_order: spec_deployment_order(updated)->0,
                                    ..old(self)@.definition.runtime_config
                                }),
                                ..old(self)@.definition
                            }),
                            ..old(self)@
                        })
                    },
                    Err(e) => idx >= 0 && *final(self) == *old(self) && spec_order_failure(
                        updated,
                        e,
                    ),
                }
            }),
    {
        self.definition.remove_service(name)
    }

    /// The stored deployment order.
    pub fn get_deployment_order(&self) -> (r: Vec<String>)
        ensures
            r.deep_view() == self@.definition.runtime_config.deployment_order,
    {
        crate::service::clone_string_vec(self.definition.get_deployment_order())
    }

    /// Validates the dependency graph once more, then marks the stack as
    /// deploying.  Only the recorded status changes: the definition is
    /// never touched while the stack is brought up.  Nothing changes at
    /// all when the graph is invalid; no runtime call is to be made in
    /// that case.
    pub fn up_begin(&mut self) -> (r: Result<(), StackError>)
        ensures
            r is Ok <==> deps_ok(old(self)@.definition.services) && spec_deployment_order(
                old(self)@.definition.services,
            ) is Some,
            match r {
                Ok(_) => final(self)@ == (StackView {
                    state: (StackStateView { status: StackStatus::Deploying, ..old(self)@.state }),
                    ..old(self)@
                }),
                Err(e) => *final(self) == *old(self) && spec_order_failure(
                    old(self)@.definition.services,
                    e,
                ),
            },
    {
        match compute_order(&self.definition.services) {
            Ok(_) => {
                self.state.status = StackStatus::Deploying;
                Ok(())
            },
            Err(e) => Err(e),
        }
    }

    /// Records the runtime identifier a network was created with (or
    /// already had).
    pub fn record_network(&mut self, logical: String, id: String)
        ensures
            final(self)@ == (StackView {
                state: (StackStateView {
                    networks: kv_insert(old(self)@.state.networks, (logical@, id@)),
                    ..old(self)@.state
                }),
                ..old(self)@
            }),
    {
        self.state.networks.insert(logical, id);
    }

    /// Records the runtime name a volume was created with.
    pub fn record_volume(&mut self, logical: String, id: String)
        ensures
            final(self)@ == (StackView {
                state: (StackStateView {
                    volumes: kv_insert(old(self)@.state.volumes, (logical@, id@)),
                    ..old(self)@.state
                }),
                ..old(self)@
            }),
    {
        self.state.volumes.insert(logical, id);
    }

    /// Records one created and started container of a service, appended
    /// after the replicas created before it.
    pub fn record_container(&mut self, service: String, id: String)
        ensures
            final(self)@ == (StackView {
                state: (StackStateView {
                    containers: kv_insert(
                        old(self)@.state.containers,
                        (service@, spec_ids(old(self)@.state.containers, service@).push(id@)),
                    ),
                    ..old(self)@.state
                }),
                ..old(self)@
            }),
    {
        self.state.containers.push_id(service, id);
    }

    /// The services in reverse deployment order: the order teardown
    /// walks, so every dependent is handled before its dependencies.
    pub fn down_service_order(&self) -> (r: Vec<String>)
        ensures
            r.deep_view() == self@.definition.runtime_config.deployment_order.reverse(),
    {
        let order = self.definition.get_deployment_order();
        let ghost dv = order.deep_view();
        let n = order.len();
        let mut r: Vec<String> = Vec::new();
        let mut k: usize = 0;
        while k < n
            invariant
                dv == order.deep_view(),
                n == order.len(),
                dv.len() == n,
                forall|j: int| 0 <= j < n ==> #[trigger] dv[j] == order[j]@,
                0 <= k <= n,
                r.deep_view().len() == k,
                forall|j: int| 0 <= j < k ==> #[trigger] r.deep_view()[j] == dv[n - 1 - j],
            decreases n - k,
        {
            let ghost pre = r;
            let item = order[n - 1 - k].clone();
            let ghost gx = item;
            r.push(item);
            proof {
                crate::strutil::lemma_push_deep_view(pre, r, gx);
            }
            k = k + 1;
        }
        proof {
            assert(r.deep_view() =~= dv.reverse());
        }
        r
    }

    /// The tracked container identifiers of one service, in creation
    /// order.
    pub fn tracked_containers(&self, service_name: &str) -> (r: Vec<String>)
        ensures
            r.deep_view() == spec_ids(self@.state.containers, service_name@),
    {
        match self.state.containers.get(service_name) {
            Some(v) => {
                let c = crate::service::clone_string_vec(v);
                c
            },
            None => {
                let r: Vec<String> = Vec::new();
                proof {
                    assert(r.deep_view() =~= Seq::<Seq<char>>::empty());
                }
                r
            },
        }
    }

    /// The tracked network identifiers, in recording order.
    pub fn tracked_networks(&self) -> (r: Vec<String>)
        ensures
            r.deep_view() == Seq::new(
                self@.state.networks.len(),
                |i: int| self@.state.networks[i].1,
            ),
    {
        let items = self.state.networks.items();
        let ghost m = self@.state.networks;
        let mut r: Vec<String> = Vec::new();
        let mut i: usize = 0;
        while i < items.len()
            invariant
                items.deep_view() == m,
                m.len() == items.len(),
                forall|j: int|
                    0 <= j < items.len() ==> #[trigger] m[j] == ((items[j].0)@, (items[j].1)@),
                0 <= i <= items.len(),
                r.deep_view().len() == i,
                forall|j: int| 0 <= j < i ==> #[trigger] r.deep_view()[j] == m[j].1,
            decreases items.len() - i,
        {
            let ghost pre = r;
            let item = items[i].1.clone();
            let ghost gx = item;
            r.push(item);
            proof {
                crate::strutil::lemma_push_deep_view(pre, r, gx);
            }
            i = i + 1;
        }
        proof {
            assert(r.deep_view() =~= Seq::new(m.len(), |i: int| m[i].1));
        }
        r
    }

    /// The tracked volume runtime names, in recording order.
    pub fn tracked_volumes(&self) -> (r: Vec<String>)
        ensures
            r.deep_view() == Seq::new(
                self@.state.volumes.len(),
                |i: int| self@.state.volumes[i].1,
            ),
    {
        let items = self.state.volumes.items();
        let ghost m = self@.state.volumes;
        let mut r: Vec<String> = Vec::new();
        let mut i: usize = 0;
        while i < items.len()
            invariant
                items.deep_view() == m,
                m.len() == items.len(),
                forall|j: int|
                    0 <= j < items.len() ==> #[trigger] m[j] == ((items[j].0)@, (items[j].1)@),
                0 <= i <= items.len(),
                r.deep_view().len() == i,
                forall|j: int| 0 <= j < i ==> #[trigger] r.deep_view()[j] == m[j].1,
            decreases items.len() - i,
        {
            let ghost pre = r;
            let item = items[i].1.clone();
            let ghost gx = item;
            r.push(item);
            proof {
                crate::strutil::lemma_push_deep_view(pre, r, gx);
            }
            i = i + 1;
        }
        proof {
            assert(r.deep_view() =~= Seq::new(m.len(), |i: int| m[i].1));
        }
        r
    }

    /// Clears the runtime state back to its empty value, whatever
    /// happened to the individual teardown calls: after teardown the
    /// stack can always be redeployed cleanly.
    pub fn reset(&mut self)
        ensures
            final(self)@ == (StackView { state: spec_state_empty(), ..old(self)@ }),
    {
        self.state = StackState::default();
    }
}

/// The name a replica's container carries: the stack name, the service
/// name and the replica index, joined by underscores.
pub open spec fn spec_container_name(stack: Seq<char>, service: Seq<char>, idx: nat) -> Seq<char> {
    stack + "_"@ + service + "_"@ + crate::strutil::spec_dec(idx)
}

/// Builds a replica's container name.
pub fn container_name(stack: &str, service: &str, idx: u64) -> (r: String)
    ensures
        r@ == spec_container_name(stack@, service@, idx as nat),
{
    let mut r = String::from_str(stack);
    r.append("_");
    r.append(service);
    r.append("_");
    let digits = crate::strutil::u64_to_string(idx);
    r.append(digits.as_str());
    r
}

/// The replica count a service should converge to: its recorded scale
/// policy, or one when none was recorded.
pub open spec fn spec_replicas(policies: Seq<(Seq<char>, ScalePolicy)>, name: Seq<char>) -> u32 {
    match kv_get(policies, name) {
        Some(p) => p.replicas,
        None => 1,
    }
}

/// Whether every service of `add`, in order, carries a name that no
/// defined service and no earlier member of the batch already carries.
pub open spec fn batch_names_fresh(base: Seq<ServiceView>, add: Seq<ServiceView>) -> bool {
    forall|i: int|
        0 <= i < add.len() ==> svc_index(base + add.take(i), (#[trigger] add[i]).name) == -1
}

/// What a scale call asks the embedding program to do.
#[derive(Debug)]
pub enum ScalePlan {
    /// The tracked replica count already equals the target.
    NoOp,
    /// The stack is not running; only the recorded policy changed, to
    /// take effect at the next deployment.
    PolicyOnly,
    /// Containers to create and start, one name per new replica.
    Up { names: Vec<String> },
    /// Tracked containers to stop and force-remove, popped from the end
    /// of the tracked list, so they stand here highest replica index
    /// first.
    Down { removed: Vec<String> },
}

impl Stack {
    /// The replica count a service should converge to.
    pub fn replicas_for(&self, service_name: &str) -> (r: u32)
        ensures
            r == spec_replicas(
                self@.definition.runtime_config.scale_policies,
                service_name@,
            ),
    {
        match self.definition.get_scale_policy(service_name) {
            Some(p) => p.replicas,
            None => 1,
        }
    }

    /// Converges one service toward a target replica count.  An unknown
    /// service is refused before anything changes.  The policy records
    /// the target; when the stack is running, the returned plan tells
    /// the embedding program which containers to create or remove, and
    /// a removal is popped from the end of the tracked list, so the
    /// survivors are exactly the first `replicas` identifiers.
    pub fn scale(&mut self, service_name: &str, replicas: u32) -> (r: Result<
        ScalePlan,
        StackError,
    >)
        ensures
            r is Err <==> svc_index(old(self)@.definition.services, service_name@) == -1,
            match r {
                Err(e) => *final(self) == *old(self) && (e matches StackError::ServiceNotFound {
                    service,
                } && service@ == service_name@),
                Ok(plan) => {
                    let current = crate::state::spec_count(
                        old(self)@.state.containers,
                        service_name@,
                    );
                    let active = old(self)@.state.status == StackStatus::Running || old(
                        self,
                    )@.state.status == StackStatus::PartiallyRunning;
                    &&& final(self)@.definition == (StackDefinitionView {
                        runtime_config: (RuntimeConfigView {
                            scale_policies: kv_insert(
                                old(self)@.definition.runtime_config.scale_policies,
                                (
                                    service_name@,
                                    ScalePolicy { replicas, strategy: ScaleStrategy::RollingUpdate },
                                ),
                            ),
                            ..old(self)@.definition.runtime_config
                        }),
                        ..old(self)@.definition
                    })
                    &&& match plan {
                        ScalePlan::PolicyOnly => !active && final(self)@.state == old(self)@.state,
                        ScalePlan::NoOp => active && current == replicas && final(self)@.state
                            == old(self)@.state,
                        ScalePlan::Up { names } => {
                            &&& active
                            &&& replicas > current
                            &&& final(self)@.state == old(self)@.state
                            &&& names.deep_view().len() == replicas - current
                            &&& forall|k: int|
                                0 <= k < names.deep_view().len()
                                    ==> #[trigger] names.deep_view()[k] == spec_container_name(
                                    old(self)@.definition.name,
                                    service_name@,
                                    (current + 1 + k) as nat,
                                )
                        },
                        ScalePlan::Down { removed } => {
                            &&& active
                            &&& replicas < current
                            &&& removed.deep_view() == spec_ids(
                                old(self)@.state.containers,
                                service_name@,
                            ).skip(replicas as int).reverse()
                            &&& final(self)@.state == (StackStateView {
                                containers: kv_insert(
                                    old(self)@.state.containers,
                                    (
                                        service_name@,
                                        spec_ids(old(self)@.state.containers, service_name@).take(
                                            replicas as int,
                                        ),
                                    ),
                                ),
                                ..old(self)@.state
                            })
                        },
                    }
                },
            },
    {
        if !self.has_service(service_name) {
            return Err(
                StackError::ServiceNotFound {
                    service: String::from_str(service_name),
                },
            );
        }
        let policy = ScalePolicy { replicas, strategy: ScaleStrategy::RollingUpdate };
        self.definition.set_scale_policy(String::from_str(service_name), policy);
        let active = match self.state.status {
            StackStatus::Running => true,
            StackStatus::PartiallyRunning => true,
            _ => false,
        };
        if !active {
            return Ok(ScalePlan::PolicyOnly);
        }
        let current = self.state.containers.count(service_name);
        let target = replicas as usize;
        if target == current {
            Ok(ScalePlan::NoOp)
        } else if target > current {
            let ghost stackname = self@.definition.name;
            let mut names: Vec<String> = Vec::new();
            let mut k: usize = 0;
            proof {
                assert(names.deep_view() =~= Seq::<Seq<char>>::empty());
            }
            while k < target - current
                invariant
                    stackname == self@.definition.name,
                    current < target <= u32::MAX,
                    0 <= k <= target - current,
                    names.deep_view().len() == k,
                    forall|j: int|
                        0 <= j < k ==> #[trigger] names.deep_view()[j] == spec_container_name(
                            stackname,
                            service_name@,
                            (current + 1 + j) as nat,
                        ),
                decreases target - current - k,
            {
                let ghost pre = names;
                let idx: u64 = (current as u64) + 1 + (k as u64);
                let item = container_name(self.definition.name.as_str(), service_name, idx);
                let ghost gx = item;
                names.push(item);
                proof {
                    crate::strutil::lemma_push_deep_view(pre, names, gx);
                }
                k = k + 1;
            }
            Ok(ScalePlan::Up { names })
        } else {
            let ids = self.tracked_containers(service_name);
            let mut kept = ids;
            let suffix = kept.split_off(target);
            // Pop from the end: the highest replica index leaves first.
            let ghost sdv = suffix.deep_view();
            let m = suffix.len();
            let mut removed: Vec<String> = Vec::new();
            let mut k: usize = 0;
            while k < m
                invariant
                    sdv == suffix.deep_view(),
                    m == suffix.len(),
                    sdv.len() == m,
                    forall|j: int| 0 <= j < m ==> #[trigger] sdv[j] == suffix[j]@,
                    0 <= k <= m,
                    removed.deep_view().len() == k,
                    forall|j: int|
                        0 <= j < k ==> #[trigger] removed.deep_view()[j] == sdv[m - 1 - j],
                decreases m - k,
            {
                let ghost pre = removed;
                let item = suffix[m - 1 - k].clone();
                let ghost gx = item;
                removed.push(item);
                proof {
                    crate::strutil::lemma_push_deep_view(pre, removed, gx);
                }
                k = k + 1;
            }
            self.state.containers.truncate_ids(service_name, target);
            proof {
                let ids0 = spec_ids(old(self)@.state.containers, service_name@);
                assert(ids0.len() == current);
                assert(sdv =~= ids0.skip(target as int));
                assert(removed.deep_view() =~= ids0.skip(target as int).reverse());
                crate::kv::lemma_kv_first_index(old(self)@.state.containers, service_name@);
                assert(crate::kv::kv_first_index(old(self)@.state.containers, service_name@)
                    != -1) by {
                    if crate::kv::kv_first_index(old(self)@.state.containers, service_name@)
                        == -1 {
                        assert(ids0 =~= Seq::<Seq<char>>::empty());
                    }
                }
                assert(vstd::math::min(target as int, ids0.len() as int) == target as int);
            }
            Ok(ScalePlan::Down { removed })
        }
    }

    /// Clears the tracked containers of one service and hands back their
    /// identifiers, for the embedding program to stop, remove and then
    /// redeploy.  An unknown service is refused before anything changes.
    pub fn restart_service(&mut self, service_name: &str) -> (r: Result<Vec<String>, StackError>)
        ensures
            r is Err <==> svc_index(old(self)@.definition.services, service_name@) == -1,
            match r {
                Err(e) => *final(self) == *old(self) && (e matches StackError::ServiceNotFound {
                    service,
                } && service@ == service_name@),
                Ok(ids) => {
                    &&& ids.deep_view() == spec_ids(old(self)@.state.containers, service_name@)
                    &&& final(self)@ == (StackView {
                        state: (StackStateView {
                            containers: if crate::kv::kv_first_index(
                                old(self)@.state.containers,
                                service_name@,
                            ) == -1 {
                                old(self)@.state.containers
                            } else {
                                kv_insert(
                                    old(self)@.state.containers,
                                    (service_name@, Seq::<Seq<char>>::empty()),
                                )
                            },
                            ..old(self)@.state
                        }),
                        ..old(self)@
                    })
                },
            },
    {
        if !self.has_service(service_name) {
            return Err(
                StackError::ServiceNotFound {
                    service: String::from_str(service_name),
                },
            );
        }
        let ids = self.tracked_containers(service_name);
        self.state.containers.truncate_ids(service_name, 0);
        proof {
            let ids0 = spec_ids(old(self)@.state.containers, service_name@);
            assert(ids0.take(vstd::math::min(0, ids0.len() as int)) =~= Seq::<Seq<char>>::empty());
        }
        Ok(ids)
    }

    /// Whether every registered service has at least as many tracked
    /// containers as its desired replica count.
    pub open spec fn all_services_deployed(v: StackView) -> bool {
        forall|i: int|
            0 <= i < v.definition.services.len() ==> crate::state::spec_count(
                v.state.containers,
                (#[trigger] v.definition.services[i]).name,
            ) >= spec_replicas(
                v.definition.runtime_config.scale_policies,
                v.definition.services[i].name,
            )
    }

    /// Settles the stack's status after a deployment pass: running when
    /// every service reached its desired replica count, partially
    /// running when some containers exist but not all services are
    /// complete, failed when nothing was deployed at all.
    pub fn finish_up(&mut self)
        requires
            crate::state::spec_total(old(self)@.state.containers) <= usize::MAX,
        ensures
            final(self)@ == (StackView {
                state: (StackStateView {
                    status: if Stack::all_services_deployed(old(self)@) {
                        StackStatus::Running
                    } else if crate::state::spec_total(old(self)@.state.containers) > 0 {
                        StackStatus::PartiallyRunning
                    } else {
                        StackStatus::Failed
                    },
                    ..old(self)@.state
                }),
                ..old(self)@
            }),
    {
        let ghost v0 = self@;
        let n = self.definition.services.len();
        let mut all = true;
        let mut i: usize = 0;
        while i < n
            invariant
                *self == *old(self),
                v0 == self@,
                n == self.definition.services.len(),
                v0.definition.services.len() == n,
                forall|j: int|
                    0 <= j < n ==> #[trigger] v0.definition.services[j]
                        == self.definition.services[j]@,
                0 <= i <= n,
                all <==> (forall|j: int|
                    0 <= j < i ==> crate::state::spec_count(
                        v0.state.containers,
                        (#[trigger] v0.definition.services[j]).name,
                    ) >= spec_replicas(
                        v0.definition.runtime_config.scale_policies,
                        v0.definition.services[j].name,
                    )),
            decreases n - i,
        {
            let have = self.state.containers.count(self.definition.services[i].name.as_str());
            let want = self.replicas_for(self.definition.services[i].name.as_str());
            if have < want as usize {
                all = false;
                proof {
                    assert(crate::state::spec_count(
                        v0.state.containers,
                        v0.definition.services[i as int].name,
                    ) < spec_replicas(
                        v0.definition.runtime_config.scale_policies,
                        v0.definition.services[i as int].name,
                    ));
                }
            }
            i = i + 1;
        }
        if all {
            self.state.status = StackStatus::Running;
        } else {
            let total = self.state.containers.total();
            if total > 0 {
                self.state.status = StackStatus::PartiallyRunning;
            } else {
                self.state.status = StackStatus::Failed;
            }
        }
    }
}

/// All network names the services mention, in definition order, with
/// repeats kept.
pub open spec fn flat_networks(ss: Seq<ServiceView>) -> Seq<Seq<char>>
    decreases ss.len(),
{
    if ss.len() == 0 {
        Seq::empty()
    } else {
        flat_networks(ss.drop_last()) + ss.last().networks
    }
}

/// Appends `x` unless it is already present.
pub open spec fn dedup_step(acc: Seq<Seq<char>>, x: Seq<char>) -> Seq<Seq<char>> {
    if acc.contains(x) {
        acc
    } else {
        acc.push(x)
    }
}

/// Folds the names of `s` onto `acc`, keeping first occurrences only.
pub open spec fn dedup_from(s: Seq<Seq<char>>, acc: Seq<Seq<char>>) -> Seq<Seq<char>>
    decreases s.len(),
{
    if s.len() == 0 {
        acc
    } else {
        dedup_from(s.drop_first(), dedup_step(acc, s[0]))
    }
}

/// The logical networks a deployment creates: the implicit default
/// network, then each network any service mentions, first mention
/// first.
pub open spec fn spec_network_logicals(ss: Seq<ServiceView>) -> Seq<Seq<char>> {
    dedup_from(flat_networks(ss), seq!["default"@])
}

/// A logical name prefixed with the stack's namespace.
pub open spec fn spec_namespaced(stack: Seq<char>, logical: Seq<char>) -> Seq<char> {
    stack + "_"@ + logical
}

/// One network a deployment creates: its logical name within the stack
/// and the namespaced name it is created under.
#[derive(Debug)]
pub struct NetworkPlan {
    pub logical: String,
    pub runtime_name: String,
}

/// The mathematical value of a network plan.
pub ghost struct NetworkPlanView {
    pub logical: Seq<char>,
    pub runtime_name: Seq<char>,
}

impl View for NetworkPlan {
    type V = NetworkPlanView;

    open spec fn view(&self) -> NetworkPlanView {
        NetworkPlanView { logical: self.logical@, runtime_name: self.runtime_name@ }
    }
}

impl DeepView for NetworkPlan {
    type V = NetworkPlanView;

    open spec fn deep_view(&self) -> NetworkPlanView {
        self@
    }
}

/// The source of a mount spec: everything before the first colon, or the
/// whole spec when it has none.
pub open spec fn mount_source(v: Seq<char>) -> Seq<char> {
    match crate::strutil::find_char_from(v, ':', 0) {
        Some(i) => v.take(i),
        None => v,
    }
}

/// Whether a mount source names a volume rather than a host path: it
/// does not start with a path character and holds no slash.
pub open spec fn is_named_source(s: Seq<char>) -> bool {
    &&& !(s.len() > 0 && (s[0] == '/' || s[0] == '.'))
    &&& crate::strutil::find_char_from(s, '/', 0) is None
}

/// The named-volume sources among a service's mount specs, with repeats
/// kept.
pub open spec fn named_sources_of(vols: Seq<Seq<char>>) -> Seq<Seq<char>>
    decreases vols.len(),
{
    if vols.len() == 0 {
        Seq::empty()
    } else {
        named_sources_of(vols.drop_last()) + (if is_named_source(mount_source(vols.last())) {
            seq![mount_source(vols.last())]
        } else {
            Seq::empty()
        })
    }
}

/// The named-volume sources across all services, with repeats kept.
pub open spec fn flat_named_sources(ss: Seq<ServiceView>) -> Seq<Seq<char>>
    decreases ss.len(),
{
    if ss.len() == 0 {
        Seq::empty()
    } else {
        flat_named_sources(ss.drop_last()) + named_sources_of(ss.last().volumes)
    }
}

/// The logical volumes a deployment pre-creates: each distinct named
/// source, first mention first.  Bind mounts are not pre-created.
pub open spec fn spec_volume_logicals(ss: Seq<ServiceView>) -> Seq<Seq<char>> {
    dedup_from(flat_named_sources(ss), Seq::empty())
}

/// One volume a deployment pre-creates.
#[derive(Debug)]
pub struct VolumePlan {
    pub logical: String,
    pub runtime_name: String,
}

/// The mathematical value of a volume plan.
pub ghost struct VolumePlanView {
    pub logical: Seq<char>,
    pub runtime_name: Seq<char>,
}

impl View for VolumePlan {
    type V = VolumePlanView;

    open spec fn view(&self) -> VolumePlanView {
        VolumePlanView { logical: self.logical@, runtime_name: self.runtime_name@ }
    }
}

impl DeepView for VolumePlan {
    type V = VolumePlanView;

    open spec fn deep_view(&self) -> VolumePlanView {
        self@
    }
}

/// Extracts the source of a mount spec.
fn mount_source_exec(v: &str) -> (r: String)
    ensures
        r@ == mount_source(v@),
{
    let n = v.unicode_len();
    match crate::strutil::find_char(v, ':') {
        Some(i) => {
            let s = v.substring_char(0, i);
            proof {
                assert(s@ =~= v@.take(i as int));
            }
            String::from_str(s)
        },
        None => String::from_str(v),
    }
}

/// Decides whether a mount source names a volume.
fn is_named_source_exec(s: &str) -> (r: bool)
    ensures
        r == is_named_source(s@),
{
    let n = s.unicode_len();
    if n > 0 {
        let c = s.get_char(0);
        if c == '/' || c == '.' {
            return false;
        }
    }
    match crate::strutil::find_char(s, '/') {
        Some(_) => false,
        None => true,
    }
}

impl Stack {
    /// Folds `items` onto `acc`, keeping first occurrences only.
    fn dedup_into(acc: &mut Vec<String>, items: &Vec<String>)
        ensures
            final(acc).deep_view() == dedup_from(items.deep_view(), old(acc).deep_view()),
    {
        let ghost full = items.deep_view();
        let ghost init = old(acc).deep_view();
        proof {
            assert(full.skip(0) =~= full);
        }
        let mut i: usize = 0;
        while i < items.len()
            invariant
                full == items.deep_view(),
                full.len() == items.len(),
                forall|j: int| 0 <= j < items.len() ==> #[trigger] full[j] == items[j]@,
                0 <= i <= items.len(),
                dedup_from(full, init) == dedup_from(full.skip(i as int), acc.deep_view()),
            decreases items.len() - i,
        {
            let ghost skipped = full.skip(i as int);
            proof {
                assert(skipped[0] == full[i as int]);
                assert(skipped.drop_first() =~= full.skip(i + 1));
            }
            if !crate::definition::vec_contains_str(acc, items[i].as_str()) {
                let ghost pre = *acc;
                let item = items[i].clone();
                let ghost gx = item;
                acc.push(item);
                proof {
                    crate::strutil::lemma_push_deep_view(pre, *acc, gx);
                }
            }
            i = i + 1;
        }
        proof {
            assert(full.skip(items.len() as int) =~= Seq::<Seq<char>>::empty());
        }
    }

    /// The networks a deployment of this stack creates: the implicit
    /// default network first, then each network any service mentions,
    /// each exactly once, under its namespaced runtime name.
    pub fn network_plan(&self) -> (r: Vec<NetworkPlan>)
        ensures
            ({
                let logicals = spec_network_logicals(self@.definition.services);
                &&& r.deep_view().len() == logicals.len()
                &&& forall|k: int|
                    0 <= k < logicals.len() ==> (#[trigger] r.deep_view()[k]).logical == logicals[k]
                        && r.deep_view()[k].runtime_name == spec_namespaced(
                        self@.definition.name,
                        logicals[k],
                    )
            }),
    {
        let ghost ss = self@.definition.services;
        // Gather every mention.
        let mut flat: Vec<String> = Vec::new();
        proof {
            assert(flat.deep_view() =~= flat_networks(ss.take(0)));
        }
        let n = self.definition.services.len();
        let mut i: usize = 0;
        while i < n
            invariant
                ss == self.definition.services.deep_view(),
                n == self.definition.services.len(),
                ss.len() == n,
                forall|j: int| 0 <= j < n ==> #[trigger] ss[j] == self.definition.services[j]@,
                0 <= i <= n,
                flat.deep_view() == flat_networks(ss.take(i as int)),
            decreases n - i,
        {
            let ghost pre_service = flat.deep_view();
            let nets = &self.definition.services[i].networks;
            let ghost nv = ss[i as int].networks;
            let mut j: usize = 0;
            while j < nets.len()
                invariant
                    nv == nets.deep_view(),
                    nv.len() == nets.len(),
                    forall|t: int| 0 <= t < nets.len() ==> #[trigger] nv[t] == nets[t]@,
                    0 <= j <= nets.len(),
                    flat.deep_view() =~= pre_service + nv.take(j as int),
                decreases nets.len() - j,
            {
                let ghost pre = flat;
                let item = nets[j].clone();
                let ghost gx = item;
                flat.push(item);
                proof {
                    crate::strutil::lemma_push_deep_view(pre, flat, gx);
                    assert(pre_service + nv.take(j + 1) =~= (pre_service + nv.take(j as int)).push(
                        nv[j as int],
                    ));
                }
                j = j + 1;
            }
            proof {
                assert(nv.take(nets.len() as int) =~= nv);
                assert(ss.take(i + 1).drop_last() =~= ss.take(i as int));
                assert(ss.take(i + 1).last() == ss[i as int]);
                assert(flat.deep_view() =~= flat_networks(ss.take(i + 1)));
            }
            i = i + 1;
        }
        proof {
            assert(ss.take(n as int) =~= ss);
        }
        // Keep first occurrences, after the implicit default network.
        let mut logicals: Vec<String> = Vec::new();
        logicals.push(String::from_str("default"));
        proof {
            assert(logicals.deep_view() =~= seq!["default"@]);
        }
        Stack::dedup_into(&mut logicals, &flat);
        // Attach the namespaced runtime names.
        let ghost ls = logicals.deep_view();
        let mut r: Vec<NetworkPlan> = Vec::new();
        let mut k: usize = 0;
        while k < logicals.len()
            invariant
                ls == logicals.deep_view(),
                ls.len() == logicals.len(),
                forall|t: int| 0 <= t < logicals.len() ==> #[trigger] ls[t] == logicals[t]@,
                0 <= k <= logicals.len(),
                r.deep_view().len() == k,
                forall|t: int|
                    0 <= t < k ==> (#[trigger] r.deep_view()[t]).logical == ls[t]
                        && r.deep_view()[t].runtime_name == spec_namespaced(
                        self@.definition.name,
                        ls[t],
                    ),
            decreases logicals.len() - k,
        {
            let mut runtime_name = self.definition.name.clone();
            runtime_name.append("_");
            runtime_name.append(logicals[k].as_str());
            let ghost pre = r;
            let item = NetworkPlan { logical: logicals[k].clone(), runtime_name };
            let ghost gx = item;
            r.push(item);
            proof {
                crate::strutil::lemma_push_deep_view(pre, r, gx);
            }
            k = k + 1;
        }
        r
    }

    /// The volumes a deployment of this stack pre-creates: each distinct
    /// named-volume source across all mount specs, first mention first,
    /// under its namespaced runtime name.  Bind mounts are left alone.
    pub fn volume_plan(&self) -> (r: Vec<VolumePlan>)
        ensures
            ({
                let logicals = spec_volume_logicals(self@.definition.services);
                &&& r.deep_view().len() == logicals.len()
                &&& forall|k: int|
                    0 <= k < logicals.len() ==> (#[trigger] r.deep_view()[k]).logical == logicals[k]
                        && r.deep_view()[k].runtime_name == spec_namespaced(
                        self@.definition.name,
                        logicals[k],
                    )
            }),
    {
        let ghost ss = self@.definition.services;
        let mut flat: Vec<String> = Vec::new();
        proof {
            assert(flat.deep_view() =~= flat_named_sources(ss.take(0)));
        }
        let n = self.definition.services.len();
        let mut i: usize = 0;
        while i < n
            invariant
                ss == self.definition.services.deep_view(),
                n == self.definition.services.len(),
                ss.len() == n,
                forall|j: int| 0 <= j < n ==> #[trigger] ss[j] == self.definition.services[j]@,
                0 <= i <= n,
                flat.deep_view() == flat_named_sources(ss.take(i as int)),
            decreases n - i,
        {
            let ghost pre_service = flat.deep_view();
            let vols = &self.definition.services[i].volumes;
            let ghost vv = ss[i as int].volumes;
            let mut j: usize = 0;
            while j < vols.len()
                invariant
                    vv == vols.deep_view(),
                    vv.len() == vols.len(),
                    forall|t: int| 0 <= t < vols.len() ==> #[trigger] vv[t] == vols[t]@,
                    0 <= j <= vols.len(),
                    flat.deep_view() =~= pre_service + named_sources_of(vv.take(j as int)),
                decreases vols.len() - j,
            {
                let src = mount_source_exec(vols[j].as_str());
                let named = is_named_source_exec(src.as_str());
                proof {
                    assert(vv.take(j + 1).drop_last() =~= vv.take(j as int));
                    assert(vv.take(j + 1).last() == vv[j as int]);
                }
                if named {
                    let ghost pre = flat;
                    let ghost gx = src;
                    flat.push(src);
                    proof {
                        crate::strutil::lemma_push_deep_view(pre, flat, gx);
                        assert(flat.deep_view() =~= pre_service + named_sources_of(
                            vv.take(j + 1),
                        ));
                    }
                } else {
                    proof {
                        assert(flat.deep_view() =~= pre_service + named_sources_of(
                            vv.take(j + 1),
                        ));
                    }
                }
                j = j + 1;
            }
            proof {
                assert(vv.take(vols.len() as int) =~= vv);
                assert(ss.take(i + 1).drop_last() =~= ss.take(i as int));
                assert(ss.take(i + 1).last() == ss[i as int]);
                assert(flat.deep_view() =~= flat_named_sources(ss.take(i + 1)));
            }
            i = i + 1;
        }
        proof {
            assert(ss.take(n as int) =~= ss);
        }
        let mut logicals: Vec<String> = Vec::new();
        proof {
            assert(logicals.deep_view() =~= Seq::<Seq<char>>::empty());
        }
        Stack::dedup_into(&mut logicals, &flat);
        let ghost ls = logicals.deep_view();
        let mut r: Vec<VolumePlan> = Vec::new();
        let mut k: usize = 0;
        while k < logicals.len()
            invariant
                ls == logicals.deep_view(),
                ls.len() == logicals.len(),
                forall|t: int| 0 <= t < logicals.len() ==> #[trigger] ls[t] == logicals[t]@,
                0 <= k <= logicals.len(),
                r.deep_view().len() == k,
                forall|t: int|
                    0 <= t < k ==> (#[trigger] r.deep_view()[t]).logical == ls[t]
                        && r.deep_view()[t].runtime_name == spec_namespaced(
                        self@.definition.name,
                        ls[t],
                    ),
            decreases logicals.len() - k,
        {
            let mut runtime_name = self.definition.name.clone();
            runtime_name.append("_");
            runtime_name.append(logicals[k].as_str());
            let ghost pre = r;
            let item = VolumePlan { logical: logicals[k].clone(), runtime_name };
            let ghost gx = item;
            r.push(item);
            proof {
                crate::strutil::lemma_push_deep_view(pre, r, gx);
            }
            k = k + 1;
        }
        r
    }
}

/// A mount spec as handed to the runtime: a named-volume source that was
/// pre-created is replaced by its runtime name and the target path; any
/// other spec passes through; a spec without a colon is dropped.
pub open spec fn spec_rewrite_mount(
    vols_state: Seq<(Seq<char>, Seq<char>)>,
    v: Seq<char>,
) -> Option<Seq<char>> {
    match crate::strutil::find_char_from(v, ':', 0) {
        None => None,
        Some(i) => {
            let src = v.take(i);
            let after = v.skip(i + 1);
            let target = match crate::strutil::find_char_from(after, ':', 0) {
                Some(t) => after.take(t),
                None => after,
            };
            if is_named_source(src) && kv_get(vols_state, src) is Some {
                Some(kv_get(vols_state, src)->0 + ":"@ + target)
            } else {
                Some(v)
            }
        },
    }
}

/// All of a service's mount specs as handed to the runtime.
pub open spec fn spec_rewritten_mounts(
    vols_state: Seq<(Seq<char>, Seq<char>)>,
    vols: Seq<Seq<char>>,
) -> Seq<Seq<char>>
    decreases vols.len(),
{
    if vols.len() == 0 {
        Seq::empty()
    } else {
        spec_rewritten_mounts(vols_state, vols.drop_last()) + (match spec_rewrite_mount(
            vols_state,
            vols.last(),
        ) {
            Some(m) => seq![m],
            None => Seq::empty(),
        })
    }
}

/// The labels a container carries: the stack and service membership
/// labels, then the service's own labels.
pub open spec fn spec_container_labels(
    stack: Seq<char>,
    service: Seq<char>,
    labels: Seq<(Seq<char>, Seq<char>)>,
) -> Seq<Seq<char>> {
    seq![
        "com.docker.compose.project="@ + stack,
        "com.docker.compose.service="@ + service,
    ] + crate::kv::spec_kv_strings(labels)
}

/// The runtime identifiers of the recorded networks among `names`, in
/// order; unrecorded names are skipped.
pub open spec fn spec_resolved_networks(
    nets_state: Seq<(Seq<char>, Seq<char>)>,
    names: Seq<Seq<char>>,
) -> Seq<Seq<char>>
    decreases names.len(),
{
    if names.len() == 0 {
        Seq::empty()
    } else {
        spec_resolved_networks(nets_state, names.drop_last()) + (match kv_get(
            nets_state,
            names.last(),
        ) {
            Some(id) => seq![id],
            None => Seq::empty(),
        })
    }
}

/// Everything needed to create and start one replica's container.
#[derive(Debug)]
pub struct ContainerPlan {
    pub name: String,
    pub service: String,
    pub replica: u32,
    pub image: String,
    pub command: Option<Vec<String>>,
    pub environment: Vec<String>,
    pub volumes: Vec<String>,
    pub working_dir: Option<String>,
    pub hostname: Option<String>,
    pub memory: Option<String>,
    pub cpu_shares: Option<u64>,
    pub labels: Vec<String>,
    pub network_ids: Vec<String>,
}

/// The mathematical value of a container plan.
pub ghost struct ContainerPlanView {
    pub name: Seq<char>,
    pub service: Seq<char>,
    pub replica: u32,
    pub image: Seq<char>,
    pub command: Option<Seq<Seq<char>>>,
    pub environment: Seq<Seq<char>>,
    pub volumes: Seq<Seq<char>>,
    pub working_dir: Option<Seq<char>>,
    pub hostname: Option<Seq<char>>,
    pub memory: Option<Seq<char>>,
    pub cpu_shares: Option<u64>,
    pub labels: Seq<Seq<char>>,
    pub network_ids: Seq<Seq<char>>,
}

impl View for ContainerPlan {
    type V = ContainerPlanView;

    open spec fn view(&self) -> ContainerPlanView {
        ContainerPlanView {
            name: self.name@,
            service: self.service@,
            replica: self.replica,
            image: self.image@,
            command: self.command.deep_view(),
            environment: self.environment.deep_view(),
            volumes: self.volumes.deep_view(),
            working_dir: self.working_dir.deep_view(),
            hostname: self.hostname.deep_view(),
            memory: self.memory.deep_view(),
            cpu_shares: self.cpu_shares,
            labels: self.labels.deep_view(),
            network_ids: self.network_ids.deep_view(),
        }
    }
}

impl DeepView for ContainerPlan {
    type V = ContainerPlanView;

    open spec fn deep_view(&self) -> ContainerPlanView {
        self@
    }
}

/// What one replica's plan must hold for service `sv` of stack `v`.
pub open spec fn spec_container_plan(v: StackView, sv: ServiceView, replica: u32) -> ContainerPlanView {
    ContainerPlanView {
        name: spec_container_name(v.definition.name, sv.name, replica as nat),
        service: sv.name,
        replica,
        image: sv.image->0,
        command: sv.command,
        environment: crate::kv::spec_kv_strings(sv.environment),
        volumes: spec_rewritten_mounts(v.state.volumes, sv.volumes),
        working_dir: sv.working_dir,
        hostname: sv.hostname,
        memory: sv.resources.memory,
        cpu_shares: sv.resources.cpu_shares,
        labels: spec_container_labels(v.definition.name, sv.name, sv.labels),
        network_ids: spec_resolved_networks(v.state.networks, seq!["default"@] + sv.networks),
    }
}

impl Stack {
    /// The mount specs of one service as handed to the runtime, with
    /// pre-created named volumes rewritten to their runtime names.
    fn rewritten_mounts(&self, svc: &Service) -> (r: Vec<String>)
        ensures
            r.deep_view() == spec_rewritten_mounts(self@.state.volumes, svc@.volumes),
    {
        let ghost vstate = self@.state.volumes;
        let ghost vols = svc@.volumes;
        let mut r: Vec<String> = Vec::new();
        proof {
            assert(r.deep_view() =~= spec_rewritten_mounts(vstate, vols.take(0)));
        }
        let mut i: usize = 0;
        while i < svc.volumes.len()
            invariant
                vstate == self@.state.volumes,
                vols == svc@.volumes,
                vols.len() == svc.volumes.len(),
                forall|j: int| 0 <= j < svc.volumes.len() ==> #[trigger] vols[j] == svc.volumes[j]@,
                0 <= i <= svc.volumes.len(),
                r.deep_view() == spec_rewritten_mounts(vstate, vols.take(i as int)),
            decreases svc.volumes.len() - i,
        {
            let v = &svc.volumes[i];
            let n = v.as_str().unicode_len();
            proof {
                assert(vols.take(i + 1).drop_last() =~= vols.take(i as int));
                assert(vols.take(i + 1).last() == vols[i as int]);
            }
            match crate::strutil::find_char(v.as_str(), ':') {
                None => {
                    proof {
                        assert(r.deep_view() =~= spec_rewritten_mounts(vstate, vols.take(i + 1)));
                    }
                },
                Some(c) => {
                    let src = v.as_str().substring_char(0, c);
                    let after = v.as_str().substring_char(c + 1, n);
                    proof {
                        assert(src@ =~= vols[i as int].take(c as int));
                        assert(after@ =~= vols[i as int].skip(c + 1));
                    }
                    let after_len = after.unicode_len();
                    let target = match crate::strutil::find_char(after, ':') {
                        Some(t) => {
                            let w = after.substring_char(0, t);
                            proof {
                                assert(w@ =~= after@.take(t as int));
                            }
                            w
                        },
                        None => after,
                    };
                    let named = is_named_source_exec(src);
                    let mut taken = false;
                    if named {
                        if let Some(rt) = self.state.volumes.get(src) {
                            let mut s = rt.clone();
                            s.append(":");
                            s.append(target);
                            let ghost pre = r;
                            let ghost gx = s;
                            r.push(s);
                            proof {
                                crate::strutil::lemma_push_deep_view(pre, r, gx);
                                assert(r.deep_view() =~= spec_rewritten_mounts(
                                    vstate,
                                    vols.take(i + 1),
                                ));
                            }
                            taken = true;
                        }
                    }
                    if !taken {
                        let ghost pre = r;
                        let item = v.clone();
                        let ghost gx = item;
                        r.push(item);
                        proof {
                            crate::strutil::lemma_push_deep_view(pre, r, gx);
                            assert(r.deep_view() =~= spec_rewritten_mounts(
                                vstate,
                                vols.take(i + 1),
                            ));
                        }
                    }
                },
            }
            i = i + 1;
        }
        proof {
            assert(vols.take(svc.volumes.len() as int) =~= vols);
        }
        r
    }

    /// The runtime identifiers of the recorded networks this service
    /// attaches to: the default network, then the service's own.
    fn resolved_networks(&self, svc: &Service) -> (r: Vec<String>)
        ensures
            r.deep_view() == spec_resolved_networks(
                self@.state.networks,
                seq!["default"@] + svc@.networks,
            ),
    {
        let ghost nstate = self@.state.networks;
        let ghost names = seq!["default"@] + svc@.networks;
        let mut r: Vec<String> = Vec::new();
        proof {
            assert(names.take(0) =~= Seq::<Seq<char>>::empty());
            assert(r.deep_view() =~= spec_resolved_networks(nstate, names.take(0)));
        }
        match self.state.networks.get("default") {
            Some(id) => {
                let ghost pre = r;
                let item = id.clone();
                let ghost gx = item;
                r.push(item);
                proof {
                    crate::strutil::lemma_push_deep_view(pre, r, gx);
                    assert(names.take(1).drop_last() =~= names.take(0));
                    assert(names.take(1).last() == "default"@);
                    assert(r.deep_view() =~= spec_resolved_networks(nstate, names.take(1)));
                }
            },
            None => {
                proof {
                    assert(names.take(1).drop_last() =~= names.take(0));
                    assert(names.take(1).last() == "default"@);
                    assert(r.deep_view() =~= spec_resolved_networks(nstate, names.take(1)));
                }
            },
        }
        let ghost nets = svc@.networks;
        let mut j: usize = 0;
        while j < svc.networks.len()
            invariant
                nstate == self@.state.networks,
                names == seq!["default"@] + svc@.networks,
                nets == svc@.networks,
                nets.len() == svc.networks.len(),
                names.len() == 1 + nets.len(),
                forall|t: int| 0 <= t < svc.networks.len() ==> #[trigger] nets[t] == svc.networks[t]@,
                0 <= j <= svc.networks.len(),
                r.deep_view() == spec_resolved_networks(nstate, names.take(1 + j)),
            decreases svc.networks.len() - j,
        {
            proof {
                assert(names.take(2 + j).drop_last() =~= names.take(1 + j));
                assert(names.take(2 + j).last() == names[1 + j]);
                assert(names[1 + j] == nets[j as int]);
            }
            match self.state.networks.get(svc.networks[j].as_str()) {
                Some(id) => {
                    let ghost pre = r;
                    let item = id.clone();
                    let ghost gx = item;
                    r.push(item);
                    proof {
                        crate::strutil::lemma_push_deep_view(pre, r, gx);
                        assert(r.deep_view() =~= spec_resolved_networks(nstate, names.take(2 + j)));
                    }
                },
                None => {
                    proof {
                        assert(r.deep_view() =~= spec_resolved_networks(nstate, names.take(2 + j)));
                    }
                },
            }
            j = j + 1;
        }
        proof {
            assert(names.take(1 + svc.networks.len() as int) =~= names);
        }
        r
    }

    /// The containers one service's deployment creates, one per desired
    /// replica: each plan carries the namespaced container name, the
    /// image, the configuration, the membership labels and the resolved
    /// networks to attach.  A service that is not registered, or that
    /// has a build context instead of an image, or that has neither, is
    /// refused before any runtime call.
    pub fn container_plan(&self, service_name: &str) -> (r: Result<Vec<ContainerPlan>, StackError>)
        ensures
            ({
                let idx = svc_index(self@.definition.services, service_name@);
                match r {
                    Ok(plans) => {
                        let sv = self@.definition.services[idx];
                        let want = spec_replicas(
                            self@.definition.runtime_config.scale_policies,
                            service_name@,
                        );
                        &&& idx >= 0
                        &&& sv.image is Some
                        &&& plans.deep_view().len() == want
                        &&& forall|k: int|
                            0 <= k < want ==> #[trigger] plans.deep_view()[k]
                                == spec_container_plan(self@, sv, (k + 1) as u32)
                    },
                    Err(e) => match e {
                        StackError::ServiceNotFound { service } => idx == -1 && service@
                            == service_name@,
                        StackError::BuildNotSupported { service } => idx >= 0 && service@
                            == service_name@ && self@.definition.services[idx].image is None
                            && self@.definition.services[idx].build is Some,
                        StackError::NoImage { service } => idx >= 0 && service@ == service_name@
                            && self@.definition.services[idx].image is None
                            && self@.definition.services[idx].build is None,
                        _ => false,
                    },
                }
            }),
            r is Ok <==> svc_index(self@.definition.services, service_name@) >= 0
                && self@.definition.services[svc_index(self@.definition.services, service_name@)].image
                is Some,
    {
        let want = self.replicas_for(service_name);
        let svc = match self.definition.get_service(service_name) {
            Some(s) => s,
            None => {
                return Err(
                    StackError::ServiceNotFound { service: String::from_str(service_name) },
                );
            },
        };
        let image = match &svc.image {
            Some(img) => img.clone(),
            None => {
                if svc.build.is_some() {
                    return Err(
                        StackError::BuildNotSupported {
                            service: String::from_str(service_name),
                        },
                    );
                }
                return Err(StackError::NoImage { service: String::from_str(service_name) });
            },
        };
        let ghost sv = self@.definition.services[svc_index(
            self@.definition.services,
            service_name@,
        )];
        proof {
            lemma_svc_index(self@.definition.services, service_name@);
            assert(sv.name == service_name@);
        }
        let environment = crate::kv::kv_strings(&svc.environment);
        let volumes = self.rewritten_mounts(svc);
        let network_ids = self.resolved_networks(svc);
        let mut labels: Vec<String> = Vec::new();
        let mut l1 = String::from_str("com.docker.compose.project=");
        l1.append(self.definition.name.as_str());
        labels.push(l1);
        let mut l2 = String::from_str("com.docker.compose.service=");
        l2.append(svc.name.as_str());
        labels.push(l2);
        let mut own = crate::kv::kv_strings(&svc.labels);
        let ghost labels_pre = labels.deep_view();
        let ghost own_pre = own.deep_view();
        labels.append(&mut own);
        proof {
            assert(labels.deep_view() =~= labels_pre + own_pre);
            assert(labels.deep_view() =~= spec_container_labels(
                self@.definition.name,
                sv.name,
                sv.labels,
            ));
        }
        let mut plans: Vec<ContainerPlan> = Vec::new();
        let mut k: u32 = 0;
        proof {
            assert(plans.deep_view() =~= Seq::<ContainerPlanView>::empty());
        }
        while k < want
            invariant
                0 <= k <= want,
                sv == self@.definition.services[svc_index(
                    self@.definition.services,
                    service_name@,
                )],
                svc_index(self@.definition.services, service_name@) >= 0,
                sv.name == service_name@,
                sv.image is Some,
                image@ == sv.image->0,
                svc@ == sv,
                environment.deep_view() == crate::kv::spec_kv_strings(sv.environment),
                volumes.deep_view() == spec_rewritten_mounts(self@.state.volumes, sv.volumes),
                network_ids.deep_view() == spec_resolved_networks(
                    self@.state.networks,
                    seq!["default"@] + sv.networks,
                ),
                labels.deep_view() == spec_container_labels(
                    self@.definition.name,
                    sv.name,
                    sv.labels,
                ),
                plans.deep_view().len() == k,
                forall|t: int|
                    0 <= t < k ==> #[trigger] plans.deep_view()[t] == spec_container_plan(
                        self@,
                        sv,
                        (t + 1) as u32,
                    ),
            decreases want - k,
        {
            let name = container_name(
                self.definition.name.as_str(),
                service_name,
                (k as u64) + 1,
            );
            let plan = ContainerPlan {
                name,
                service: svc.name.clone(),
                replica: k + 1,
                image: image.clone(),
                command: svc.get_raw_command(),
                environment: crate::service::clone_string_vec(&environment),
                volumes: crate::service::clone_string_vec(&volumes),
                working_dir: crate::service::clone_opt_string(&svc.working_dir),
                hostname: crate::service::clone_opt_string(&svc.hostname),
                memory: crate::service::clone_opt_string(&svc.resources.memory),
                cpu_shares: svc.resources.cpu_shares,
                labels: crate::service::clone_string_vec(&labels),
                network_ids: crate::service::clone_string_vec(&network_ids),
            };
            proof {
                assert(plan@ == spec_container_plan(self@, sv, (k + 1) as u32));
            }
            let ghost pre = plans;
            let ghost gx = plan;
            plans.push(plan);
            proof {
                crate::strutil::lemma_push_deep_view(pre, plans, gx);
            }
            k = k + 1;
        }
        Ok(plans)
    }
}

/// What a health probe reported of one container.
#[derive(Debug, Clone, Copy, PartialEq, Eq, Structural)]
pub enum HealthState {
    Healthy,
    Unhealthy,
    /// The container defines no health check.
    NoHealthCheck,
    /// The probe gave no readable health field.
    Unknown,
}

/// What inspecting one container yielded.  An inspection that failed is
/// reported as the container not being found, never as an error of the
/// whole status query.
#[derive(Debug, Clone, Copy, PartialEq, Eq, Structural)]
pub enum InspectOutcome {
    NotFound,
    Info { running: bool, health: HealthState },
}

impl DeepView for InspectOutcome {
    type V = InspectOutcome;

    open spec fn deep_view(&self) -> InspectOutcome {
        *self
    }
}

/// The reported outcome for `id`, reading the first matching report; a
/// container nobody reported on counts as not found.
pub open spec fn spec_outcome_of(
    reports: Seq<(Seq<char>, InspectOutcome)>,
    id: Seq<char>,
) -> InspectOutcome {
    match kv_get(reports, id) {
        Some(o) => o,
        None => InspectOutcome::NotFound,
    }
}

/// Whether an outcome shows a running container.
pub open spec fn spec_is_running(o: InspectOutcome) -> bool {
    o matches InspectOutcome::Info { running: true, .. }
}

/// Whether an outcome shows the given health.
pub open spec fn spec_has_health(o: InspectOutcome, h: HealthState) -> bool {
    o matches InspectOutcome::Info { health, .. } && health == h
}

/// How many of `ids` have an outcome satisfying `f`.
pub open spec fn spec_count_matching(
    reports: Seq<(Seq<char>, InspectOutcome)>,
    ids: Seq<Seq<char>>,
    f: spec_fn(InspectOutcome) -> bool,
) -> nat
    decreases ids.len(),
{
    if ids.len() == 0 {
        0
    } else {
        spec_count_matching(reports, ids.drop_last(), f) + (if f(
            spec_outcome_of(reports, ids.last()),
        ) {
            1nat
        } else {
            0nat
        })
    }
}

/// The status of one tracked container, derived from its inspection.
#[derive(Debug)]
pub struct ContainerStatus {
    pub id: String,
    pub running: bool,
    pub health: HealthState,
    pub found: bool,
}

/// The mathematical value of a container status.
pub ghost struct ContainerStatusView {
    pub id: Seq<char>,
    pub running: bool,
    pub health: HealthState,
    pub found: bool,
}

impl View for ContainerStatus {
    type V = ContainerStatusView;

    open spec fn view(&self) -> ContainerStatusView {
        ContainerStatusView {
            id: self.id@,
            running: self.running,
            health: self.health,
            found: self.found,
        }
    }
}

impl DeepView for ContainerStatus {
    type V = ContainerStatusView;

    open spec fn deep_view(&self) -> ContainerStatusView {
        self@
    }
}

/// The status one container's report yields.
pub open spec fn spec_container_status(
    reports: Seq<(Seq<char>, InspectOutcome)>,
    id: Seq<char>,
) -> ContainerStatusView {
    match spec_outcome_of(reports, id) {
        InspectOutcome::NotFound => ContainerStatusView {
            id,
            running: false,
            health: HealthState::Unknown,
            found: false,
        },
        InspectOutcome::Info { running, health } => ContainerStatusView {
            id,
            running,
            health,
            found: true,
        },
    }
}

/// One service's aggregate in a status report.
#[derive(Debug)]
pub struct ServiceStatus {
    pub name: String,
    pub replicas: usize,
    pub running: usize,
    pub healthy: usize,
    pub unhealthy: usize,
    pub containers: Vec<ContainerStatus>,
}

/// The mathematical value of a service's aggregate.
pub ghost struct ServiceStatusView {
    pub name: Seq<char>,
    pub replicas: nat,
    pub running: nat,
    pub healthy: nat,
    pub unhealthy: nat,
    pub containers: Seq<ContainerStatusView>,
}

impl View for ServiceStatus {
    type V = ServiceStatusView;

    open spec fn view(&self) -> ServiceStatusView {
        ServiceStatusView {
            name: self.name@,
            replicas: self.replicas as nat,
            running: self.running as nat,
            healthy: self.healthy as nat,
            unhealthy: self.unhealthy as nat,
            containers: self.containers.deep_view(),
        }
    }
}

impl DeepView for ServiceStatus {
    type V = ServiceStatusView;

    open spec fn deep_view(&self) -> ServiceStatusView {
        self@
    }
}

/// What one service's aggregate must hold, given the reports.
pub open spec fn spec_service_status(
    v: StackView,
    reports: Seq<(Seq<char>, InspectOutcome)>,
    name: Seq<char>,
) -> ServiceStatusView {
    let ids = spec_ids(v.state.containers, name);
    ServiceStatusView {
        name,
        replicas: ids.len(),
        running: spec_count_matching(reports, ids, |o: InspectOutcome| spec_is_running(o)),
        healthy: spec_count_matching(
            reports,
            ids,
            |o: InspectOutcome| spec_has_health(o, HealthState::Healthy),
        ),
        unhealthy: spec_count_matching(
            reports,
            ids,
            |o: InspectOutcome| spec_has_health(o, HealthState::Unhealthy),
        ),
        containers: Seq::new(ids.len(), |k: int| spec_container_status(reports, ids[k])),
    }
}

/// A snapshot of the whole stack: the recorded status, each service's
/// aggregate, and resource counts.
#[derive(Debug)]
pub struct StatusReport {
    pub status: StackStatus,
    pub services: Vec<ServiceStatus>,
    pub total_containers: usize,
    pub networks: usize,
    pub volumes: usize,
}

/// The mathematical value of a status report.
pub ghost struct StatusReportView {
    pub status: StackStatus,
    pub services: Seq<ServiceStatusView>,
    pub total_containers: nat,
    pub networks: nat,
    pub volumes: nat,
}

impl View for StatusReport {
    type V = StatusReportView;

    open spec fn view(&self) -> StatusReportView {
        StatusReportView {
            status: self.status,
            services: self.services.deep_view(),
            total_containers: self.total_containers as nat,
            networks: self.networks as nat,
            volumes: self.volumes as nat,
        }
    }
}

/// Looks an identifier up among the reports; unreported means not found.
fn outcome_lookup(reports: &Vec<(String, InspectOutcome)>, id: &str) -> (r: InspectOutcome)
    ensures
        r == spec_outcome_of(reports.deep_view(), id@),
{
    let ghost m = reports.deep_view();
    let mut i: usize = 0;
    while i < reports.len()
        invariant
            m == reports.deep_view(),
            m.len() == reports.len(),
            forall|j: int|
                0 <= j < reports.len() ==> #[trigger] m[j] == ((reports[j].0)@, reports[j].1),
            0 <= i <= reports.len(),
            forall|j: int| 0 <= j < i ==> m[j].0 != id@,
        decreases reports.len() - i,
    {
        if crate::strutil::str_eq(reports[i].0.as_str(), id) {
            proof {
                crate::kv::lemma_kv_first_index_is(m, id@, i as int);
            }
            return reports[i].1;
        }
        i = i + 1;
    }
    proof {
        crate::kv::lemma_kv_first_index(m, id@);
        if crate::kv::kv_first_index(m, id@) != -1 {
            assert(m[crate::kv::kv_first_index(m, id@)].0 == id@);
        }
    }
    InspectOutcome::NotFound
}

impl Stack {
    /// Aggregates inspection reports into a status snapshot: the
    /// recorded status, and for every registered service its tracked
    /// replica count, how many are running, how many are healthy and
    /// unhealthy, and each container's detail.  A container that no
    /// report covers, or whose inspection failed, degrades to "not
    /// found" instead of failing the query.
    pub fn aggregate_status(&self, reports: &Vec<(String, InspectOutcome)>) -> (r: StatusReport)
        requires
            crate::state::spec_total(self@.state.containers) <= usize::MAX,
        ensures
            r@.status == self@.state.status,
            r@.networks == self@.state.networks.len(),
            r@.volumes == self@.state.volumes.len(),
            r@.total_containers == crate::state::spec_total(self@.state.containers),
            r@.services.len() == self@.definition.services.len(),
            forall|i: int|
                0 <= i < self@.definition.services.len() ==> #[trigger] r@.services[i]
                    == spec_service_status(
                    self@,
                    reports.deep_view(),
                    self@.definition.services[i].name,
                ),
    {
        let ghost reps = reports.deep_view();
        let ghost ss = self@.definition.services;
        let mut services: Vec<ServiceStatus> = Vec::new();
        let n = self.definition.services.len();
        let mut i: usize = 0;
        while i < n
            invariant
                reps == reports.deep_view(),
                ss == self@.definition.services,
                n == self.definition.services.len(),
                ss.len() == n,
                forall|j: int| 0 <= j < n ==> #[trigger] ss[j] == self.definition.services[j]@,
                0 <= i <= n,
                services.deep_view().len() == i,
                forall|j: int|
                    0 <= j < i ==> #[trigger] services.deep_view()[j] == spec_service_status(
                        self@,
                        reps,
                        ss[j].name,
                    ),
            decreases n - i,
        {
            let name = self.definition.services[i].name.clone();
            let ids = self.tracked_containers(name.as_str());
            let ghost gids = spec_ids(self@.state.containers, ss[i as int].name);
            let mut containers: Vec<ContainerStatus> = Vec::new();
            let mut running: usize = 0;
            let mut healthy: usize = 0;
            let mut unhealthy: usize = 0;
            let mut k: usize = 0;
            proof {
                assert(gids.take(0) =~= Seq::<Seq<char>>::empty());
            }
            while k < ids.len()
                invariant
                    reps == reports.deep_view(),
                    gids == ids.deep_view(),
                    gids.len() == ids.len(),
                    forall|t: int| 0 <= t < ids.len() ==> #[trigger] gids[t] == ids[t]@,
                    0 <= k <= ids.len(),
                    containers.deep_view().len() == k,
                    forall|t: int|
                        0 <= t < k ==> #[trigger] containers.deep_view()[t]
                            == spec_container_status(reps, gids[t]),
                    running == spec_count_matching(
                        reps,
                        gids.take(k as int),
                        |o: InspectOutcome| spec_is_running(o),
                    ),
                    healthy == spec_count_matching(
                        reps,
                        gids.take(k as int),
                        |o: InspectOutcome| spec_has_health(o, HealthState::Healthy),
                    ),
                    unhealthy == spec_count_matching(
                        reps,
                        gids.take(k as int),
                        |o: InspectOutcome| spec_has_health(o, HealthState::Unhealthy),
                    ),
                    running <= k && healthy <= k && unhealthy <= k,
                decreases ids.len() - k,
            {
                let outcome = outcome_lookup(reports, ids[k].as_str());
                proof {
                    assert(gids.take(k + 1).drop_last() =~= gids.take(k as int));
                    assert(gids.take(k + 1).last() == gids[k as int]);
                }
                let status = match outcome {
                    InspectOutcome::NotFound => ContainerStatus {
                        id: ids[k].clone(),
                        running: false,
                        health: HealthState::Unknown,
                        found: false,
                    },
                    InspectOutcome::Info { running: is_running, health } => {
                        if is_running {
                            running = running + 1;
                        }
                        if matches!(health, HealthState::Healthy) {
                            healthy = healthy + 1;
                        }
                        if matches!(health, HealthState::Unhealthy) {
                            unhealthy = unhealthy + 1;
                        }
                        ContainerStatus { id: ids[k].clone(), running: is_running, health, found: true }
                    },
                };
                let ghost pre = containers;
                let ghost gx = status;
                containers.push(status);
                proof {
                    crate::strutil::lemma_push_deep_view(pre, containers, gx);
                }
                k = k + 1;
            }
            proof {
                assert(gids.take(ids.len() as int) =~= gids);
                assert(containers.deep_view() =~= Seq::new(
                    gids.len(),
                    |t: int| spec_container_status(reps, gids[t]),
                ));
            }
            let entry = ServiceStatus {
                name,
                replicas: ids.len(),
                running,
                healthy,
                unhealthy,
                containers,
            };
            proof {
                assert(entry@ == spec_service_status(self@, reps, ss[i as int].name));
            }
            let ghost pre = services;
            let ghost gx = entry;
            services.push(entry);
            proof {
                crate::strutil::lemma_push_deep_view(pre, services, gx);
            }
            i = i + 1;
        }
        let total_containers = self.state.containers.total();
        let networks = self.state.networks.len();
        let volumes = self.state.volumes.len();
        StatusReport { status: self.state.status, services, total_containers, networks, volumes }
    }
}

/// The per-container log fetches a log query makes: one pair of service
/// name and container identifier for every tracked container of every
/// requested service, in order.
pub open spec fn spec_log_targets(v: StackView, requested: Seq<Seq<char>>) -> Seq<
    (Seq<char>, Seq<char>),
>
    decreases requested.len(),
{
    if requested.len() == 0 {
        Seq::empty()
    } else {
        let name = requested.last();
        let ids = spec_ids(v.state.containers, name);
        spec_log_targets(v, requested.drop_last()) + Seq::new(
            ids.len(),
            |k: int| (name, ids[k]),
        )
    }
}

/// The text a log query yields: each fetched text prefixed with its
/// owning service's name in brackets, one line per container, joined
/// with newlines.
pub open spec fn spec_format_logs(entries: Seq<(Seq<char>, Seq<char>)>) -> Seq<char> {
    crate::strutil::spec_join(
        Seq::new(entries.len(), |i: int| "["@ + entries[i].0 + "] "@ + entries[i].1),
        "\n"@,
    )
}

impl Stack {
    /// The (service, container) pairs a log query must fetch, for the
    /// requested services or for all of them; a service with nothing
    /// tracked contributes nothing rather than failing.
    pub fn log_targets(&self, services: Option<Vec<String>>) -> (r: Vec<(String, String)>)
        ensures
            ({
                let requested = match services {
                    Some(v) => v.deep_view(),
                    None => crate::definition::svc_names(self@.definition.services),
                };
                r.deep_view() == spec_log_targets(self@, requested)
            }),
    {
        let names: Vec<String> = match services {
            Some(v) => v,
            None => self.definition.get_service_names(),
        };
        let ghost req = names.deep_view();
        let mut r: Vec<(String, String)> = Vec::new();
        proof {
            assert(req.take(0) =~= Seq::<Seq<char>>::empty());
            assert(r.deep_view() =~= spec_log_targets(self@, req.take(0)));
        }
        let mut i: usize = 0;
        while i < names.len()
            invariant
                req == names.deep_view(),
                req.len() == names.len(),
                forall|j: int| 0 <= j < names.len() ==> #[trigger] req[j] == names[j]@,
                0 <= i <= names.len(),
                r.deep_view() == spec_log_targets(self@, req.take(i as int)),
            decreases names.len() - i,
        {
            let ids = self.tracked_containers(names[i].as_str());
            let ghost gids = spec_ids(self@.state.containers, req[i as int]);
            let ghost base = r.deep_view();
            let mut k: usize = 0;
            while k < ids.len()
                invariant
                    gids == ids.deep_view(),
                    gids.len() == ids.len(),
                    forall|t: int| 0 <= t < ids.len() ==> #[trigger] gids[t] == ids[t]@,
                    req.len() == names.len(),
                    0 <= i < names.len(),
                    forall|j: int| 0 <= j < names.len() ==> #[trigger] req[j] == names[j]@,
                    0 <= k <= ids.len(),
                    r.deep_view() =~= base + Seq::new(k as nat, |t: int| (req[i as int], gids[t])),
                decreases ids.len() - k,
            {
                let ghost pre = r;
                let item = (names[i].clone(), ids[k].clone());
                let ghost gx = item;
                r.push(item);
                proof {
                    crate::strutil::lemma_push_deep_view(pre, r, gx);
                    assert(r.deep_view() =~= base + Seq::new(
                        (k + 1) as nat,
                        |t: int| (req[i as int], gids[t]),
                    ));
                }
                k = k + 1;
            }
            proof {
                assert(req.take(i + 1).drop_last() =~= req.take(i as int));
                assert(req.take(i + 1).last() == req[i as int]);
                assert(r.deep_view() =~= spec_log_targets(self@, req.take(i + 1)));
            }
            i = i + 1;
        }
        proof {
            assert(req.take(names.len() as int) =~= req);
        }
        r
    }

    /// Joins fetched log texts into one report, each line prefixed with
    /// the owning service's name.
    pub fn format_logs(entries: &Vec<(String, String)>) -> (r: String)
        ensures
            r@ == spec_format_logs(entries.deep_view()),
    {
        let ghost es = entries.deep_view();
        let mut lines: Vec<String> = Vec::new();
        let mut i: usize = 0;
        while i < entries.len()
            invariant
                es == entries.deep_view(),
                es.len() == entries.len(),
                forall|j: int|
                    0 <= j < entries.len() ==> #[trigger] es[j] == ((entries[j].0)@, (entries[
                    j].1)@),
                0 <= i <= entries.len(),
                lines.deep_view().len() == i,
                forall|j: int|
                    0 <= j < i ==> #[trigger] lines.deep_view()[j] == "["@ + es[j].0 + "] "@
                        + es[j].1,
            decreases entries.len() - i,
        {
            let mut line = String::from_str("[");
            line.append(entries[i].0.as_str());
            line.append("] ");
            line.append(entries[i].1.as_str());
            let ghost pre = lines;
            let ghost gx = line;
            lines.push(line);
            proof {
                crate::strutil::lemma_push_deep_view(pre, lines, gx);
            }
            i = i + 1;
        }
        proof {
            assert(lines.deep_view() =~= Seq::new(
                es.len(),
                |j: int| "["@ + es[j].0 + "] "@ + es[j].1,
            ));
        }
        crate::strutil::join(&lines, "\n")
    }
}

/// One line per item: the prefix, the item, the suffix.
pub open spec fn spec_item_lines(items: Seq<Seq<char>>, pre: Seq<char>, post: Seq<char>) -> Seq<
    char,
>
    decreases items.len(),
{
    if items.len() == 0 {
        Seq::empty()
    } else {
        spec_item_lines(items.drop_last(), pre, post) + pre + items.last() + post
    }
}

/// One indented `key: value` line per entry.
pub open spec fn spec_env_lines(env: Seq<(Seq<char>, Seq<char>)>) -> Seq<char>
    decreases env.len(),
{
    if env.len() == 0 {
        Seq::empty()
    } else {
        spec_env_lines(env.drop_last()) + "      "@ + env.last().0 + ": "@ + env.last().1 + "\n"@
    }
}

/// The heading line of a service's block.
pub open spec fn y_head(s: ServiceView) -> Seq<char> {
    "  "@ + s.name + ":\n"@
}

/// The image line of a service's block, when an image is set.
pub open spec fn y_image(s: ServiceView) -> Seq<char> {
    match s.image {
        Some(i) => "    image: "@ + i + "\n"@,
        None => Seq::empty(),
    }
}

/// The ports section of a service's block.
pub open spec fn y_ports(s: ServiceView) -> Seq<char> {
    if s.ports.len() > 0 {
        "    ports:\n"@ + spec_item_lines(s.ports, "      - \""@, "\"\n"@)
    } else {
        Seq::empty()
    }
}

/// The environment section of a service's block.
pub open spec fn y_env(s: ServiceView) -> Seq<char> {
    if s.environment.len() > 0 {
        "    environment:\n"@ + spec_env_lines(s.environment)
    } else {
        Seq::empty()
    }
}

/// The volumes section of a service's block.
pub open spec fn y_vols(s: ServiceView) -> Seq<char> {
    if s.volumes.len() > 0 {
        "    volumes:\n"@ + spec_item_lines(s.volumes, "      - "@, "\n"@)
    } else {
        Seq::empty()
    }
}

/// The restart line of a service's block, when a policy is set.
pub open spec fn y_restart(s: ServiceView) -> Seq<char> {
    match s.restart_policy {
        Some(r) => "    restart: "@ + r + "\n"@,
        None => Seq::empty(),
    }
}

/// The dependencies section of a service's block.
pub open spec fn y_deps(s: ServiceView) -> Seq<char> {
    if s.depends_on.len() > 0 {
        "    depends_on:\n"@ + spec_item_lines(s.depends_on, "      - "@, "\n"@)
    } else {
        Seq::empty()
    }
}

/// One service's block in the exported document.
pub open spec fn spec_yaml_service(s: ServiceView) -> Seq<char> {
    y_head(s) + y_image(s) + y_ports(s) + y_env(s) + y_vols(s) + y_restart(s) + y_deps(s)
}

/// The service blocks of the exported document, in registration order.
pub open spec fn spec_yaml_services(ss: Seq<ServiceView>) -> Seq<char>
    decreases ss.len(),
{
    if ss.len() == 0 {
        Seq::empty()
    } else {
        spec_yaml_services(ss.drop_last()) + spec_yaml_service(ss.last())
    }
}

/// The exported document: a version header and one block per service.
pub open spec fn spec_to_yaml(ss: Seq<ServiceView>) -> Seq<char> {
    "version: '3.8'\nservices:\n"@ + spec_yaml_services(ss)
}

/// Appends one line per item: the prefix, the item, the suffix.
fn append_item_lines(out: &mut String, items: &Vec<String>, pre: &str, post: &str)
    ensures
        final(out)@ == old(out)@ + spec_item_lines(items.deep_view(), pre@, post@),
{
    let ghost base = out@;
    let ghost dv = items.deep_view();
    let mut i: usize = 0;
    proof {
        assert(base + spec_item_lines(dv.take(0), pre@, post@) =~= base);
    }
    while i < items.len()
        invariant
            dv == items.deep_view(),
            dv.len() == items.len(),
            forall|j: int| 0 <= j < items.len() ==> #[trigger] dv[j] == items[j]@,
            0 <= i <= items.len(),
            out@ == base + spec_item_lines(dv.take(i as int), pre@, post@),
        decreases items.len() - i,
    {
        out.append(pre);
        out.append(items[i].as_str());
        out.append(post);
        proof {
            assert(dv.take(i + 1).drop_last() =~= dv.take(i as int));
            assert(dv.take(i + 1).last() == dv[i as int]);
            assert(out@ =~= base + spec_item_lines(dv.take(i + 1), pre@, post@));
        }
        i = i + 1;
    }
    proof {
        assert(dv.take(items.len() as int) =~= dv);
    }
}

/// Appends one indented `key: value` line per entry.
fn append_env_lines(out: &mut String, m: &crate::kv::StrMap)
    ensures
        final(out)@ == old(out)@ + spec_env_lines(m@),
{
    let ghost base = out@;
    let ghost mv = m@;
    let items = m.items();
    let mut i: usize = 0;
    proof {
        assert(base + spec_env_lines(mv.take(0)) =~= base);
    }
    while i < items.len()
        invariant
            mv == items.deep_view(),
            mv.len() == items.len(),
            forall|j: int|
                0 <= j < items.len() ==> #[trigger] mv[j] == ((items[j].0)@, (items[j].1)@),
            0 <= i <= items.len(),
            out@ == base + spec_env_lines(mv.take(i as int)),
        decreases items.len() - i,
    {
        out.append("      ");
        out.append(items[i].0.as_str());
        out.append(": ");
        out.append(items[i].1.as_str());
        out.append("\n");
        proof {
            assert(mv.take(i + 1).drop_last() =~= mv.take(i as int));
            assert(mv.take(i + 1).last() == mv[i as int]);
            assert(out@ =~= base + spec_env_lines(mv.take(i + 1)));
        }
        i = i + 1;
    }
    proof {
        assert(mv.take(items.len() as int) =~= mv);
    }
}

/// Appends the heading line.
fn append_y_head(out: &mut String, svc: &Service)
    ensures
        final(out)@ == old(out)@ + y_head(svc@),
{
    let ghost base = out@;
    out.append("  ");
    out.append(svc.name.as_str());
    out.append(":\n");
    proof {
        assert(out@ =~= base + y_head(svc@));
    }
}

/// Appends the image line, when an image is set.
fn append_y_image(out: &mut String, svc: &Service)
    ensures
        final(out)@ == old(out)@ + y_image(svc@),
{
    let ghost base = out@;
    if let Some(image) = &svc.image {
        out.append("    image: ");
        out.append(image.as_str());
        out.append("\n");
    }
    proof {
        assert(out@ =~= base + y_image(svc@));
    }
}

/// Appends the ports section.
fn append_y_ports(out: &mut String, svc: &Service)
    ensures
        final(out)@ == old(out)@ + y_ports(svc@),
{
    let ghost base = out@;
    if svc.ports.len() > 0 {
        out.append("    ports:\n");
        append_item_lines(out, &svc.ports, "      - \"", "\"\n");
    }
    proof {
        assert(out@ =~= base + y_ports(svc@));
    }
}

/// Appends the environment section.
fn append_y_env(out: &mut String, svc: &Service)
    ensures
        final(out)@ == old(out)@ + y_env(svc@),
{
    let ghost base = out@;
    if svc.environment.len() > 0 {
        out.append("    environment:\n");
        append_env_lines(out, &svc.environment);
    }
    proof {
        assert(out@ =~= base + y_env(svc@));
    }
}

/// Appends the volumes section.
fn append_y_vols(out: &mut String, svc: &Service)
    ensures
        final(out)@ == old(out)@ + y_vols(svc@),
{
    let ghost base = out@;
    if svc.volumes.len() > 0 {
        out.append("    volumes:\n");
        append_item_lines(out, &svc.volumes, "      - ", "\n");
    }
    proof {
        assert(out@ =~= base + y_vols(svc@));
    }
}

/// Appends the restart line, when a policy is set.
fn append_y_restart(out: &mut String, svc: &Service)
    ensures
        final(out)@ == old(out)@ + y_restart(svc@),
{
    let ghost base = out@;
    if let Some(rp) = &svc.restart_policy {
        out.append("    restart: ");
        out.append(rp.as_str());
        out.append("\n");
    }
    proof {
        assert(out@ =~= base + y_restart(svc@));
    }
}

/// Appends the dependencies section.
fn append_y_deps(out: &mut String, svc: &Service)
    ensures
        final(out)@ == old(out)@ + y_deps(svc@),
{
    let ghost base = out@;
    if svc.depends_on.len() > 0 {
        out.append("    depends_on:\n");
        append_item_lines(out, &svc.depends_on, "      - ", "\n");
    }
    proof {
        assert(out@ =~= base + y_deps(svc@));
    }
}

/// Appends one service's block.
fn append_yaml_service(out: &mut String, svc: &Service)
    ensures
        final(out)@ == old(out)@ + spec_yaml_service(svc@),
{
    let ghost base = out@;
    append_y_head(out, svc);
    append_y_image(out, svc);
    append_y_ports(out, svc);
    append_y_env(out, svc);
    append_y_vols(out, svc);
    append_y_restart(out, svc);
    append_y_deps(out, svc);
    proof {
        assert(out@ =~= base + spec_yaml_service(svc@));
    }
}

impl Stack {
    /// Exports the registered services as a compose-style document: a
    /// version header, then per service its image, ports, environment,
    /// volumes, restart policy and dependencies, exactly as the
    /// definition holds them.
    pub fn to_yaml(&self) -> (r: String)
        ensures
            r@ == spec_to_yaml(self@.definition.services),
    {
        let ghost ss = self@.definition.services;
        let mut out = String::from_str("version: '3.8'\nservices:\n");
        let ghost header = out@;
        proof {
            assert(out@ =~= header + spec_yaml_services(ss.take(0)));
        }
        let n = self.definition.services.len();
        let mut i: usize = 0;
        while i < n
            invariant
                ss == self.definition.services.deep_view(),
                n == self.definition.services.len(),
                ss.len() == n,
                forall|j: int| 0 <= j < n ==> #[trigger] ss[j] == self.definition.services[j]@,
                0 <= i <= n,
                out@ == header + spec_yaml_services(ss.take(i as int)),
            decreases n - i,
        {
            append_yaml_service(&mut out, &self.definition.services[i]);
            proof {
                assert(ss.take(i + 1).drop_last() =~= ss.take(i as int));
                assert(ss.take(i + 1).last() == ss[i as int]);
                assert(out@ =~= header + spec_yaml_services(ss.take(i + 1)));
            }
            i = i + 1;
        }
        proof {
            assert(ss.take(n as int) =~= ss);
        }
        out
    }
}

} // verus!
