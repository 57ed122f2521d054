//! The runtime state of a stack: which containers, networks and volumes
//! have actually been materialized, and the overall status.

use vstd::prelude::*;
use vstd::string::StringExecFns;
use crate::kv::StrMap;
use crate::kv::kv_first_index;
use crate::kv::kv_get;
use crate::kv::kv_insert;
use crate::kv::lemma_kv_first_index;
use crate::kv::lemma_kv_first_index_is;
use crate::strutil::str_eq;

verus! {

/// Where a stack stands in its lifecycle.
#[derive(Debug, Clone, Copy, PartialEq, Eq, Structural)]
pub enum StackStatus {
    NotDeployed,
    Deploying,
    Running,
    PartiallyRunning,
    Stopped,
    Failed,
}

impl Default for StackStatus {
    /// A stack starts out not deployed.
    fn default() -> (r: StackStatus)
        ensures
            r == StackStatus::NotDeployed,
    {
        StackStatus::NotDeployed
    }
}

/// An insertion-ordered map from service names to the identifiers of
/// their live containers, in creation order.
#[derive(Debug)]
pub struct ContainerMap {
    entries: Vec<(String, Vec<String>)>,
}

impl View for ContainerMap {
    type V = Seq<(Seq<char>, Seq<Seq<char>>)>;

    closed spec fn view(&self) -> Seq<(Seq<char>, Seq<Seq<char>>)> {
        self.entries.deep_view()
    }
}

impl ContainerMap {
    /// An empty map.
    pub fn new() -> (m: ContainerMap)
        ensures
            m@ =~= Seq::<(Seq<char>, Seq<Seq<char>>)>::empty(),
    {
        ContainerMap { entries: Vec::new() }
    }

    /// The number of services that have tracked containers.
    pub fn len(&self) -> (n: usize)
        ensures
            n == self@.len(),
    {
        self.entries.len()
    }

    /// The index of the first entry whose key is `k`, if any.
    fn find_index(&self, k: &str) -> (r: Option<usize>)
        ensures
            match r {
                Some(i) => i < self@.len() && kv_first_index(self@, k@) == i as int,
                None => kv_first_index(self@, k@) == -1,
            },
    {
        let mut i: usize = 0;
        let n = self.entries.len();
        while i < n
            invariant
                n == self.entries.len(),
                self@ == self.entries.deep_view(),
                self@.len() == n,
                forall|j: int|
                    0 <= j < n ==> #[trigger] self@[j] == ((self.entries[j].0)@, self.entries[
                    j].1.deep_view()),
                0 <= i <= n,
                forall|j: int| 0 <= j < i ==> self@[j].0 != k@,
            decreases n - i,
        {
            if str_eq(self.entries[i].0.as_str(), k) {
                proof {
                    lemma_kv_first_index_is(self@, k@, i as int);
                }
                return Some(i);
            }
            i = i + 1;
        }
        proof {
            lemma_kv_first_index(self@, k@);
            if kv_first_index(self@, k@) != -1 {
                assert(self@[kv_first_index(self@, k@)].0 == k@);
            }
        }
        None
    }

    /// The tracked container identifiers of a service, if any.
    pub fn get(&self, k: &str) -> (r: Option<&Vec<String>>)
        ensures
            match r {
                Some(v) => kv_get(self@, k@) == Some(v.deep_view()),
                None => kv_get(self@, k@) is None,
            },
    {
        match self.find_index(k) {
            Some(i) => {
                proof {
                    lemma_kv_first_index(self@, k@);
                    assert(self@[i as int] == ((self.entries[i as int].0)@, self.entries[
                        i as int].1.deep_view()));
                }
                Some(&self.entries[i].1)
            },
            None => None,
        }
    }

    /// The number of containers tracked for a service; zero when none are.
    pub fn count(&self, k: &str) -> (n: usize)
        ensures
            n == spec_count(self@, k@),
    {
        match self.get(k) {
            Some(v) => v.len(),
            None => 0,
        }
    }

    /// Appends one container identifier to a service's list, starting the
    /// list when the service has none yet.
    pub fn push_id(&mut self, service: String, id: String)
        ensures
            final(self)@ == kv_insert(
                old(self)@,
                (service@, spec_ids(old(self)@, service@).push(id@)),
            ),
            kv_get(final(self)@, service@) == Some(spec_ids(old(self)@, service@).push(id@)),
            forall|k2: Seq<char>|
                k2 != service@ ==> kv_get(final(self)@, k2) == kv_get(old(self)@, k2),
    {
        let ghost m0 = self@;
        let idx = self.find_index(service.as_str());
        match idx {
            Some(i) => {
                proof {
                    lemma_kv_first_index(m0, service@);
                }
                let ghost prev = self.entries[i as int].1;
                let ghost gid = id;
                self.entries[i].1.push(id);
                proof {
                    crate::strutil::lemma_push_deep_view(prev, self.entries[i as int].1, gid);
                    assert(self@ =~= m0.update(
                        i as int,
                        ((self.entries[i as int].0)@, self.entries[i as int].1.deep_view()),
                    ));
                    crate::kv::lemma_kv_first_index_update(
                        m0,
                        (self.entries[i as int].0)@,
                        i as int,
                        self@[i as int],
                    );
                    assert forall|k2: Seq<char>|
                        k2 != (self.entries[i as int].0)@ implies kv_get(self@, k2) == kv_get(
                        m0,
                        k2,
                    ) by {
                        crate::kv::lemma_kv_get_other_update(m0, i as int, self@[i as int], k2);
                    }
                }
            },
            None => {
                let mut ids: Vec<String> = Vec::new();
                let ghost empty_ids = ids;
                let ghost gid = id;
                ids.push(id);
                proof {
                    crate::strutil::lemma_push_deep_view(empty_ids, ids, gid);
                    assert(empty_ids.deep_view() =~= Seq::<Seq<char>>::empty());
                }
                self.entries.push((service, ids));
                proof {
                    let n = m0.len() as int;
                    assert(self@ =~= m0.push(((self.entries[n].0)@, self.entries[
                        n].1.deep_view())));
                    crate::kv::lemma_kv_first_index_push(m0, (self.entries[n].0)@, self@[n]);
                    assert(spec_ids(m0, (self.entries[n].0)@).push(gid@) =~= self.entries[
                        n].1.deep_view());
                    assert forall|k2: Seq<char>|
                        k2 != (self.entries[n].0)@ implies kv_get(self@, k2) == kv_get(m0, k2) by {
                        crate::kv::lemma_kv_get_other_push(m0, self@[n], k2);
                    }
                }
            },
        }
    }

    /// Shortens a service's list to its first `keep` identifiers.  A
    /// service with no tracked containers is left untracked.
    pub fn truncate_ids(&mut self, service: &str, keep: usize)
        ensures
            ({
                let i = kv_first_index(old(self)@, service@);
                if i == -1 {
                    final(self)@ == old(self)@
                } else {
                    final(self)@ == old(self)@.update(
                        i,
                        (service@, spec_ids(old(self)@, service@).take(
                            vstd::math::min(keep as int, spec_ids(old(self)@, service@).len() as int),
                        )),
                    )
                }
            }),
            kv_first_index(old(self)@, service@) != -1 ==> kv_get(final(self)@, service@) == Some(
                spec_ids(old(self)@, service@).take(
                    vstd::math::min(keep as int, spec_ids(old(self)@, service@).len() as int),
                ),
            ),
            forall|k2: Seq<char>|
                k2 != service@ ==> kv_get(final(self)@, k2) == kv_get(old(self)@, k2),
    {
        let ghost m0 = self@;
        match self.find_index(service) {
            None => {
                proof {
                    lemma_kv_first_index(m0, service@);
                    assert forall|k2: Seq<char>| k2 != service@ implies kv_get(self@, k2) == kv_get(
                        m0,
                        k2,
                    ) by {}
                }
            },
            Some(i) => {
                proof {
                    lemma_kv_first_index(m0, service@);
                }
                let ghost prev = self.entries[i as int].1;
                self.entries[i].1.truncate(keep);
                proof {
                    let kept = self.entries[i as int].1;
                    let ids0 = spec_ids(m0, service@);
                    if keep as int <= prev@.len() {
                        assert(kept@ == prev@.subrange(0, keep as int));
                        assert(kept.deep_view() =~= ids0.take(keep as int)) by {
                            assert forall|t: int| 0 <= t < kept@.len() implies kept.deep_view()[t]
                                == ids0.take(keep as int)[t] by {
                                assert(kept@[t] == prev@[t]);
                            }
                        }
                    } else {
                        assert(kept@ == prev@);
                        assert(kept.deep_view() =~= ids0.take(ids0.len() as int)) by {
                            assert forall|t: int| 0 <= t < kept@.len() implies kept.deep_view()[t]
                                == ids0.take(ids0.len() as int)[t] by {
                                assert(kept@[t] == prev@[t]);
                            }
                        }
                    }
                    assert(self@ =~= m0.update(
                        i as int,
                        ((self.entries[i as int].0)@, self.entries[i as int].1.deep_view()),
                    ));
                    crate::kv::lemma_kv_first_index_update(
                        m0,
                        (self.entries[i as int].0)@,
                        i as int,
                        self@[i as int],
                    );
                    assert forall|k2: Seq<char>|
                        k2 != (self.entries[i as int].0)@ implies kv_get(self@, k2) == kv_get(
                        m0,
                        k2,
                    ) by {
                        crate::kv::lemma_kv_get_other_update(m0, i as int, self@[i as int], k2);
                    }
                }
            },
        }
    }

    /// The entries, in insertion order.
    pub fn items(&self) -> (r: &Vec<(String, Vec<String>)>)
        ensures
            r.deep_view() == self@,
    {
        &self.entries
    }

    /// The total number of tracked containers across all services.
    pub fn total(&self) -> (n: usize)
        requires
            spec_total(self@) <= usize::MAX,
        ensures
            n == spec_total(self@),
    {
        let mut n: usize = 0;
        let mut i: usize = 0;
        while i < self.entries.len()
            invariant
                self@ == self.entries.deep_view(),
                self@.len() == self.entries.len(),
                forall|j: int|
                    0 <= j < self.entries.len() ==> #[trigger] self@[j] == ((self.entries[j].0)@,
                    self.entries[j].1.deep_view()),
                spec_total(self@) <= usize::MAX,
                0 <= i <= self.entries.len(),
                n == spec_total(self@.take(i as int)),
            decreases self.entries.len() - i,
        {
            proof {
                lemma_sum_remaining_step(self@, i as int);
                lemma_total_split(self@, i as int);
                assert(self.entries[i as int].1.deep_view().len() == self.entries[
                    i as int].1@.len());
            }
            n = n + self.entries[i].1.len();
            i = i + 1;
        }
        proof {
            assert(self@.take(self@.len() as int) =~= self@);
        }
        n
    }
}

/// The mathematical value of a stack's runtime state.
pub ghost struct StackStateView {
    pub containers: Seq<(Seq<char>, Seq<Seq<char>>)>,
    pub networks: Seq<(Seq<char>, Seq<char>)>,
    pub volumes: Seq<(Seq<char>, Seq<char>)>,
    pub status: StackStatus,
}

/// What has actually been materialized for a stack: live container
/// identifiers per service, runtime identifiers of networks and
/// volumes, and the overall status.
#[derive(Debug)]
pub struct StackState {
    pub containers: ContainerMap,
    pub networks: StrMap,
    pub volumes: StrMap,
    pub status: StackStatus,
}

impl View for StackState {
    type V = StackStateView;

    open spec fn view(&self) -> StackStateView {
        StackStateView {
            containers: self.containers@,
            networks: self.networks@,
            volumes: self.volumes@,
            status: self.status,
        }
    }
}

/// The empty runtime state: nothing tracked, not deployed.
pub open spec fn spec_state_empty() -> StackStateView {
    StackStateView {
        containers: Seq::empty(),
        networks: Seq::empty(),
        volumes: Seq::empty(),
        status: StackStatus::NotDeployed,
    }
}

impl Default for StackState {
    /// The empty runtime state.
    fn default() -> (r: StackState)
        ensures
            r@ == spec_state_empty(),
    {
        let r = StackState {
            containers: ContainerMap::new(),
            networks: StrMap::new(),
            volumes: StrMap::new(),
            status: StackStatus::NotDeployed,
        };
        r
    }
}

/// The identifiers tracked for `service` in `m`; an untracked service
/// has none.
pub open spec fn spec_ids(m: Seq<(Seq<char>, Seq<Seq<char>>)>, service: Seq<char>) -> Seq<
    Seq<char>,
> {
    match kv_get(m, service) {
        Some(ids) => ids,
        None => Seq::empty(),
    }
}

/// The number of identifiers tracked for `service` in `m`.
pub open spec fn spec_count(m: Seq<(Seq<char>, Seq<Seq<char>>)>, service: Seq<char>) -> nat {
    spec_ids(m, service).len()
}

/// The total number of identifiers tracked in `m`.
pub open spec fn spec_total(m: Seq<(Seq<char>, Seq<Seq<char>>)>) -> nat
    decreases m.len(),
{
    if m.len() == 0 {
        0
    } else {
        spec_total(m.drop_last()) + m.last().1.len()
    }
}

/// Room left for the rest of the entries, used to show the running total
/// fits in a machine word.
pub open spec fn sum_remaining_cap(m: Seq<(Seq<char>, Seq<Seq<char>>)>, i: int) -> nat
    decreases m.len() - i,
{
    if i < 0 || i >= m.len() {
        0
    } else {
        m[i].1.len() + sum_remaining_cap(m, i + 1)
    }
}

proof fn lemma_sum_remaining_step(m: Seq<(Seq<char>, Seq<Seq<char>>)>, i: int)
    requires
        0 <= i < m.len(),
    ensures
        sum_remaining_cap(m, i) == m[i].1.len() + sum_remaining_cap(m, i + 1),
        spec_total(m.take(i + 1)) == spec_total(m.take(i)) + m[i].1.len(),
{
    assert(m.take(i + 1).drop_last() =~= m.take(i));
    assert(m.take(i + 1).last() == m[i]);
}

/// The total splits into the counted prefix and the remaining entries.
proof fn lemma_total_split(m: Seq<(Seq<char>, Seq<Seq<char>>)>, i: int)
    requires
        0 <= i <= m.len(),
    ensures
        spec_total(m) == spec_total(m.take(i)) + sum_remaining_cap(m, i),
    decreases m.len() - i,
{
    if i == m.len() {
        assert(m.take(i) =~= m);
    } else {
        lemma_sum_remaining_step(m, i);
        lemma_total_split(m, i + 1);
    }
}

} // verus!
