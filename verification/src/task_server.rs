use std::collections::HashMap;
use std::sync::{Arc, RwLock};
use vstd::prelude::*;

verus! {

broadcast use vstd::std_specs::hash::group_hash_axioms;

#[derive(Clone, Copy, Debug, PartialEq, Eq, Structural)]
pub enum TaskState {
    Created,
    Running,
    Finished,
}

#[verifier::external_type_specification]
#[verifier::external_body]
#[verifier::reject_recursive_types(T)]
pub struct ExRwLock<T: ?Sized>(RwLock<T>);

/// A new lock holding `state`: calls `std::sync::RwLock::new`. The lock is
/// opaque; its content is only read back through `lock_read`.
#[verifier::external_body]
fn lock_new(state: TaskState) -> RwLock<TaskState> {
    RwLock::new(state)
}

/// The state the lock holds now: calls `std::sync::RwLock::read` (a lock
/// poisoned by a panicking writer still hands out its content). Nothing is
/// claimed of the result: any handle to the lock, on any thread, may have
/// written it since.
#[verifier::external_body]
fn lock_read(lock: &RwLock<TaskState>) -> TaskState {
    match lock.read() {
        Ok(guard) => *guard,
        Err(poisoned) => *poisoned.into_inner(),
    }
}

/// Store `state` in the lock: calls `std::sync::RwLock::write` (through a
/// poisoned lock too). The lock is opaque, so nothing is claimed of the
/// store; every handle to the lock sees it on its next read.
#[verifier::external_body]
fn lock_write(lock: &RwLock<TaskState>, state: TaskState) {
    match lock.write() {
        Ok(mut guard) => *guard = state,
        Err(poisoned) => *poisoned.into_inner() = state,
    }
}

/// A named unit of background work and its progress. The progress sits
/// behind a lock, so that every handle to the task, on any thread, sees the
/// same state.
pub struct Task {
    idx: usize,
    name: String,
    state: RwLock<TaskState>,
}

impl View for Task {
    type V = (usize, Seq<char>);

    closed spec fn view(&self) -> (usize, Seq<char>) {
        (self.idx, self.name@)
    }
}

/// Another handle to the same task: calls `Arc::clone`, which shares the
/// allocation, so the handle is the very task it was made from.
#[verifier::external_body]
fn share(task: &Arc<Task>) -> (r: Arc<Task>)
    ensures
        r == *task,
{
    Arc::clone(task)
}

impl Task {
    pub fn get_name(&self) -> (r: String)
        ensures
            r@ == self@.1,
    {
        self.name.clone()
    }

    /// The current progress of the task. Any thread that holds it may
    /// change it at any moment, so no contract can fix what is read.
    pub fn get_state(&self) -> TaskState {
        lock_read(&self.state)
    }

    /// Move the task to `state`, for everyone who holds it; number and name
    /// stay as they are.
    pub fn set_state(&self, state: TaskState) {
        lock_write(&self.state, state)
    }

    pub fn get_idx(&self) -> (r: usize)
        ensures
            r == self@.0,
    {
        self.idx
    }
}

/// The registry of running tasks: each task is filed under the number it was
/// given when registered, numbers are handed out in increasing order, and a
/// task leaves the registry when it finishes. The registry and whoever runs
/// a task share the task itself, so a state set by one is seen by the other.
pub struct TaskServer {
    tasks: HashMap<usize, Arc<Task>>,
    index: usize,
}

impl TaskServer {
    #[verifier::type_invariant]
    spec fn inv(self) -> bool {
        forall|k: usize| #[trigger] self.tasks@.contains_key(k) ==> k < self.index && self.tasks@[k]@.0 == k
    }

    /// The tasks in the registry: number to name.
    pub closed spec fn tasks(&self) -> Map<usize, Seq<char>> {
        Map::new(|k: usize| self.tasks@.contains_key(k), |k: usize| self.tasks@[k]@.1)
    }

    /// The task filed under number `k` (meaningful where `tasks()` has `k`).
    pub closed spec fn task(&self, k: usize) -> Arc<Task> {
        self.tasks@[k]
    }

    /// The number the next registered task receives.
    pub closed spec fn next_index(&self) -> usize {
        self.index
    }

    pub fn new() -> (r: Self)
        ensures
            r.tasks() == Map::<usize, Seq<char>>::empty(),
            r.next_index() == 0,
    {
        let r = TaskServer { tasks: HashMap::new(), index: 0 };
        assert(r.tasks() =~= Map::<usize, Seq<char>>::empty());
        r
    }

    /// Register a new task named `name` in state `Created`; returns a handle
    /// to it, shared with the registry.
    pub fn register(&mut self, name: &String) -> (r: Arc<Task>)
        requires
            old(self).next_index() < usize::MAX,
        ensures
            r@ == (old(self).next_index(), name@),
            final(self).next_index() == old(self).next_index() + 1,
            !old(self).tasks().contains_key(r@.0),
            final(self).tasks() == old(self).tasks().insert(r@.0, name@),
            final(self).task(r@.0) == r,
            forall|k: usize| k != r@.0 ==> #[trigger] final(self).task(k) == old(self).task(k),
    {
        proof {
            use_type_invariant(&*self);
        }
        let id = self.index;
        let task = Arc::new(Task { idx: id, name: name.clone(), state: lock_new(TaskState::Created) });
        let filed = share(&task);
        let mut tasks = HashMap::new();
        std::mem::swap(&mut tasks, &mut self.tasks);
        tasks.insert(id, filed);
        self.index = id + 1;
        self.tasks = tasks;
        assert(self.tasks() =~= old(self).tasks().insert(id, name@));
        task
    }

    /// Register a new task as `register` does, or `None` when the numbers
    /// are used up.
    pub fn try_register(&mut self, name: &String) -> (r: Option<Arc<Task>>)
        ensures
            r is None <==> old(self).next_index() == usize::MAX,
            r is None ==> final(self).tasks() == old(self).tasks() && final(self).next_index() == old(self).next_index(),
            r matches Some(t) ==> {
                &&& t@ == (old(self).next_index(), name@)
                &&& final(self).next_index() == old(self).next_index() + 1
                &&& final(self).tasks() == old(self).tasks().insert(t@.0, name@)
                &&& final(self).task(t@.0) == t
            },
    {
        if self.index == usize::MAX {
            None
        } else {
            Some(self.register(name))
        }
    }

    /// Task `id` has finished: it is marked `Finished` and leaves the
    /// registry; the removed task is returned.
    pub fn finish_task(&mut self, id: usize) -> (r: Option<Arc<Task>>)
        ensures
            final(self).next_index() == old(self).next_index(),
            final(self).tasks() == old(self).tasks().remove(id),
            r is Some <==> old(self).tasks().contains_key(id),
            r matches Some(t) ==> t == old(self).task(id) && t@ == (id, old(self).tasks()[id]),
            forall|k: usize| k != id ==> #[trigger] final(self).task(k) == old(self).task(k),
    {
        proof {
            use_type_invariant(&*self);
        }
        let mut tasks = HashMap::new();
        std::mem::swap(&mut tasks, &mut self.tasks);
        let removed = tasks.remove(&id);
        self.tasks = tasks;
        assert(self.tasks() =~= old(self).tasks().remove(id));
        match removed {
            Some(task) => {
                task.set_state(TaskState::Finished);
                Some(task)
            },
            None => None,
        }
    }

    pub fn get_task_count(&self) -> (r: usize)
        ensures
            r == self.tasks().len(),
    {
        proof {
            assert(self.tasks().dom() =~= self.tasks@.dom());
        }
        self.tasks.len()
    }

    /// Every registered task, each once, in unspecified order; each entry is
    /// the registry's own task, so later state changes show through it.
    pub fn clone_task_list(&self) -> (r: Vec<Arc<Task>>)
        ensures
            r.len() == self.tasks().len(),
            forall|j: int| 0 <= j < r.len() ==> {
                &&& self.tasks().contains_key(#[trigger] r@[j]@.0)
                &&& r@[j] == self.task(r@[j]@.0)
            },
            forall|k: usize| #[trigger] self.tasks().contains_key(k) ==> exists|j: int| 0 <= j < r.len() && r@[j]@.0 == k,
    {
        proof {
            use_type_invariant(self);
            assert(self.tasks().dom() =~= self.tasks@.dom());
        }
        let ghost vals = vstd::std_specs::iter::IteratorSpec::remaining(&self.tasks.values());
        let mut res: Vec<Arc<Task>> = Vec::new();
        for t in it: self.tasks.values()
            invariant
                it.seq() == vals,
                res.len() == it.index(),
                forall|j: int| 0 <= j < res.len() ==> res@[j] == *vals[j],
        {
            res.push(share(t));
        }
        proof {
            let m = self.tasks@;
            let us = vals.unref();
            assert(us.to_set() == m.values());
            assert(res.len() == vals.len());
            assert forall|j: int| 0 <= j < res.len() implies {
                &&& self.tasks().contains_key(#[trigger] res@[j]@.0)
                &&& res@[j] == self.task(res@[j]@.0)
            } by {
                assert(us[j] == *vals[j]);
                assert(us.to_set().contains(us[j]));
                let k = choose|k: usize| #[trigger] m.contains_key(k) && m[k] == us[j];
                assert(m.contains_key(k));
            }
            assert forall|k: usize| #[trigger] self.tasks().contains_key(k) implies
                exists|j: int| 0 <= j < res.len() && res@[j]@.0 == k by {
                assert(m.values().contains(m[k]));
                assert(us.to_set().contains(m[k]));
                let j = choose|j: int| 0 <= j < us.len() && us[j] == m[k];
                assert(res@[j] == m[k]);
            }
        }
        res
    }
}

/// The number of registrations (`Some`) in `ids`.
pub open spec fn count_registered(ids: Seq<Option<usize>>) -> nat
    decreases ids.len(),
{
    if ids.len() == 0 {
        0
    } else {
        count_registered(ids.drop_last()) + (if ids.last() is Some { 1nat } else { 0nat })
    }
}

/// One step of a run of registry calls: `Some(id)` is a registration that
/// returned `id`, `None` any other call, which keeps the next number.
pub open spec fn registry_step(before: TaskServer, after: TaskServer, r: Option<usize>) -> bool {
    match r {
        Some(id) => id == before.next_index() && after.next_index() == id + 1,
        None => after.next_index() == before.next_index(),
    }
}

proof fn lemma_next_index_counts(states: Seq<TaskServer>, ids: Seq<Option<usize>>, i: int)
    requires
        states.len() == ids.len() + 1,
        states[0].next_index() == 0,
        forall|j: int| 0 <= j < ids.len() ==> registry_step(states[j], states[j + 1], #[trigger] ids[j]),
        0 <= i <= ids.len(),
    ensures
        states[i].next_index() == count_registered(ids.take(i)),
    decreases i,
{
    if i > 0 {
        lemma_next_index_counts(states, ids, i - 1);
        assert(ids.take(i).drop_last() =~= ids.take(i - 1));
        assert(ids.take(i).last() == ids[i - 1]);
        assert(registry_step(states[i - 1], states[i], ids[i - 1]));
    }
}

/// Tasks are numbered in the order they are registered: along a run of
/// calls on a fresh registry, the k-th registration (counting from 0)
/// receives the number k, and the next number is the count of registrations.
pub proof fn law_registrations_numbered_in_order(states: Seq<TaskServer>, ids: Seq<Option<usize>>)
    requires
        states.len() == ids.len() + 1,
        states[0].next_index() == 0,
        forall|j: int| 0 <= j < ids.len() ==> registry_step(states[j], states[j + 1], #[trigger] ids[j]),
    ensures
        forall|i: int| 0 <= i < ids.len() && (#[trigger] ids[i]) is Some
            ==> ids[i]->0 == count_registered(ids.take(i)),
        states.last().next_index() == count_registered(ids),
{
    assert forall|i: int| 0 <= i < ids.len() && (#[trigger] ids[i]) is Some
        implies ids[i]->0 == count_registered(ids.take(i)) by {
        lemma_next_index_counts(states, ids, i);
        assert(registry_step(states[i], states[i + 1], ids[i]));
    }
    lemma_next_index_counts(states, ids, ids.len() as int);
    assert(ids.take(ids.len() as int) =~= ids);
}

/// Registering a task and then finishing it leaves the registry as it was;
/// only the next number has moved on.
pub proof fn law_register_then_finish(s0: &TaskServer, s1: &TaskServer, s2: &TaskServer, id: usize, name: Seq<char>)
    requires
        !s0.tasks().contains_key(id),
        s1.tasks() == s0.tasks().insert(id, name),
        s2.tasks() == s1.tasks().remove(id),
    ensures
        s2.tasks() == s0.tasks(),
{
    assert(s2.tasks() =~= s0.tasks());
}

/// Each registration adds exactly one task.
pub proof fn law_register_counts(s0: &TaskServer, s1: &TaskServer, id: usize, name: Seq<char>)
    requires
        !s0.tasks().contains_key(id),
        s1.tasks() == s0.tasks().insert(id, name),
    ensures
        s1.tasks().len() == s0.tasks().len() + 1,
{
    assert(s0.tasks().dom() =~= s0.tasks@.dom());
}

} // verus!
