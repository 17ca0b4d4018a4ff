use std::any::TypeId;
use std::marker::PhantomData;
use vstd::prelude::*;

verus! {

/// Identifier of an asset slot in the asset server.
pub type HandleId = usize;

#[verifier::external_type_specification]
#[verifier::external_body]
pub struct ExTypeId(TypeId);

/// The identifier of the type `T`.
///
/// Calls `std::any::TypeId::of`; nothing is claimed of the result, which is
/// only carried along by untyped handles.
#[verifier::external_body]
fn type_id_of<T: ?Sized + 'static>() -> TypeId {
    TypeId::of::<T>()
}

/// The queues through which handles report to the asset server: indices of
/// strong handles created, of strong handles dropped, and of assets whose
/// watchers must be refreshed.
pub struct AssetServerGlobal {
    pub create_queue: Vec<HandleId>,
    pub destroy_queue: Vec<HandleId>,
    pub mark_to_update: Vec<HandleId>,
}

/// Strong handles to `idx` announced minus strong handles to `idx` released.
pub open spec fn outstanding(s: &AssetServerGlobal, idx: HandleId) -> int {
    s.create_queue@.to_multiset().count(idx) - s.destroy_queue@.to_multiset().count(idx)
}

/// What creating a handle to `idx` does to the server: a strong handle is
/// announced on the create queue, a weak one leaves everything as it was.
pub open spec fn announced(before: AssetServerGlobal, after: AssetServerGlobal, idx: HandleId, strong: bool) -> bool {
    &&& after.create_queue@ == (if strong { before.create_queue@.push(idx) } else { before.create_queue@ })
    &&& after.destroy_queue@ == before.destroy_queue@
    &&& after.mark_to_update@ == before.mark_to_update@
}

/// What dropping a handle to `idx` does to the server: a strong handle is
/// reported on the destroy queue, a weak one leaves everything as it was.
pub open spec fn retired(before: AssetServerGlobal, after: AssetServerGlobal, idx: HandleId, strong: bool) -> bool {
    &&& after.destroy_queue@ == (if strong { before.destroy_queue@.push(idx) } else { before.destroy_queue@ })
    &&& after.create_queue@ == before.create_queue@
    &&& after.mark_to_update@ == before.mark_to_update@
}

impl AssetServerGlobal {
    pub fn new() -> (r: Self)
        ensures
            r.create_queue@ == Seq::<HandleId>::empty(),
            r.destroy_queue@ == Seq::<HandleId>::empty(),
            r.mark_to_update@ == Seq::<HandleId>::empty(),
    {
        AssetServerGlobal { create_queue: Vec::new(), destroy_queue: Vec::new(), mark_to_update: Vec::new() }
    }
}

/// Creating a handle to `idx` and then dropping it leaves the balance of
/// strong handles to every asset unchanged, whether the handle was strong
/// or weak.
pub proof fn law_create_then_drop_balanced(
    s0: AssetServerGlobal,
    s1: AssetServerGlobal,
    s2: AssetServerGlobal,
    idx: HandleId,
    strong: bool,
    other: HandleId,
)
    requires
        announced(s0, s1, idx, strong),
        retired(s1, s2, idx, strong),
    ensures
        outstanding(&s2, other) == outstanding(&s0, other),
{
    if strong {
        s0.create_queue@.to_multiset_ensures();
        s1.destroy_queue@.to_multiset_ensures();
        assert(s2.create_queue@ == s0.create_queue@.push(idx));
        assert(s2.destroy_queue@ == s0.destroy_queue@.push(idx));
    }
}

/// A strong handle announces one more outstanding reference to its asset;
/// a weak one changes nothing.
pub proof fn law_announce_counts(s0: AssetServerGlobal, s1: AssetServerGlobal, idx: HandleId, strong: bool)
    requires
        announced(s0, s1, idx, strong),
    ensures
        outstanding(&s1, idx) == outstanding(&s0, idx) + (if strong { 1int } else { 0int }),
{
    if strong {
        s0.create_queue@.to_multiset_ensures();
    }
}

/// One step of a run of handle events: `(idx, strong, created)` is a handle
/// to `idx` being created (`created`) or dropped, strong or weak.
pub open spec fn handle_step(before: AssetServerGlobal, after: AssetServerGlobal, e: (HandleId, bool, bool)) -> bool {
    if e.2 {
        announced(before, after, e.0, e.1)
    } else {
        retired(before, after, e.0, e.1)
    }
}

/// Strong handles to `idx` created minus strong handles to `idx` dropped
/// along `events`.
pub open spec fn live_strong(events: Seq<(HandleId, bool, bool)>, idx: HandleId) -> int
    decreases events.len(),
{
    if events.len() == 0 {
        0
    } else {
        let e = events.last();
        live_strong(events.drop_last(), idx) + (if e.1 && e.0 == idx {
            if e.2 { 1int } else { -1int }
        } else {
            0int
        })
    }
}

/// Over any run of handle creations and drops, the server's balance for
/// each asset moves by exactly the number of strong handles to it created
/// minus those dropped; from empty queues the balance is that number.
pub proof fn law_balance_over_run(
    states: Seq<AssetServerGlobal>,
    events: Seq<(HandleId, bool, bool)>,
    idx: HandleId,
)
    requires
        states.len() == events.len() + 1,
        forall|i: int| 0 <= i < events.len() ==> handle_step(states[i], states[i + 1], #[trigger] events[i]),
    ensures
        outstanding(&states.last(), idx) == outstanding(&states[0], idx) + live_strong(events, idx),
    decreases events.len(),
{
    if events.len() > 0 {
        let n = events.len() - 1;
        let s2 = states.drop_last();
        let e2 = events.drop_last();
        assert forall|i: int| 0 <= i < e2.len() implies handle_step(s2[i], s2[i + 1], #[trigger] e2[i]) by {
            assert(e2[i] == events[i]);
        }
        law_balance_over_run(s2, e2, idx);
        let a = states[n];
        let b = states[n + 1];
        let e = events[n];
        assert(handle_step(a, b, e));
        assert(e == events.last());
        assert(s2.last() == a);
        assert(states.last() == b);
        if e.2 {
            a.create_queue@.to_multiset_ensures();
            assert(b.destroy_queue@ == a.destroy_queue@);
        } else {
            a.destroy_queue@.to_multiset_ensures();
            assert(b.create_queue@ == a.create_queue@);
        }
    }
}

/// A typed handle to an asset slot; a strong handle keeps the asset alive.
pub struct SpaceHandle<T> {
    idx: HandleId,
    marker: PhantomData<T>,
    strong: bool,
}

impl<T> View for SpaceHandle<T> {
    type V = (HandleId, bool);

    closed spec fn view(&self) -> (HandleId, bool) {
        (self.idx, self.strong)
    }
}

/// A handle to an asset slot that carries the asset's type as a value.
pub struct HandleUntyped {
    idx: HandleId,
    tp: TypeId,
    strong: bool,
}

impl View for HandleUntyped {
    type V = (HandleId, bool);

    closed spec fn view(&self) -> (HandleId, bool) {
        (self.idx, self.strong)
    }
}

impl<T: 'static> SpaceHandle<T> {
    /// A handle to slot `idx`; a strong one is announced to the server.
    pub fn new(idx: HandleId, asset_server: &mut AssetServerGlobal, strong: bool) -> (r: Self)
        ensures
            r@ == (idx, strong),
            announced(*old(asset_server), *final(asset_server), idx, strong),
    {
        let res = SpaceHandle { idx, marker: PhantomData, strong };
        if strong {
            res.incerase_counter(asset_server);
        }
        res
    }

    fn incerase_counter(&self, asset_server: &mut AssetServerGlobal)
        ensures
            announced(*old(asset_server), *final(asset_server), self@.0, true),
    {
        asset_server.create_queue.push(self.idx);
    }

    /// An untyped handle to the same slot, with the same strength.
    pub fn get_untyped(&self, asset_server: &mut AssetServerGlobal) -> (r: HandleUntyped)
        ensures
            r@ == self@,
            announced(*old(asset_server), *final(asset_server), self@.0, self@.1),
    {
        if self.strong {
            self.incerase_counter(asset_server);
        }
        HandleUntyped { idx: self.idx, tp: type_id_of::<T>(), strong: self.strong }
    }

    pub fn get_idx(&self) -> (r: HandleId)
        ensures
            r == self@.0,
    {
        self.idx
    }

    /// A weak handle to the same slot.
    pub fn get_weak(&self) -> (r: SpaceHandle<T>)
        ensures
            r@ == (self@.0, false),
    {
        SpaceHandle { idx: self.idx, marker: PhantomData, strong: false }
    }

    /// Another handle to the same slot with the same strength.
    pub fn clone_handle(&self, asset_server: &mut AssetServerGlobal) -> (r: Self)
        ensures
            r@ == self@,
            announced(*old(asset_server), *final(asset_server), self@.0, self@.1),
    {
        SpaceHandle::new(self.idx, asset_server, self.strong)
    }

    /// Drop the handle; a strong one is reported to the server.
    pub fn release(self, asset_server: &mut AssetServerGlobal)
        ensures
            retired(*old(asset_server), *final(asset_server), self@.0, self@.1),
    {
        if self.strong {
            asset_server.destroy_queue.push(self.idx);
        }
    }

}

/// Handles are equal when they name the same slot with the same strength.
impl<T> PartialEq for SpaceHandle<T> {
    fn eq(&self, other: &Self) -> (r: bool) {
        self.idx == other.idx && self.strong == other.strong
    }
}

impl<T> vstd::std_specs::cmp::PartialEqSpecImpl for SpaceHandle<T> {
    open spec fn obeys_eq_spec() -> bool {
        true
    }

    open spec fn eq_spec(&self, other: &Self) -> bool {
        self@ == other@
    }
}

/// Feeds a `usize` to a hasher: `<usize as Hash>::hash`. Nothing is claimed
/// of what the hasher does with it.
pub assume_specification<H: std::hash::Hasher>[ <usize as std::hash::Hash>::hash::<H> ](v: &usize, state: &mut H);

/// Handles hash by their slot alone.
impl<T> std::hash::Hash for SpaceHandle<T> {
    fn hash<H: std::hash::Hasher>(&self, state: &mut H) {
        self.idx.hash(state);
    }
}

impl HandleUntyped {
    /// The identifier of the asset's type that the handle carries.
    pub closed spec fn type_of(&self) -> TypeId {
        self.tp
    }

    /// An untyped handle to slot `idx`; a strong one is announced to the server.
    pub fn new(idx: HandleId, tp: TypeId, asset_server: &mut AssetServerGlobal, strong: bool) -> (r: Self)
        ensures
            r@ == (idx, strong),
            r.type_of() == tp,
            announced(*old(asset_server), *final(asset_server), idx, strong),
    {
        let res = HandleUntyped { idx, tp, strong };
        if res.strong {
            res.incerase_counter(asset_server);
        }
        res
    }

    fn incerase_counter(&self, asset_server: &mut AssetServerGlobal)
        ensures
            announced(*old(asset_server), *final(asset_server), self@.0, true),
    {
        asset_server.create_queue.push(self.idx);
    }

    /// A strong handle to the same slot.
    pub fn get_strong(&self, asset_server: &mut AssetServerGlobal) -> (r: Self)
        ensures
            r@ == (self@.0, true),
            r.type_of() == self.type_of(),
            announced(*old(asset_server), *final(asset_server), self@.0, true),
    {
        HandleUntyped::new(self.idx, self.tp, asset_server, true)
    }

    /// A typed handle to the same slot, with the same strength.
    pub fn get_typed<T: 'static>(&self, asset_server: &mut AssetServerGlobal) -> (r: SpaceHandle<T>)
        ensures
            r@ == self@,
            announced(*old(asset_server), *final(asset_server), self@.0, self@.1),
    {
        SpaceHandle::<T>::new(self.idx, asset_server, self.strong)
    }

    pub fn get_idx(&self) -> (r: HandleId)
        ensures
            r == self@.0,
    {
        self.idx
    }

    /// Another handle to the same slot with the same strength.
    pub fn clone_handle(&self, asset_server: &mut AssetServerGlobal) -> (r: Self)
        ensures
            r@ == self@,
            r.type_of() == self.type_of(),
            announced(*old(asset_server), *final(asset_server), self@.0, self@.1),
    {
        HandleUntyped::new(self.idx, self.tp, asset_server, self.strong)
    }

    /// Drop the handle; a strong one is reported to the server.
    pub fn release(self, asset_server: &mut AssetServerGlobal)
        ensures
            retired(*old(asset_server), *final(asset_server), self@.0, self@.1),
    {
        if self.strong {
            asset_server.destroy_queue.push(self.idx);
        }
    }
}

} // verus!
