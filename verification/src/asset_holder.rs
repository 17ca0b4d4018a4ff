use vstd::prelude::*;
use crate::handle::{AssetServerGlobal, HandleId, HandleUntyped};

verus! {

/// Where an asset's content comes from.
#[derive(Clone, Debug)]
pub enum AssetPath {
    GlobalPath(String),
    Binary(Vec<u8>),
    Text(String),
}

/// An asset slot: the asset itself, a reference count, a version bumped on
/// every replacement, the handles watching the slot and a rebuild flag.
pub struct AssetHolder<A> {
    ptr: A,
    count: i32,
    version: u32,
    watchers: Vec<HandleUntyped>,
    need_to_rebuild: bool,
}

impl<A> AssetHolder<A> {
    pub closed spec fn asset(&self) -> A {
        self.ptr
    }

    pub closed spec fn count(&self) -> int {
        self.count as int
    }

    pub closed spec fn version(&self) -> u32 {
        self.version
    }

    /// Slots of the watching handles, in order.
    pub closed spec fn watcher_ids(&self) -> Seq<HandleId> {
        self.watchers@.map_values(|h: HandleUntyped| h@.0)
    }

    pub closed spec fn rebuild(&self) -> bool {
        self.need_to_rebuild
    }

    pub fn new(ptr: A) -> (r: Self)
        ensures
            r.asset() == ptr,
            r.count() == 0,
            r.version() == 0,
            r.watcher_ids() == Seq::<HandleId>::empty(),
            !r.rebuild(),
    {
        let r = AssetHolder { ptr, count: 0, version: 0, watchers: Vec::new(), need_to_rebuild: false };
        assert(r.watcher_ids() =~= Seq::<HandleId>::empty());
        r
    }

    pub fn get(&self) -> (r: &A)
        ensures
            *r == self.asset(),
    {
        &self.ptr
    }

    pub fn get_mut(&mut self) -> (r: &mut A)
        ensures
            *r == old(self).asset(),
            final(self).asset() == *final(r),
            final(self).count() == old(self).count(),
            final(self).version() == old(self).version(),
            final(self).watcher_ids() == old(self).watcher_ids(),
            final(self).rebuild() == old(self).rebuild(),
    {
        &mut self.ptr
    }

    /// One more reference to the asset.
    pub fn inc_counter(&mut self)
        requires
            old(self).count() < i32::MAX,
        ensures
            final(self).count() == old(self).count() + 1,
            final(self).asset() == old(self).asset(),
            final(self).version() == old(self).version(),
            final(self).watcher_ids() == old(self).watcher_ids(),
            final(self).rebuild() == old(self).rebuild(),
    {
        self.count += 1;
    }

    /// One reference fewer; says whether none is left.
    pub fn dec_counter(&mut self) -> (r: bool)
        requires
            old(self).count() > i32::MIN,
        ensures
            final(self).count() == old(self).count() - 1,
            r == (final(self).count() <= 0),
            final(self).asset() == old(self).asset(),
            final(self).version() == old(self).version(),
            final(self).watcher_ids() == old(self).watcher_ids(),
            final(self).rebuild() == old(self).rebuild(),
    {
        self.count -= 1;
        self.count <= 0
    }

    /// Replace the asset, bump the version and queue every watcher's slot for
    /// an update.
    pub fn update_data(&mut self, ptr: A, core: &mut AssetServerGlobal)
        requires
            old(self).version() < u32::MAX,
        ensures
            final(self).asset() == ptr,
            final(self).version() == old(self).version() + 1,
            final(self).count() == old(self).count(),
            final(self).watcher_ids() == old(self).watcher_ids(),
            final(self).rebuild() == old(self).rebuild(),
            final(core).mark_to_update@ == old(core).mark_to_update@ + old(self).watcher_ids(),
            final(core).create_queue@ == old(core).create_queue@,
            final(core).destroy_queue@ == old(core).destroy_queue@,
    {
        self.ptr = ptr;
        self.version += 1;
        let n = self.watchers.len();
        for i in 0..n
            invariant
                n == self.watchers.len(),
                core.mark_to_update@ == old(core).mark_to_update@ + self.watcher_ids().take(i as int),
                core.create_queue@ == old(core).create_queue@,
                core.destroy_queue@ == old(core).destroy_queue@,
                self.watcher_ids() == old(self).watcher_ids(),
        {
            let id = self.watchers[i].get_idx();
            core.mark_to_update.push(id);
            assert(self.watcher_ids().take(i + 1) =~= self.watcher_ids().take(i as int).push(id));
        }
        assert(self.watcher_ids().take(n as int) =~= self.watcher_ids());
    }

    pub fn set_rebuild(&mut self, rebuild: bool)
        ensures
            final(self).rebuild() == rebuild,
            final(self).asset() == old(self).asset(),
            final(self).count() == old(self).count(),
            final(self).version() == old(self).version(),
            final(self).watcher_ids() == old(self).watcher_ids(),
    {
        self.need_to_rebuild = rebuild;
    }

    pub fn get_rebuild(&mut self) -> (r: bool)
        ensures
            r == old(self).rebuild(),
            *final(self) == *old(self),
    {
        self.need_to_rebuild
    }

    pub fn get_version(&self) -> (r: u32)
        ensures
            r == self.version(),
    {
        self.version
    }
}


/// One more reference followed by one fewer restores the count; the release
/// reports that none is left exactly when the count was not positive before.
pub proof fn law_inc_then_dec<A>(h0: &AssetHolder<A>, h1: &AssetHolder<A>, h2: &AssetHolder<A>, last: bool)
    requires
        h1.count() == h0.count() + 1,
        h2.count() == h1.count() - 1,
        last == (h2.count() <= 0),
    ensures
        h2.count() == h0.count(),
        last == (h0.count() <= 0),
{
}

/// The number of `true` entries of `s`.
pub open spec fn count_true(s: Seq<bool>) -> nat
    decreases s.len(),
{
    if s.len() == 0 {
        0
    } else {
        count_true(s.drop_last()) + (if s.last() { 1nat } else { 0nat })
    }
}

/// A slot's version counts its replacements: along a run of states that
/// starts from a fresh slot (version 0), where each step is either
/// `update_data` (`updated[i]`, version up by one) or another method (version
/// kept), the last version is the number of `update_data` steps.
pub proof fn law_version_counts_updates<A>(hs: Seq<AssetHolder<A>>, updated: Seq<bool>)
    requires
        hs.len() == updated.len() + 1,
        hs[0].version() == 0,
        forall|i: int| 0 <= i < updated.len() ==>
            (if #[trigger] updated[i] {
                hs[i + 1].version() == hs[i].version() + 1
            } else {
                hs[i + 1].version() == hs[i].version()
            }),
    ensures
        hs.last().version() == count_true(updated),
    decreases updated.len(),
{
    if updated.len() > 0 {
        let n = updated.len() - 1;
        let hs2 = hs.drop_last();
        let up2 = updated.drop_last();
        assert forall|i: int| 0 <= i < up2.len() implies
            (if #[trigger] up2[i] {
                hs2[i + 1].version() == hs2[i].version() + 1
            } else {
                hs2[i + 1].version() == hs2[i].version()
            }) by {
            assert(up2[i] == updated[i]);
        }
        law_version_counts_updates(hs2, up2);
        assert(updated[n] == updated.last());
    }
}

} // verus!
