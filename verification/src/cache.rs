//! The changes made to a shard since its trie was written, with checkpoints to go back to.

use crate::hash::H256;
use crate::item::{AssetScheme, AssetView, OwnedAsset, SchemeView};
use crate::table::Table;
use vstd::prelude::*;

verus! {

/// What a cache says of one address.
pub enum Entry<V> {
    /// The item there is this one.
    Present(V),
    /// The item there has been taken away.
    Removed,
}

impl<V: View> View for Entry<V> {
    type V = Option<V::V>;

    open spec fn view(&self) -> Option<V::V> {
        match *self {
            Entry::Present(item) => Some(item@),
            Entry::Removed => None,
        }
    }
}

/// What a cache said of an address before it was changed.
pub struct Undo<V> {
    address: H256,
    previous: Option<Entry<V>>,
}

/// Takes one change back.
spec fn undone<V: View>(changes: Map<H256, Option<V::V>>, undo: Undo<V>) -> Map<
    H256,
    Option<V::V>,
> {
    match undo.previous {
        Some(entry) => changes.insert(undo.address, entry@),
        None => changes.remove(undo.address),
    }
}

/// Takes the changes of a log back, the latest first.
spec fn rolled_back<V: View>(changes: Map<H256, Option<V::V>>, log: Seq<Undo<V>>) -> Map<
    H256,
    Option<V::V>,
>
    decreases log.len(),
{
    if log.len() == 0 {
        changes
    } else {
        rolled_back(undone(changes, log.last()), log.drop_last())
    }
}

/// Changes of items of one kind, with the means to take them back to each checkpoint.
pub struct WriteBack<V> {
    entries: Table<Entry<V>>,
    log: Vec<Undo<V>>,
    marks: Vec<usize>,
}

/// The contents of a [`WriteBack`]: the changes in force, and those at each checkpoint. An
/// address that is changed has an item, or `None` where the item was taken away.
#[verifier::ext_equal]
pub struct WriteBackView<T> {
    pub current: Map<H256, Option<T>>,
    pub saved: Seq<Map<H256, Option<T>>>,
}

impl<V: View> View for WriteBack<V> {
    type V = WriteBackView<V::V>;

    closed spec fn view(&self) -> WriteBackView<V::V> {
        WriteBackView {
            current: self.entries@,
            saved: Seq::new(
                self.marks@.len(),
                |i: int| rolled_back(self.entries@, self.log@.skip(self.marks@[i] as int)),
            ),
        }
    }
}

impl<V: View> WriteBack<V> {
    pub closed spec fn wf(&self) -> bool {
        &&& self.entries.wf()
        &&& forall|i: int| 0 <= i < self.marks@.len() ==> self.marks@[i] <= self.log@.len()
        &&& forall|i: int, j: int|
            0 <= i <= j < self.marks@.len() ==> self.marks@[i] <= self.marks@[j]
    }

    /// No changes and no checkpoints.
    pub fn new() -> (cache: Self)
        ensures
            cache.wf(),
            cache@ == (WriteBackView::<V::V> { current: Map::empty(), saved: Seq::empty() }),
    {
        let cache = WriteBack { entries: Table::new(), log: Vec::new(), marks: Vec::new() };
        assert(cache@.saved =~= Seq::empty());
        cache
    }

    /// What is known of an address.
    pub fn get(&self, address: &H256) -> (entry: Option<&Entry<V>>)
        requires
            self.wf(),
        ensures
            match entry {
                Some(e) => self@.current.contains_key(*address) && e@ == self@.current[*address],
                None => !self@.current.contains_key(*address),
            },
    {
        self.entries.get(address)
    }

    /// Changes what is known of an address.
    pub fn set(&mut self, address: H256, entry: Entry<V>)
        requires
            old(self).wf(),
        ensures
            final(self).wf(),
            final(self)@ == (WriteBackView {
                current: old(self)@.current.insert(address, entry@),
                ..old(self)@
            }),
    {
        let previous = self.entries.put(address, entry);
        if self.marks.len() > 0 {
            self.log.push(Undo { address, previous });
        }
        proof {
            if self.marks@.len() > 0 {
                assert(undone(self.entries@, self.log@.last()) =~= old(self).entries@);
            }
            assert forall|i: int| 0 <= i < self.marks@.len() implies #[trigger] self@.saved[i]
                == old(self)@.saved[i] by {
                let mark = self.marks@[i] as int;
                assert(self.log@.skip(mark).drop_last() =~= old(self).log@.skip(mark));
            }
            assert(self@.saved =~= old(self)@.saved);
        }
    }

    /// Sets a checkpoint.
    pub fn checkpoint(&mut self)
        requires
            old(self).wf(),
        ensures
            final(self).wf(),
            final(self)@ == (WriteBackView {
                saved: old(self)@.saved.push(old(self)@.current),
                ..old(self)@
            }),
    {
        self.marks.push(self.log.len());
        proof {
            assert(self.log@.skip(self.log@.len() as int) =~= Seq::empty());
            assert(self@.saved =~= old(self)@.saved.push(old(self)@.current));
        }
    }

    /// Gives the last checkpoint up and keeps the changes.
    pub fn discard_checkpoint(&mut self)
        requires
            old(self).wf(),
            old(self)@.saved.len() > 0,
        ensures
            final(self).wf(),
            final(self)@ == (WriteBackView { saved: old(self)@.saved.drop_last(), ..old(self)@ }),
    {
        let _ = self.marks.pop();
        if self.marks.len() == 0 {
            self.log.clear();
        }
        assert(self@.saved =~= old(self)@.saved.drop_last());
    }

    /// Takes the last change back.
    fn undo_last(&mut self)
        requires
            old(self).wf(),
            old(self).log@.len() > 0,
            forall|i: int| 0 <= i < old(self).marks@.len() ==> old(self).marks@[i] < old(
                self,
            ).log@.len(),
        ensures
            final(self).wf(),
            final(self)@.saved == old(self)@.saved,
            final(self).log@ == old(self).log@.drop_last(),
            final(self).marks == old(self).marks,
    {
        let undo = self.log.pop().unwrap();
        match undo.previous {
            Some(entry) => {
                let _ = self.entries.put(undo.address, entry);
            },
            None => {
                let _ = self.entries.remove(&undo.address);
            },
        }
        proof {
            assert(self.entries@ == undone(old(self).entries@, old(self).log@.last()));
            assert forall|i: int| 0 <= i < self.marks@.len() implies #[trigger] self@.saved[i]
                == old(self)@.saved[i] by {
                let mark = self.marks@[i] as int;
                assert(old(self).log@.skip(mark).last() == old(self).log@.last());
                assert(old(self).log@.skip(mark).drop_last() =~= self.log@.skip(mark));
            }
            assert(self@.saved =~= old(self)@.saved);
        }
    }

    /// Takes all changes back to the last checkpoint, and gives it up.
    pub fn revert_to_checkpoint(&mut self)
        requires
            old(self).wf(),
            old(self)@.saved.len() > 0,
        ensures
            final(self).wf(),
            final(self)@ == (WriteBackView {
                current: old(self)@.saved.last(),
                saved: old(self)@.saved.drop_last(),
            }),
    {
        let mark = self.marks[self.marks.len() - 1];
        while self.log.len() > mark
            invariant
                self.wf(),
                self@.saved == old(self)@.saved,
                self.marks == old(self).marks,
                self.marks@.len() > 0,
                mark == self.marks@.last(),
                mark <= self.log@.len(),
            decreases self.log@.len(),
        {
            self.undo_last();
        }
        proof {
            assert(self.log@.skip(mark as int) =~= Seq::empty());
            assert(self@.saved.last() == self.entries@);
        }
        let ghost before = *self;
        let _ = self.marks.pop();
        assert(self@.saved =~= before@.saved.drop_last());
    }
}

/// The changes made to the schemes and the assets of a shard.
pub struct ShardCache {
    schemes: WriteBack<AssetScheme>,
    assets: WriteBack<OwnedAsset>,
}

/// The changes of a [`ShardCache`] that are in force at one time.
#[verifier::ext_equal]
pub struct Overlay {
    pub schemes: Map<H256, Option<SchemeView>>,
    pub assets: Map<H256, Option<AssetView>>,
}

/// The contents of a [`ShardCache`].
#[verifier::ext_equal]
pub struct CacheView {
    pub current: Overlay,
    pub saved: Seq<Overlay>,
}

impl CacheView {
    /// The cache with a scheme put at an address, or taken away from it.
    pub open spec fn with_scheme(self, address: H256, scheme: Option<SchemeView>) -> Self {
        CacheView {
            current: Overlay {
                schemes: self.current.schemes.insert(address, scheme),
                ..self.current
            },
            ..self
        }
    }

    /// The cache with an asset put at an address, or taken away from it.
    pub open spec fn with_asset(self, address: H256, asset: Option<AssetView>) -> Self {
        CacheView {
            current: Overlay { assets: self.current.assets.insert(address, asset), ..self.current },
            ..self
        }
    }

    /// The cache with one more checkpoint.
    pub open spec fn checkpointed(self) -> Self {
        CacheView { saved: self.saved.push(self.current), ..self }
    }

    /// The cache without its last checkpoint, with the changes made since.
    pub open spec fn discarded(self) -> Self {
        CacheView { saved: self.saved.drop_last(), ..self }
    }

    /// The cache as it was at its last checkpoint.
    pub open spec fn reverted(self) -> Self {
        CacheView { current: self.saved.last(), saved: self.saved.drop_last() }
    }
}

impl View for ShardCache {
    type V = CacheView;

    closed spec fn view(&self) -> CacheView {
        CacheView {
            current: Overlay {
                schemes: self.schemes@.current,
                assets: self.assets@.current,
            },
            saved: Seq::new(
                self.schemes@.saved.len(),
                |i: int|
                    Overlay { schemes: self.schemes@.saved[i], assets: self.assets@.saved[i] },
            ),
        }
    }
}

impl ShardCache {
    pub closed spec fn wf(&self) -> bool {
        &&& self.schemes.wf()
        &&& self.assets.wf()
        &&& self.schemes@.saved.len() == self.assets@.saved.len()
    }

    /// A cache without changes and without checkpoints.
    pub fn new() -> (cache: Self)
        ensures
            cache.wf(),
            cache@ == (CacheView {
                current: Overlay { schemes: Map::empty(), assets: Map::empty() },
                saved: Seq::empty(),
            }),
    {
        let cache = ShardCache { schemes: WriteBack::new(), assets: WriteBack::new() };
        assert(cache@.saved =~= Seq::empty());
        cache
    }

    /// What is known of the scheme at an address.
    pub fn scheme(&self, address: &H256) -> (entry: Option<&Entry<AssetScheme>>)
        requires
            self.wf(),
        ensures
            match entry {
                Some(e) => self@.current.schemes.contains_key(*address) && e@
                    == self@.current.schemes[*address],
                None => !self@.current.schemes.contains_key(*address),
            },
    {
        self.schemes.get(address)
    }

    /// What is known of the asset at an address.
    pub fn asset(&self, address: &H256) -> (entry: Option<&Entry<OwnedAsset>>)
        requires
            self.wf(),
        ensures
            match entry {
                Some(e) => self@.current.assets.contains_key(*address) && e@
                    == self@.current.assets[*address],
                None => !self@.current.assets.contains_key(*address),
            },
    {
        self.assets.get(address)
    }

    /// Changes what is known of the scheme at an address.
    pub fn set_scheme(&mut self, address: H256, entry: Entry<AssetScheme>)
        requires
            old(self).wf(),
        ensures
            final(self).wf(),
            final(self)@ == old(self)@.with_scheme(address, entry@),
    {
        self.schemes.set(address, entry);
        assert(self@.saved =~= old(self)@.saved);
    }

    /// Changes what is known of the asset at an address.
    pub fn set_asset(&mut self, address: H256, entry: Entry<OwnedAsset>)
        requires
            old(self).wf(),
        ensures
            final(self).wf(),
            final(self)@ == old(self)@.with_asset(address, entry@),
    {
        self.assets.set(address, entry);
        assert(self@.saved =~= old(self)@.saved);
    }

    /// Takes the scheme at an address away.
    pub fn remove_asset_scheme(&mut self, address: &H256)
        requires
            old(self).wf(),
        ensures
            final(self).wf(),
            final(self)@ == old(self)@.with_scheme(*address, None),
    {
        self.set_scheme(*address, Entry::Removed);
    }

    /// Takes the asset at an address away.
    pub fn remove_asset(&mut self, address: &H256)
        requires
            old(self).wf(),
        ensures
            final(self).wf(),
            final(self)@ == old(self)@.with_asset(*address, None),
    {
        self.set_asset(*address, Entry::Removed);
    }

    /// Sets a checkpoint.
    pub fn checkpoint(&mut self)
        requires
            old(self).wf(),
        ensures
            final(self).wf(),
            final(self)@ == old(self)@.checkpointed(),
    {
        self.schemes.checkpoint();
        self.assets.checkpoint();
        assert(self@.saved =~= old(self)@.saved.push(old(self)@.current));
    }

    /// Gives the last checkpoint up and keeps the changes.
    pub fn discard_checkpoint(&mut self)
        requires
            old(self).wf(),
            old(self)@.saved.len() > 0,
        ensures
            final(self).wf(),
            final(self)@ == old(self)@.discarded(),
    {
        self.schemes.discard_checkpoint();
        self.assets.discard_checkpoint();
        assert(self@.saved =~= old(self)@.saved.drop_last());
    }

    /// Takes all changes back to the last checkpoint, and gives it up.
    pub fn revert_to_checkpoint(&mut self)
        requires
            old(self).wf(),
            old(self)@.saved.len() > 0,
        ensures
            final(self).wf(),
            final(self)@ == old(self)@.reverted(),
    {
        self.schemes.revert_to_checkpoint();
        self.assets.revert_to_checkpoint();
        assert(self@.saved =~= old(self)@.saved.drop_last());
    }
}

} // verus!
