//! The tries that a state is read from.
//!
//! A trie stands here as the leaves that were read of it: at an address there is an item, or
//! nothing, or the error that came when the leaf was looked for.

use crate::error::TrieError;
use crate::hash::H256;
use crate::item::{AssetScheme, AssetView, OwnedAsset, SchemeView};
use crate::table::Table;
use vstd::prelude::*;

verus! {

/// The root of a trie without leaves: the BLAKE2b digest of the one byte `0x80`.
pub const BLAKE_NULL_RLP: [u8; 32] = [
    0x45, 0xb0, 0xcf, 0xc2, 0x20, 0xce, 0xec, 0x5b,
    0x7c, 0x1c, 0x62, 0xc4, 0xd4, 0x19, 0x3d, 0x38,
    0xe4, 0xeb, 0xa4, 0x8e, 0x88, 0x15, 0x72, 0x9c,
    0xe7, 0x5f, 0x9c, 0x0a, 0xb0, 0xe4, 0xc1, 0xc0,
];

/// What was read of a trie at one address.
#[derive(Debug)]
pub enum Leaf<V> {
    Item(V),
    Unreadable(TrieError),
}

impl<V: View> View for Leaf<V> {
    type V = Leaf<V::V>;

    open spec fn view(&self) -> Leaf<V::V> {
        match *self {
            Leaf::Item(item) => Leaf::Item(item@),
            Leaf::Unreadable(error) => Leaf::Unreadable(error),
        }
    }
}

/// Reads the leaf at an address.
pub open spec fn read<V>(leaves: Map<H256, Leaf<V>>, address: H256) -> Result<Option<V>, TrieError> {
    if leaves.contains_key(address) {
        match leaves[address] {
            Leaf::Item(item) => Ok(Some(item)),
            Leaf::Unreadable(error) => Err(error),
        }
    } else {
        Ok(None)
    }
}

/// The leaves of the trie of a shard.
pub struct ShardTrie {
    schemes: Table<Leaf<AssetScheme>>,
    assets: Table<Leaf<OwnedAsset>>,
}

/// The contents of a [`ShardTrie`].
#[verifier::ext_equal]
pub struct TrieView {
    pub schemes: Map<H256, Leaf<SchemeView>>,
    pub assets: Map<H256, Leaf<AssetView>>,
}

impl TrieView {
    /// A trie without leaves.
    pub open spec fn empty() -> Self {
        TrieView { schemes: Map::empty(), assets: Map::empty() }
    }

    pub open spec fn scheme(self, address: H256) -> Result<Option<SchemeView>, TrieError> {
        read(self.schemes, address)
    }

    pub open spec fn asset(self, address: H256) -> Result<Option<AssetView>, TrieError> {
        read(self.assets, address)
    }
}

impl View for ShardTrie {
    type V = TrieView;

    closed spec fn view(&self) -> TrieView {
        TrieView { schemes: self.schemes@, assets: self.assets@ }
    }
}

impl ShardTrie {
    pub closed spec fn wf(&self) -> bool {
        self.schemes.wf() && self.assets.wf()
    }

    /// A trie without leaves.
    pub fn new() -> (trie: Self)
        ensures
            trie.wf(),
            trie@ == TrieView::empty(),
    {
        ShardTrie { schemes: Table::new(), assets: Table::new() }
    }

    /// Takes note of what was read at the address of a scheme.
    pub fn put_scheme(&mut self, address: H256, leaf: Leaf<AssetScheme>)
        requires
            old(self).wf(),
        ensures
            final(self).wf(),
            final(self)@ == (TrieView {
                schemes: old(self)@.schemes.insert(address, leaf@),
                ..old(self)@
            }),
    {
        let _ = self.schemes.put(address, leaf);
    }

    /// Takes note of what was read at the address of an asset.
    pub fn put_asset(&mut self, address: H256, leaf: Leaf<OwnedAsset>)
        requires
            old(self).wf(),
        ensures
            final(self).wf(),
            final(self)@ == (TrieView {
                assets: old(self)@.assets.insert(address, leaf@),
                ..old(self)@
            }),
    {
        let _ = self.assets.put(address, leaf);
    }

    /// The scheme at an address.
    pub fn scheme(&self, address: &H256) -> (scheme: Result<Option<AssetScheme>, TrieError>)
        requires
            self.wf(),
        ensures
            match scheme {
                Ok(Some(s)) => self@.scheme(*address) == Ok::<_, TrieError>(Some(s@)),
                Ok(None) => self@.scheme(*address) == Ok::<_, TrieError>(None::<SchemeView>),
                Err(e) => self@.scheme(*address) == Err::<Option<SchemeView>, _>(e),
            },
    {
        match self.schemes.get(address) {
            Some(Leaf::Item(scheme)) => Ok(Some(scheme.clone())),
            Some(Leaf::Unreadable(error)) => Err(*error),
            None => Ok(None),
        }
    }

    /// The asset at an address.
    pub fn asset(&self, address: &H256) -> (asset: Result<Option<OwnedAsset>, TrieError>)
        requires
            self.wf(),
        ensures
            match asset {
                Ok(Some(a)) => self@.asset(*address) == Ok::<_, TrieError>(Some(a@)),
                Ok(None) => self@.asset(*address) == Ok::<_, TrieError>(None::<AssetView>),
                Err(e) => self@.asset(*address) == Err::<Option<AssetView>, _>(e),
            },
    {
        match self.assets.get(address) {
            Some(Leaf::Item(asset)) => Ok(Some(asset.clone())),
            Some(Leaf::Unreadable(error)) => Err(*error),
            None => Ok(None),
        }
    }
}

/// The tries at hand, each under its root. The trie without leaves is always among them.
pub struct StateDB {
    places: Table<usize>,
    tries: Vec<ShardTrie>,
}

impl View for StateDB {
    type V = Map<H256, TrieView>;

    closed spec fn view(&self) -> Map<H256, TrieView> {
        self.places@.map_values(|place: usize| self.tries@[place as int]@)
    }
}

impl StateDB {
    pub closed spec fn wf(&self) -> bool {
        &&& self.places.wf()
        &&& forall|root: H256| #[trigger]
            self.places@.contains_key(root) ==> self.places@[root] < self.tries@.len()
        &&& forall|i: int| 0 <= i < self.tries@.len() ==> (#[trigger] self.tries@[i]).wf()
        &&& self@.contains_key(H256(BLAKE_NULL_RLP))
        &&& self@[H256(BLAKE_NULL_RLP)] == TrieView::empty()
    }

    /// The trie without leaves is at hand, and has none.
    pub proof fn lemma_null_root(&self)
        requires
            self.wf(),
        ensures
            self@.contains_key(H256(BLAKE_NULL_RLP)),
            self@[H256(BLAKE_NULL_RLP)] == TrieView::empty(),
    {
    }

    /// A database that holds the trie without leaves and no other.
    pub fn new() -> (db: Self)
        ensures
            db.wf(),
            db@ == map![H256(BLAKE_NULL_RLP) => TrieView::empty()],
    {
        let mut places: Table<usize> = Table::new();
        let mut tries: Vec<ShardTrie> = Vec::new();
        tries.push(ShardTrie::new());
        let _ = places.put(H256(BLAKE_NULL_RLP), 0usize);
        let db = StateDB { places, tries };
        assert(db@ =~= map![H256(BLAKE_NULL_RLP) => TrieView::empty()]);
        db
    }

    /// Takes in a trie under its root.
    pub fn insert(&mut self, root: H256, trie: ShardTrie)
        requires
            old(self).wf(),
            trie.wf(),
            root != H256(BLAKE_NULL_RLP),
        ensures
            final(self).wf(),
            final(self)@ == old(self)@.insert(root, trie@),
    {
        let place = self.tries.len();
        self.tries.push(trie);
        let _ = self.places.put(root, place);
        assert(self@ =~= old(self)@.insert(root, trie@));
    }

    /// Says whether a trie with this root is at hand.
    pub fn contains(&self, root: &H256) -> (found: bool)
        requires
            self.wf(),
        ensures
            found == self@.contains_key(*root),
    {
        self.places.get(root).is_some()
    }

    /// Opens the trie with this root for reading.
    pub fn readonly(&self, root: &H256) -> (trie: Result<&ShardTrie, TrieError>)
        requires
            self.wf(),
        ensures
            match trie {
                Ok(t) => self@.contains_key(*root) && t.wf() && t@ == self@[*root],
                Err(e) => !self@.contains_key(*root) && e == TrieError::InvalidStateRoot(*root),
            },
    {
        match self.places.get(root) {
            Some(place) => Ok(&self.tries[*place]),
            None => Err(TrieError::InvalidStateRoot(*root)),
        }
    }
}

} // verus!
