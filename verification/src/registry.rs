//! The registry: which slot of the ledger belongs to which asset.
//!
//! A registry is either static or dynamic. In a static registry every asset
//! kind has the slot of its ordinal from the start. A dynamic registry starts
//! empty and gives the next free slot to an asset when it is first
//! registered, up to its capacity. Both answer the same questions, so the
//! code that writes the ledger does not need to know which one is in use.

use vstd::prelude::*;
use crate::error::RegistryError;
use crate::ledger::MAX_ASSETS;
use crate::types::{AssetType, ASSET_KINDS};

verus! {

/// What a registry holds: the registered assets, each at the position of its
/// slot, and the number of slots that it may hand out.
pub struct RegistryModel {
    pub dynamic: bool,
    pub capacity: nat,
    pub assets: Seq<AssetType>,
}

impl RegistryModel {
    /// No asset has two slots, no more slots are taken than the capacity
    /// allows, the capacity is at most [`MAX_ASSETS`], and a static registry
    /// holds every asset kind at its ordinal.
    pub open spec fn wf(self) -> bool {
        &&& self.assets.no_duplicates()
        &&& self.assets.len() <= self.capacity <= MAX_ASSETS
        &&& !self.dynamic ==> self.assets == AssetType::all()
    }

    /// Whether `asset` has the slot `slot`.
    pub open spec fn holds_at(self, asset: AssetType, slot: int) -> bool {
        0 <= slot < self.assets.len() && self.assets[slot] == asset
    }

    /// The slot of `asset`, if it is registered.
    pub open spec fn slot_of(self, asset: AssetType) -> Option<int> {
        if self.assets.contains(asset) {
            Some(self.assets.index_of(asset))
        } else {
            None
        }
    }

    /// What a lookup of `asset` returns.
    pub open spec fn slot_for(self, asset: AssetType) -> Result<int, RegistryError> {
        match self.slot_of(asset) {
            Some(slot) => Ok(slot),
            None => Err(RegistryError::AssetNotFound),
        }
    }

    /// What registering `asset` returns: the slot that it has already, else
    /// the next free slot, else `MaxAssetsReached`.
    pub open spec fn register_result(self, asset: AssetType) -> Result<int, RegistryError> {
        match self.slot_of(asset) {
            Some(slot) => Ok(slot),
            None => if self.assets.len() < self.capacity {
                Ok(self.assets.len() as int)
            } else {
                Err(RegistryError::MaxAssetsReached)
            },
        }
    }

    /// The registry after `asset` was registered: `asset` is appended if it
    /// was absent and a slot was free, and nothing changes otherwise.
    pub open spec fn registered(self, asset: AssetType) -> RegistryModel {
        if !self.assets.contains(asset) && self.assets.len() < self.capacity {
            RegistryModel { assets: self.assets.push(asset), ..self }
        } else {
            self
        }
    }
}

/// Every asset kind stands at its ordinal in the enumeration, and nowhere
/// else.
pub proof fn lemma_all_assets()
    ensures
        AssetType::all().len() == ASSET_KINDS,
        AssetType::all().no_duplicates(),
        forall|asset: AssetType| #[trigger]
            AssetType::all()[asset.ordinal() as int] == asset && asset.ordinal() < ASSET_KINDS,
        forall|asset: AssetType| #[trigger] AssetType::all().contains(asset),
{
    let all = AssetType::all();
    assert forall|asset: AssetType| #[trigger] all.contains(asset) by {
        assert(all[asset.ordinal() as int] == asset);
    }
}

/// In a well-formed registry a registered asset has exactly one slot.
pub proof fn lemma_slot_unique(registry: RegistryModel, asset: AssetType, slot: int)
    requires
        registry.assets.no_duplicates(),
        registry.holds_at(asset, slot),
    ensures
        registry.slot_of(asset) == Some(slot),
{
    assert(registry.assets.contains(asset));
}

/// Registering keeps a registry well-formed, and the asset then has the slot
/// that was returned.
pub proof fn lemma_registered_wf(registry: RegistryModel, asset: AssetType)
    requires
        registry.wf(),
    ensures
        registry.registered(asset).wf(),
        registry.register_result(asset) matches Ok(slot) ==> registry.registered(asset).slot_of(
            asset,
        ) == Some(slot) && 0 <= slot < registry.capacity,
{
    let after = registry.registered(asset);
    if !registry.dynamic {
        lemma_all_assets();
    }
    if !registry.assets.contains(asset) && registry.assets.len() < registry.capacity {
        assert(after.assets.no_duplicates()) by {
            assert forall|i: int, j: int|
                0 <= i < after.assets.len() && 0 <= j < after.assets.len() && i != j implies after.assets[i]
                != after.assets[j] by {
                if i < registry.assets.len() {
                    assert(registry.assets.contains(after.assets[i]));
                }
                if j < registry.assets.len() {
                    assert(registry.assets.contains(after.assets[j]));
                }
            }
        }
        assert(after.holds_at(asset, registry.assets.len() as int));
        lemma_slot_unique(after, asset, registry.assets.len() as int);
    }
}

/// A registry of assets.
pub struct Registry {
    dynamic: bool,
    capacity: usize,
    assets: Vec<AssetType>,
}

impl View for Registry {
    type V = RegistryModel;

    closed spec fn view(&self) -> RegistryModel {
        if self.dynamic {
            RegistryModel { dynamic: true, capacity: self.capacity as nat, assets: self.assets@ }
        } else {
            RegistryModel {
                dynamic: false,
                capacity: ASSET_KINDS as nat,
                assets: AssetType::all(),
            }
        }
    }
}

impl Clone for Registry {
    fn clone(&self) -> (r: Self)
        ensures
            r@ == self@,
    {
        let mut assets: Vec<AssetType> = Vec::new();
        let mut i: usize = 0;
        while i < self.assets.len()
            invariant
                i <= self.assets.len(),
                assets@ == self.assets@.take(i as int),
            decreases self.assets.len() - i,
        {
            assets.push(self.assets[i]);
            i = i + 1;
            proof {
                assert(assets@ =~= self.assets@.take(i as int));
            }
        }
        proof {
            assert(assets@ =~= self.assets@);
        }
        Registry { dynamic: self.dynamic, capacity: self.capacity, assets }
    }
}

impl Registry {
    /// The static registry: every asset kind has the slot of its ordinal.
    pub fn new_static() -> (r: Registry)
        ensures
            r@.wf(),
            r@ == (RegistryModel {
                dynamic: false,
                capacity: ASSET_KINDS as nat,
                assets: AssetType::all(),
            }),
    {
        proof {
            lemma_all_assets();
        }
        Registry { dynamic: false, capacity: ASSET_KINDS, assets: Vec::new() }
    }

    /// An empty dynamic registry with room for `capacity` assets; a capacity
    /// above [`MAX_ASSETS`] is cut to it.
    pub fn new_dynamic(capacity: usize) -> (r: Registry)
        ensures
            r@.wf(),
            r@ == (RegistryModel {
                dynamic: true,
                capacity: if capacity <= MAX_ASSETS {
                    capacity as nat
                } else {
                    MAX_ASSETS as nat
                },
                assets: Seq::<AssetType>::empty(),
            }),
    {
        let capacity = if capacity <= MAX_ASSETS {
            capacity
        } else {
            MAX_ASSETS
        };
        Registry { dynamic: true, capacity, assets: Vec::new() }
    }

    /// Whether the registry is dynamic.
    pub fn is_dynamic(&self) -> (r: bool)
        ensures
            r == self@.dynamic,
    {
        self.dynamic
    }

    /// The number of slots that the registry may hand out.
    pub fn capacity(&self) -> (r: usize)
        ensures
            r == self@.capacity,
    {
        if self.dynamic {
            self.capacity
        } else {
            ASSET_KINDS
        }
    }

    /// The number of registered assets.
    pub fn asset_count(&self) -> (r: usize)
        requires
            self@.wf(),
        ensures
            r == self@.assets.len(),
            r <= MAX_ASSETS,
    {
        if self.dynamic {
            self.assets.len()
        } else {
            proof {
                lemma_all_assets();
            }
            ASSET_KINDS
        }
    }

    /// The position of `asset` among the registered assets.
    fn position(&self, asset: AssetType) -> (r: Option<usize>)
        requires
            self@.wf(),
        ensures
            r matches Some(slot) ==> self@.holds_at(asset, slot as int) && slot < MAX_ASSETS,
            r is None ==> !self@.assets.contains(asset),
            r matches Some(slot) ==> self@.slot_of(asset) == Some(slot as int),
            r is None ==> self@.slot_of(asset) is None,
    {
        if !self.dynamic {
            proof {
                lemma_all_assets();
                lemma_slot_unique(self@, asset, asset.ordinal() as int);
            }
            return Some(asset.index());
        }
        let mut i: usize = 0;
        while i < self.assets.len()
            invariant
                self.dynamic,
                i <= self.assets.len(),
                self@.wf(),
                forall|j: int| 0 <= j < i ==> self.assets@[j] != asset,
            decreases self.assets.len() - i,
        {
            if self.assets[i] == asset {
                proof {
                    lemma_slot_unique(self@, asset, i as int);
                }
                return Some(i);
            }
            i = i + 1;
        }
        None
    }

    /// Looks up the slot of `asset`.
    pub fn slot_for(&self, asset: AssetType) -> (r: Result<usize, RegistryError>)
        requires
            self@.wf(),
        ensures
            r matches Ok(slot) ==> self@.slot_for(asset) == Ok::<int, RegistryError>(slot as int)
                && self@.holds_at(asset, slot as int) && slot < MAX_ASSETS,
            r matches Err(e) ==> self@.slot_for(asset) == Err::<int, RegistryError>(e)
                && !self@.assets.contains(asset),
    {
        match self.position(asset) {
            Some(slot) => Ok(slot),
            None => Err(RegistryError::AssetNotFound),
        }
    }

    /// The slot that registering `asset` would return, without registering
    /// it.
    pub fn slot_to_write(&self, asset: AssetType) -> (r: Result<usize, RegistryError>)
        requires
            self@.wf(),
        ensures
            r matches Ok(slot) ==> self@.register_result(asset) == Ok::<int, RegistryError>(
                slot as int,
            ) && slot < MAX_ASSETS,
            r matches Err(e) ==> self@.register_result(asset) == Err::<int, RegistryError>(e),
    {
        match self.position(asset) {
            Some(slot) => Ok(slot),
            None => {
                proof {
                    if !self.dynamic {
                        lemma_all_assets();
                    }
                }
                if self.dynamic && self.assets.len() < self.capacity {
                    Ok(self.assets.len())
                } else {
                    Err(RegistryError::MaxAssetsReached)
                }
            },
        }
    }

    /// Registers `asset` and returns its slot.
    ///
    /// An asset that is registered already keeps its slot and nothing
    /// changes. Otherwise it gets the next free slot; when none is free the
    /// call fails with `MaxAssetsReached` and nothing changes.
    pub fn register(&mut self, asset: AssetType) -> (r: Result<usize, RegistryError>)
        requires
            old(self)@.wf(),
        ensures
            final(self)@.wf(),
            final(self)@ == old(self)@.registered(asset),
            r matches Ok(slot) ==> old(self)@.register_result(asset) == Ok::<int, RegistryError>(
                slot as int,
            ) && final(self)@.holds_at(asset, slot as int) && slot < MAX_ASSETS,
            r matches Err(e) ==> old(self)@.register_result(asset) == Err::<int, RegistryError>(e)
                && !final(self)@.assets.contains(asset),
    {
        proof {
            lemma_registered_wf(self@, asset);
        }
        match self.position(asset) {
            Some(slot) => Ok(slot),
            None => {
                proof {
                    if !self.dynamic {
                        lemma_all_assets();
                    }
                }
                if self.dynamic && self.assets.len() < self.capacity {
                    let slot = self.assets.len();
                    self.assets.push(asset);
                    Ok(slot)
                } else {
                    Err(RegistryError::MaxAssetsReached)
                }
            },
        }
    }
}

} // verus!
