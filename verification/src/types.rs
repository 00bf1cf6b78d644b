//! The asset kinds that the oracle tracks, and the identity of an account.

use vstd::prelude::*;
use vstd::std_specs::convert::FromSpecImpl;

verus! {

/// Number of asset kinds.
pub const ASSET_KINDS: usize = 7;

/// A liquid-staking token tracked by the oracle, or the base asset `SOL`.
///
/// The order of the variants is the order of the slots in the static
/// registry: it is a stable key, not a ranking.
#[derive(Clone, Copy, Debug, PartialEq, Eq, Hash, Structural)]
pub enum AssetType {
    JupSOL,
    VSOL,
    BSOL,
    MSOL,
    HSOL,
    JitoSOL,
    SOL,
}

impl AssetType {
    /// The position of the asset kind in the enumeration.
    pub open spec fn ordinal(self) -> nat {
        match self {
            AssetType::JupSOL => 0,
            AssetType::VSOL => 1,
            AssetType::BSOL => 2,
            AssetType::MSOL => 3,
            AssetType::HSOL => 4,
            AssetType::JitoSOL => 5,
            AssetType::SOL => 6,
        }
    }

    /// All asset kinds, each at the position of its ordinal.
    pub open spec fn all() -> Seq<AssetType> {
        seq![
            AssetType::JupSOL,
            AssetType::VSOL,
            AssetType::BSOL,
            AssetType::MSOL,
            AssetType::HSOL,
            AssetType::JitoSOL,
            AssetType::SOL,
        ]
    }

    /// The position of the asset kind in the enumeration.
    pub fn index(self) -> (r: usize)
        ensures
            r == self.ordinal(),
            r < ASSET_KINDS,
    {
        match self {
            AssetType::JupSOL => 0,
            AssetType::VSOL => 1,
            AssetType::BSOL => 2,
            AssetType::MSOL => 3,
            AssetType::HSOL => 4,
            AssetType::JitoSOL => 5,
            AssetType::SOL => 6,
        }
    }

    /// The asset kind at position `index`, if there is one.
    pub fn from_index(index: usize) -> (r: Option<AssetType>)
        ensures
            index < ASSET_KINDS ==> r == Some(AssetType::all()[index as int]),
            index >= ASSET_KINDS ==> r is None,
            r matches Some(asset) ==> asset.ordinal() == index,
    {
        match index {
            0 => Some(AssetType::JupSOL),
            1 => Some(AssetType::VSOL),
            2 => Some(AssetType::BSOL),
            3 => Some(AssetType::MSOL),
            4 => Some(AssetType::HSOL),
            5 => Some(AssetType::JitoSOL),
            6 => Some(AssetType::SOL),
            _ => None,
        }
    }

    /// All asset kinds in the order of their ordinals.
    pub fn iter() -> (r: [AssetType; 7])
        ensures
            r@ == AssetType::all(),
    {
        let kinds = [
            AssetType::JupSOL,
            AssetType::VSOL,
            AssetType::BSOL,
            AssetType::MSOL,
            AssetType::HSOL,
            AssetType::JitoSOL,
            AssetType::SOL,
        ];
        assert(kinds@ =~= AssetType::all());
        kinds
    }
}

/// An asset kind held as a value of its own, with `SOL` as the default.
#[derive(Clone, Copy, Debug, PartialEq, Eq, Structural)]
pub struct AssetTypeWrapper {
    pub asset_type: AssetType,
}

impl AssetTypeWrapper {
    /// The wrapper of `asset_type`.
    pub fn new(asset_type: AssetType) -> (r: Self)
        ensures
            r.asset_type == asset_type,
    {
        Self { asset_type }
    }

    /// The asset kind that the wrapper holds.
    pub fn get(&self) -> (r: AssetType)
        ensures
            r == self.asset_type,
    {
        self.asset_type
    }
}

impl From<AssetType> for AssetTypeWrapper {
    fn from(asset_type: AssetType) -> (r: Self) {
        Self::new(asset_type)
    }
}

impl FromSpecImpl<AssetType> for AssetTypeWrapper {
    open spec fn obeys_from_spec() -> bool {
        true
    }

    open spec fn from_spec(asset_type: AssetType) -> Self {
        AssetTypeWrapper { asset_type }
    }
}

impl Default for AssetTypeWrapper {
    fn default() -> (r: Self)
        ensures
            r.asset_type == AssetType::SOL,
    {
        Self { asset_type: AssetType::SOL }
    }
}

} // verus!
