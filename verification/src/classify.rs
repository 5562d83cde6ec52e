use vstd::prelude::*;

use crate::types::{AssetClass, BPS_DENOMINATOR, STABLECOIN_RATIO, XLM_RATIO, OTHER_ASSET_RATIO};

verus! {

/// Identifier of the USDC stablecoin: the ASCII bytes of "USDC".
pub open spec fn spec_usdc() -> Seq<u8> {
    seq![85u8, 83u8, 68u8, 67u8]
}

/// Identifier of the USDT stablecoin: the ASCII bytes of "USDT".
pub open spec fn spec_usdt() -> Seq<u8> {
    seq![85u8, 83u8, 68u8, 84u8]
}

/// Identifier of the network's native asset: the ASCII bytes of "XLM".
pub open spec fn spec_xlm() -> Seq<u8> {
    seq![88u8, 76u8, 77u8]
}

/// The risk tier of an asset: the known stablecoins, the native asset,
/// and everything else.
pub open spec fn spec_classify(asset: Seq<u8>) -> AssetClass {
    if asset == spec_usdc() || asset == spec_usdt() {
        AssetClass::Stablecoin
    } else if asset == spec_xlm() {
        AssetClass::Native
    } else {
        AssetClass::Other
    }
}

/// Minimum collateralization ratio demanded of a tier at origination,
/// in basis points.
pub open spec fn spec_required_ratio(class: AssetClass) -> u32 {
    match class {
        AssetClass::Stablecoin => STABLECOIN_RATIO,
        AssetClass::Native => XLM_RATIO,
        AssetClass::Other => OTHER_ASSET_RATIO,
    }
}

/// Collateral value per unit borrowed, in basis points (rounded down).
pub open spec fn spec_collateral_ratio(collateral_amount: u64, amount: u64) -> int
    recommends
        amount > 0,
{
    collateral_amount * (BPS_DENOMINATOR as int) / (amount as int)
}

/// Whether the posted collateral reaches the tier's required ratio.
pub open spec fn collateral_sufficient(collateral_amount: u64, amount: u64, class: AssetClass) -> bool
    recommends
        amount > 0,
{
    spec_collateral_ratio(collateral_amount, amount) >= spec_required_ratio(class)
}

/// Byte-for-byte equality of two identifiers.
pub fn bytes_eq(a: &Vec<u8>, b: &Vec<u8>) -> (r: bool)
    ensures
        r <==> a@ == b@,
{
    if a.len() != b.len() {
        return false;
    }
    let mut i: usize = 0;
    while i < a.len()
        invariant
            i <= a.len(),
            a.len() == b.len(),
            forall|j: int| 0 <= j < i ==> a@[j] == b@[j],
        decreases a.len() - i,
    {
        if a[i] != b[i] {
            return false;
        }
        i += 1;
    }
    proof {
        assert(a@ =~= b@);
    }
    true
}

/// A fresh vector holding the same bytes.
pub fn copy_bytes(a: &Vec<u8>) -> (r: Vec<u8>)
    ensures
        r@ == a@,
{
    let mut v: Vec<u8> = Vec::new();
    let mut i: usize = 0;
    while i < a.len()
        invariant
            i <= a.len(),
            v@ =~= a@.subrange(0, i as int),
        decreases a.len() - i,
    {
        v.push(a[i]);
        i = i + 1;
        proof {
            assert(v@ =~= a@.subrange(0, i as int));
        }
    }
    proof {
        assert(v@ =~= a@);
    }
    v
}

/// The USDC identifier as a value.
pub fn usdc_id() -> (r: Vec<u8>)
    ensures
        r@ == spec_usdc(),
{
    let mut v: Vec<u8> = Vec::new();
    v.push(85);
    v.push(83);
    v.push(68);
    v.push(67);
    proof {
        assert(v@ =~= spec_usdc());
    }
    v
}

/// The USDT identifier as a value.
pub fn usdt_id() -> (r: Vec<u8>)
    ensures
        r@ == spec_usdt(),
{
    let mut v: Vec<u8> = Vec::new();
    v.push(85);
    v.push(83);
    v.push(68);
    v.push(84);
    proof {
        assert(v@ =~= spec_usdt());
    }
    v
}

/// The native-asset identifier as a value.
pub fn xlm_id() -> (r: Vec<u8>)
    ensures
        r@ == spec_xlm(),
{
    let mut v: Vec<u8> = Vec::new();
    v.push(88);
    v.push(76);
    v.push(77);
    proof {
        assert(v@ =~= spec_xlm());
    }
    v
}

/// Classifies an asset identifier into its collateral risk tier.
pub fn classify(asset: &Vec<u8>) -> (r: AssetClass)
    ensures
        r == spec_classify(asset@),
{
    if bytes_eq(asset, &usdc_id()) || bytes_eq(asset, &usdt_id()) {
        AssetClass::Stablecoin
    } else if bytes_eq(asset, &xlm_id()) {
        AssetClass::Native
    } else {
        AssetClass::Other
    }
}

/// Minimum collateralization ratio demanded of a tier, in basis points.
pub fn required_ratio(class: AssetClass) -> (r: u32)
    ensures
        r == spec_required_ratio(class),
{
    match class {
        AssetClass::Stablecoin => STABLECOIN_RATIO,
        AssetClass::Native => XLM_RATIO,
        AssetClass::Other => OTHER_ASSET_RATIO,
    }
}

/// Whether the posted collateral reaches the ratio required for its tier.
pub fn collateral_meets_ratio(collateral_amount: u64, amount: u64, class: AssetClass) -> (r: bool)
    requires
        amount > 0,
    ensures
        r == collateral_sufficient(collateral_amount, amount, class),
{
    let ratio: u128 = (collateral_amount as u128) * (BPS_DENOMINATOR as u128) / (amount as u128);
    ratio >= (required_ratio(class) as u128)
}

} // verus!
