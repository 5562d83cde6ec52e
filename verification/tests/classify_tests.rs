use cred_link::{
    bytes_eq, classify, required_ratio, usdc_id, usdt_id, xlm_id, AssetClass, CredLinkContract,
    Error,
};

#[test]
fn ticker_constants_spell_the_assets() {
    assert_eq!(usdc_id(), b"USDC".to_vec());
    assert_eq!(usdt_id(), b"USDT".to_vec());
    assert_eq!(xlm_id(), b"XLM".to_vec());
}

#[test]
fn stablecoins_classify_as_stablecoin() {
    assert_eq!(classify(&b"USDC".to_vec()), AssetClass::Stablecoin);
    assert_eq!(classify(&b"USDT".to_vec()), AssetClass::Stablecoin);
}

#[test]
fn native_asset_classifies_as_native() {
    assert_eq!(classify(&b"XLM".to_vec()), AssetClass::Native);
}

#[test]
fn anything_else_classifies_as_other() {
    assert_eq!(classify(&b"BTC".to_vec()), AssetClass::Other);
    assert_eq!(classify(&b"usdc".to_vec()), AssetClass::Other);
    assert_eq!(classify(&Vec::new()), AssetClass::Other);
}

#[test]
fn required_ratios_per_tier() {
    assert_eq!(required_ratio(AssetClass::Stablecoin), 11_000);
    assert_eq!(required_ratio(AssetClass::Native), 12_500);
    assert_eq!(required_ratio(AssetClass::Other), 15_000);
}

#[test]
fn bytes_eq_compares_contents() {
    assert!(bytes_eq(&b"XLM".to_vec(), &b"XLM".to_vec()));
    assert!(!bytes_eq(&b"XLM".to_vec(), &b"XL".to_vec()));
    assert!(!bytes_eq(&b"XLM".to_vec(), &b"XLm".to_vec()));
    assert!(bytes_eq(&Vec::new(), &Vec::new()));
}

#[test]
fn native_tier_needs_125_percent() {
    let mut c = CredLinkContract::new();
    c.register_user(vec![1], 42).unwrap();
    c.create_lending_pool(b"USDC".to_vec(), 100_000, 500, 500, 30)
        .unwrap();
    assert_eq!(
        c.originate_loan(
            vec![1],
            b"USDC".to_vec(),
            10_000,
            b"XLM".to_vec(),
            12_499,
            1000,
            vec![9],
        ),
        Err(Error::InsufficientCollateral)
    );
    assert!(c
        .originate_loan(
            vec![1],
            b"USDC".to_vec(),
            10_000,
            b"XLM".to_vec(),
            12_500,
            1000,
            vec![9],
        )
        .is_ok());
}

#[test]
fn other_tier_needs_150_percent() {
    let mut c = CredLinkContract::new();
    c.register_user(vec![1], 42).unwrap();
    c.create_lending_pool(b"USDC".to_vec(), 100_000, 500, 500, 30)
        .unwrap();
    assert_eq!(
        c.originate_loan(
            vec![1],
            b"USDC".to_vec(),
            10_000,
            b"BTC".to_vec(),
            14_999,
            1000,
            vec![9],
        ),
        Err(Error::InsufficientCollateral)
    );
    assert!(c
        .originate_loan(
            vec![1],
            b"USDC".to_vec(),
            10_000,
            b"BTC".to_vec(),
            15_000,
            1000,
            vec![9],
        )
        .is_ok());
}
