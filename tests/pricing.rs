use finance_core::pricing::{BlackScholes, OptionType, ParamSigns, PricingError, Regime, Sign};

fn signs(spot: Sign, strike: Sign, time: Sign, vol: Sign) -> ParamSigns {
    ParamSigns { spot_price: spot, strike_price: strike, time_to_expiry: time, volatility: vol }
}

#[test]
fn negative_spot_is_rejected() {
    let p = signs(Sign::Negative, Sign::Positive, Sign::Positive, Sign::Positive);
    let expected = Err(PricingError::InvalidParameter("Spot price must be positive".to_string()));
    assert_eq!(p.validate(), expected);
    assert_eq!(BlackScholes::regime(&p), Err(PricingError::InvalidParameter(
        "Spot price must be positive".to_string()
    )));
}

#[test]
fn each_field_is_checked_in_order() {
    let bad = |m: &str| Err(PricingError::InvalidParameter(m.to_string()));
    let p = signs(Sign::Zero, Sign::Zero, Sign::Negative, Sign::Negative);
    assert_eq!(p.validate(), bad("Spot price must be positive"));
    let p = signs(Sign::Positive, Sign::Zero, Sign::Negative, Sign::Negative);
    assert_eq!(p.validate(), bad("Strike price must be positive"));
    let p = signs(Sign::Positive, Sign::Positive, Sign::Negative, Sign::Negative);
    assert_eq!(p.validate(), bad("Time to expiry cannot be negative"));
    let p = signs(Sign::Positive, Sign::Positive, Sign::Zero, Sign::Negative);
    assert_eq!(p.validate(), bad("Volatility cannot be negative"));
    let p = signs(Sign::Positive, Sign::Positive, Sign::Zero, Sign::Unordered);
    assert_eq!(p.validate(), bad("Volatility cannot be negative"));
    let p = signs(Sign::Positive, Sign::Positive, Sign::Zero, Sign::Zero);
    assert_eq!(p.validate(), Ok(()));
}

#[test]
fn regimes() {
    let at_expiry = signs(Sign::Positive, Sign::Positive, Sign::Zero, Sign::Positive);
    assert_eq!(BlackScholes::regime(&at_expiry), Ok(Regime::AtExpiry));
    let flat_at_expiry = signs(Sign::Positive, Sign::Positive, Sign::Zero, Sign::Zero);
    assert_eq!(BlackScholes::regime(&flat_at_expiry), Ok(Regime::AtExpiry));
    let live = signs(Sign::Positive, Sign::Positive, Sign::Positive, Sign::Positive);
    assert_eq!(BlackScholes::regime(&live), Ok(Regime::BeforeExpiry));
    let flat = signs(Sign::Positive, Sign::Positive, Sign::Positive, Sign::Zero);
    assert!(matches!(BlackScholes::regime(&flat), Err(PricingError::CalculationError(_))));
}

#[test]
fn expiry_deltas() {
    // spot 110, strike 100
    assert_eq!(BlackScholes::expiry_delta(OptionType::Call, Sign::Positive), 1);
    assert_eq!(BlackScholes::expiry_delta(OptionType::Put, Sign::Positive), 0);
    // spot 90, strike 100
    assert_eq!(BlackScholes::expiry_delta(OptionType::Call, Sign::Negative), 0);
    assert_eq!(BlackScholes::expiry_delta(OptionType::Put, Sign::Negative), -1);
    // at the money
    assert_eq!(BlackScholes::expiry_delta(OptionType::Call, Sign::Zero), 0);
    assert_eq!(BlackScholes::expiry_delta(OptionType::Put, Sign::Zero), 0);
}

#[test]
fn option_type_names() {
    assert_eq!(OptionType::from_name("call"), Some(OptionType::Call));
    assert_eq!(OptionType::from_name("CALL"), Some(OptionType::Call));
    assert_eq!(OptionType::from_name("Put"), Some(OptionType::Put));
    assert_eq!(OptionType::from_name("straddle"), None);
    assert_eq!(OptionType::from_lowercase("PUT"), None);
    assert_eq!(OptionType::from_lowercase("put"), Some(OptionType::Put));
}
