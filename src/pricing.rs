//! Decisions of Black-Scholes-Merton pricing for European options.
//!
//! The closed-form formulas work on real numbers; what is decided here is
//! which parameters are acceptable, which regime (at expiry or before it) a
//! request falls into, and the payoff-driven delta at expiry. Each real
//! parameter reaches this module as its [`Sign`], the one property of it that
//! these decisions read.
use vstd::prelude::*;

verus! {

/// Errors of option pricing.
#[derive(Debug, Clone, PartialEq)]
pub enum PricingError {
    InvalidParameter(String),
    CalculationError(String),
}

/// Side of a European option.
#[derive(Debug, Clone, Copy, PartialEq, Eq, Structural)]
pub enum OptionType {
    /// Right to buy at the strike.
    Call,
    /// Right to sell at the strike.
    Put,
}

/// How a real quantity compares with zero; `Unordered` is a value that is
/// not a number and compares with nothing.
#[derive(Debug, Clone, Copy, PartialEq, Eq, Structural)]
pub enum Sign {
    Negative,
    Zero,
    Positive,
    Unordered,
}

/// The pricing parameters that validation constrains, each given by its sign.
/// The rate and the dividend yield may have any sign and are not listed.
#[derive(Debug, Clone, Copy, PartialEq, Eq, Structural)]
pub struct ParamSigns {
    pub spot_price: Sign,
    pub strike_price: Sign,
    pub time_to_expiry: Sign,
    pub volatility: Sign,
}

/// A parameter that validation may reject.
#[derive(Debug, Clone, Copy, PartialEq, Eq, Structural)]
pub enum ParamField {
    SpotPrice,
    StrikePrice,
    TimeToExpiry,
    Volatility,
}

/// Which formula prices a valid request.
#[derive(Debug, Clone, Copy, PartialEq, Eq, Structural)]
pub enum Regime {
    /// No time is left: the price is the intrinsic value.
    AtExpiry,
    /// Time is left and volatility is positive: the closed form applies.
    BeforeExpiry,
}

/// The sign is `> 0`.
pub open spec fn is_positive(s: Sign) -> bool {
    s is Positive
}

/// The sign is `>= 0`.
pub open spec fn is_non_negative(s: Sign) -> bool {
    s is Positive || s is Zero
}

/// The first parameter, in the order spot, strike, time, volatility, that
/// breaks its constraint: spot and strike must be positive, time to expiry
/// and volatility non-negative.
pub open spec fn first_invalid(p: ParamSigns) -> Option<ParamField> {
    if !is_positive(p.spot_price) {
        Some(ParamField::SpotPrice)
    } else if !is_positive(p.strike_price) {
        Some(ParamField::StrikePrice)
    } else if !is_non_negative(p.time_to_expiry) {
        Some(ParamField::TimeToExpiry)
    } else if !is_non_negative(p.volatility) {
        Some(ParamField::Volatility)
    } else {
        None
    }
}

/// The message that names a rejected parameter.
pub open spec fn field_message(f: ParamField) -> Seq<char> {
    match f {
        ParamField::SpotPrice => "Spot price must be positive"@,
        ParamField::StrikePrice => "Strike price must be positive"@,
        ParamField::TimeToExpiry => "Time to expiry cannot be negative"@,
        ParamField::Volatility => "Volatility cannot be negative"@,
    }
}

/// `e` is the rejection of parameter `f`.
pub open spec fn rejects_field(e: PricingError, f: ParamField) -> bool {
    match e {
        PricingError::InvalidParameter(m) => m@ == field_message(f),
        PricingError::CalculationError(_) => false,
    }
}

/// The option is in the money at expiry, given the sign of `spot - strike`.
pub open spec fn in_the_money(option_type: OptionType, spot_minus_strike: Sign) -> bool {
    match option_type {
        OptionType::Call => spot_minus_strike is Positive,
        OptionType::Put => spot_minus_strike is Negative,
    }
}

/// Delta at expiry: `1` for a call and `-1` for a put in the money, else `0`.
pub open spec fn expiry_delta_of(option_type: OptionType, spot_minus_strike: Sign) -> int {
    if in_the_money(option_type, spot_minus_strike) {
        match option_type {
            OptionType::Call => 1,
            OptionType::Put => -1,
        }
    } else {
        0
    }
}

/// The lower-case form of a string.
pub uninterp spec fn lower_of(s: Seq<char>) -> Seq<char>;

/// Relies on `str::to_lowercase`: the result depends on the characters alone.
#[verifier::external_body]
fn lowercase(s: &str) -> (r: String)
    ensures
        r@ == lower_of(s@),
{
    s.to_lowercase()
}

impl ParamSigns {
    /// Accepts the parameters, or rejects the first one that breaks its
    /// constraint with `InvalidParameter` naming it.
    pub fn validate(&self) -> (r: Result<(), PricingError>)
        ensures
            r is Ok <==> first_invalid(*self) is None,
            r is Err ==> rejects_field(r->Err_0, first_invalid(*self)->Some_0),
    {
        if !matches!(self.spot_price, Sign::Positive) {
            return Err(PricingError::InvalidParameter("Spot price must be positive".to_owned()));
        }
        if !matches!(self.strike_price, Sign::Positive) {
            return Err(PricingError::InvalidParameter("Strike price must be positive".to_owned()));
        }
        if !matches!(self.time_to_expiry, Sign::Positive | Sign::Zero) {
            return Err(
                PricingError::InvalidParameter("Time to expiry cannot be negative".to_owned()),
            );
        }
        if !matches!(self.volatility, Sign::Positive | Sign::Zero) {
            return Err(PricingError::InvalidParameter("Volatility cannot be negative".to_owned()));
        }
        Ok(())
    }
}

impl OptionType {
    /// The side named `"call"` or `"put"`, in any letter case.
    pub fn from_lowercase(name: &str) -> (r: Option<OptionType>)
        ensures
            r == (if name@ == "call"@ {
                Some(OptionType::Call)
            } else if name@ == "put"@ {
                Some(OptionType::Put)
            } else {
                None
            }),
    {
        let owned = name.to_owned();
        if owned == "call".to_owned() {
            Some(OptionType::Call)
        } else if owned == "put".to_owned() {
            Some(OptionType::Put)
        } else {
            None
        }
    }

    /// The side whose name, in lower case, is `"call"` or `"put"`.
    pub fn from_name(name: &str) -> (r: Option<OptionType>)
        ensures
            r == (if lower_of(name@) == "call"@ {
                Some(OptionType::Call)
            } else if lower_of(name@) == "put"@ {
                Some(OptionType::Put)
            } else {
                None
            }),
    {
        let lowered = lowercase(name);
        OptionType::from_lowercase(lowered.as_str())
    }
}

/// The Black-Scholes-Merton model for European options.
#[derive(Debug, Clone, Copy, PartialEq, Eq, Structural)]
pub struct BlackScholes;

impl BlackScholes {
    /// Which formula prices a request with these parameters: rejects invalid
    /// parameters as [`ParamSigns::validate`] does, prices at the intrinsic
    /// value when no time is left, and fails with `CalculationError` when
    /// time is left but volatility is zero, where the closed form divides by
    /// zero.
    pub fn regime(params: &ParamSigns) -> (r: Result<Regime, PricingError>)
        ensures
            first_invalid(*params) is Some ==> r is Err && rejects_field(
                r->Err_0,
                first_invalid(*params)->Some_0,
            ),
            first_invalid(*params) is None ==> {
                if params.time_to_expiry is Zero {
                    r == Ok::<Regime, PricingError>(Regime::AtExpiry)
                } else if params.volatility is Zero {
                    r is Err && r->Err_0 is CalculationError
                } else {
                    r == Ok::<Regime, PricingError>(Regime::BeforeExpiry)
                }
            },
    {
        match params.validate() {
            Err(e) => {
                return Err(e);
            },
            Ok(()) => {},
        }
        if matches!(params.time_to_expiry, Sign::Zero) {
            return Ok(Regime::AtExpiry);
        }
        if matches!(params.volatility, Sign::Zero) {
            return Err(
                PricingError::CalculationError(
                    "Volatility must be positive while time to expiry remains".to_owned(),
                ),
            );
        }
        Ok(Regime::BeforeExpiry)
    }

    /// Delta at expiry, from the sign of `spot - strike`: `1` for a call and
    /// `-1` for a put that is in the money (positive intrinsic value), `0`
    /// otherwise.
    pub fn expiry_delta(option_type: OptionType, spot_minus_strike: Sign) -> (r: i8)
        ensures
            r as int == expiry_delta_of(option_type, spot_minus_strike),
            -1 <= r <= 1,
    {
        match (option_type, spot_minus_strike) {
            (OptionType::Call, Sign::Positive) => 1,
            (OptionType::Put, Sign::Negative) => -1,
            _ => 0,
        }
    }
}

} // verus!
