//! Exponential moving average over a price history, in batch and in
//! streaming form.
//!
//! The recurrence, its seeding rule, its shape and the smoothing factor
//! `alpha = 2 / (period + 1)` are fixed here; the arithmetic on samples (the
//! arithmetic mean that seeds the series, and the weighted blend
//! `alpha * price + (1 - alpha) * previous`, which is handed `alpha` as a
//! fraction) is supplied by the caller, so that the same verified recurrence
//! serves any sample type.
use vstd::prelude::*;
use vstd::string::StringExecFns;

verus! {

/// Errors of the indicator computations.
#[derive(Debug, Clone, PartialEq)]
pub enum IndicatorError {
    InvalidParameter(String),
    InsufficientData(String),
    CalculationError(String),
}

/// `e` is an `InsufficientData` error with message `text`.
pub open spec fn insufficient_data_with(e: IndicatorError, text: Seq<char>) -> bool {
    match e {
        IndicatorError::InsufficientData(m) => m@ == text,
        _ => false,
    }
}

/// The character of the decimal digit `d`, for `d < 10`.
pub open spec fn digit_char(d: nat) -> char {
    if d == 0 {
        '0'
    } else if d == 1 {
        '1'
    } else if d == 2 {
        '2'
    } else if d == 3 {
        '3'
    } else if d == 4 {
        '4'
    } else if d == 5 {
        '5'
    } else if d == 6 {
        '6'
    } else if d == 7 {
        '7'
    } else if d == 8 {
        '8'
    } else {
        '9'
    }
}

/// The decimal form of `n`, without leading zeros.
pub open spec fn decimal(n: nat) -> Seq<char>
    decreases n,
{
    if n < 10 {
        seq![digit_char(n)]
    } else {
        decimal(n / 10).push(digit_char(n % 10))
    }
}

/// Text of the `InsufficientData` error raised when `got` samples are given
/// and `need` are required.
pub open spec fn shortfall_text(need: nat, got: nat) -> Seq<char> {
    "Need at least "@ + decimal(need) + " data points, got "@ + decimal(got)
}

/// The one-character string of the decimal digit `d`.
fn digit_str(d: usize) -> (r: &'static str)
    requires
        d < 10,
    ensures
        r@ == seq![digit_char(d as nat)],
{
    proof {
        reveal_strlit("0");
        reveal_strlit("1");
        reveal_strlit("2");
        reveal_strlit("3");
        reveal_strlit("4");
        reveal_strlit("5");
        reveal_strlit("6");
        reveal_strlit("7");
        reveal_strlit("8");
        reveal_strlit("9");
    }
    match d {
        0 => "0",
        1 => "1",
        2 => "2",
        3 => "3",
        4 => "4",
        5 => "5",
        6 => "6",
        7 => "7",
        8 => "8",
        _ => "9",
    }
}

/// Appends the decimal form of `n` to `s`.
fn append_decimal(s: &mut String, n: usize)
    ensures
        final(s)@ == old(s)@ + decimal(n as nat),
    decreases n,
{
    if n >= 10 {
        append_decimal(s, n / 10);
    }
    s.append(digit_str(n % 10));
    proof {
        if n >= 10 {
            assert(final(s)@ =~= old(s)@ + decimal(n as nat));
        } else {
            assert(final(s)@ =~= old(s)@ + decimal(n as nat));
        }
    }
}

/// The message of the `InsufficientData` error for `got` samples where
/// `need` are required.
fn shortfall_message(need: usize, got: usize) -> (r: String)
    ensures
        r@ == shortfall_text(need as nat, got as nat),
{
    let mut s = String::from_str("Need at least ");
    append_decimal(&mut s, need);
    s.append(" data points, got ");
    append_decimal(&mut s, got);
    s
}

/// An exponential moving average configuration: a positive period, and the
/// smoothing factor `alpha = 2 / (period + 1)` that follows from it.
#[derive(Debug, Clone, Copy, PartialEq, Eq)]
pub struct EMA {
    period: usize,
}

impl View for EMA {
    type V = nat;

    /// The configured period.
    closed spec fn view(&self) -> nat {
        self.period as nat
    }
}

/// The smoothing factor for `period` as `(numerator, denominator)`:
/// `alpha = 2 / (period + 1)`.
pub open spec fn alpha_fraction(period: nat) -> (u64, u128) {
    (2, (period + 1) as u128)
}

/// `out` is the EMA series of `prices` for `period`, where `seed` yields the
/// first value from the first `period` prices and
/// `blend(alpha_fraction(period), prev, price)` yields each later one:
/// `period - 1` absent entries, then one present entry per remaining sample.
pub open spec fn is_ema_series<T, M: Fn(Vec<T>) -> T, B: Fn((u64, u128), T, T) -> T>(
    period: nat,
    prices: Seq<T>,
    seed: M,
    blend: B,
    out: Seq<Option<T>>,
) -> bool {
    &&& 0 < period <= prices.len()
    &&& out.len() == prices.len()
    &&& forall|i: int| 0 <= i < period - 1 ==> (#[trigger] out[i]) is None
    &&& forall|i: int| period - 1 <= i < out.len() ==> (#[trigger] out[i]) is Some
    &&& exists|w: Vec<T>|
        #![trigger seed.ensures((w,), out[period - 1]->Some_0)]
        w@ == prices.subrange(0, period as int) && seed.ensures((w,), out[period - 1]->Some_0)
    &&& forall|i: int|
        period <= i < out.len() ==> blend.ensures(
            (alpha_fraction(period), out[i - 1]->Some_0, prices[i]),
            (#[trigger] out[i])->Some_0,
        )
}

impl EMA {
    #[verifier::type_invariant]
    spec fn period_positive(&self) -> bool {
        self.period > 0
    }

    /// A configuration for `period` samples; a period of zero is refused.
    pub fn new(period: usize) -> (r: Result<EMA, IndicatorError>)
        ensures
            r is Err <==> period == 0,
            r is Err ==> r->Err_0 is InvalidParameter,
            r is Ok ==> r->Ok_0@ == period as nat,
    {
        if period == 0 {
            return Err(IndicatorError::InvalidParameter("Period must be greater than 0".to_owned()));
        }
        Ok(EMA { period })
    }

    /// The configured period, which is positive.
    pub fn period(&self) -> (r: usize)
        ensures
            r as nat == self@,
            r > 0,
    {
        proof {
            use_type_invariant(self);
        }
        self.period
    }

    /// The smoothing factor as a fraction `(numerator, denominator)`:
    /// `alpha = 2 / (period + 1)`.
    pub fn alpha_ratio(&self) -> (r: (u64, u128))
        ensures
            r == alpha_fraction(self@),
            r.0 == 2,
            r.1 == self@ + 1,
    {
        (2, self.period as u128 + 1)
    }

    /// The EMA series of `prices`: absent for the first `period - 1` samples,
    /// then the mean of the first `period` samples (computed by `seed`), then
    /// `blend(alpha, previous, price)` for each later sample, with the
    /// configuration's smoothing factor as `alpha`.
    ///
    /// Fails with `InsufficientData` when `prices` is empty or shorter than
    /// the period; the message names the required and the given counts.
    pub fn calculate<T: Copy, M: Fn(Vec<T>) -> T, B: Fn((u64, u128), T, T) -> T>(
        &self,
        prices: &[T],
        seed: M,
        blend: B,
    ) -> (r: Result<Vec<Option<T>>, IndicatorError>)
        requires
            forall|w: Vec<T>| w@ == prices@.subrange(0, self@ as int) ==> seed.requires((w,)),
            forall|alpha: (u64, u128), prev: T, price: T| blend.requires((alpha, prev, price)),
        ensures
            r is Err <==> prices@.len() == 0 || prices@.len() < self@,
            r is Err ==> insufficient_data_with(
                r->Err_0,
                shortfall_text(self@, prices@.len()),
            ),
            r is Ok ==> is_ema_series(self@, prices@, seed, blend, r->Ok_0@),
    {
        proof {
            use_type_invariant(self);
        }
        let n = prices.len();
        if n < self.period {
            return Err(IndicatorError::InsufficientData(shortfall_message(self.period, n)));
        }
        let p = self.period;
        let mut out: Vec<Option<T>> = Vec::with_capacity(n);
        let mut window: Vec<T> = Vec::with_capacity(p);
        let mut i: usize = 0;
        while i < p - 1
            invariant
                0 < p <= n == prices@.len(),
                i <= p - 1,
                out@.len() == i,
                forall|j: int| 0 <= j < i ==> (#[trigger] out@[j]) is None,
            decreases p - 1 - i,
        {
            out.push(None);
            i += 1;
        }
        let mut w: usize = 0;
        while w < p
            invariant
                0 < p <= n == prices@.len(),
                w <= p,
                window@ == prices@.subrange(0, w as int),
            decreases p - w,
        {
            window.push(prices[w]);
            w += 1;
            proof {
                assert(window@ =~= prices@.subrange(0, w as int));
            }
        }
        let ghost head = window;
        let alpha = self.alpha_ratio();
        let first = seed(window);
        out.push(Some(first));
        assert(seed.ensures((head,), out@[p - 1]->Some_0));
        let mut prev = first;
        let mut k: usize = p;
        while k < n
            invariant
                0 < p <= k <= n == prices@.len(),
                out@.len() == k,
                out@[k - 1] == Some(prev),
                alpha == alpha_fraction(p as nat),
                forall|j: int| 0 <= j < p - 1 ==> (#[trigger] out@[j]) is None,
                forall|j: int| p - 1 <= j < k ==> (#[trigger] out@[j]) is Some,
                exists|w: Vec<T>|
                    #![trigger seed.ensures((w,), out@[p - 1]->Some_0)]
                    w@ == prices@.subrange(0, p as int) && seed.ensures(
                        (w,),
                        out@[p - 1]->Some_0,
                    ),
                forall|j: int|
                    p <= j < k ==> blend.ensures(
                        (alpha_fraction(p as nat), out@[j - 1]->Some_0, prices@[j]),
                        (#[trigger] out@[j])->Some_0,
                    ),
                forall|alpha: (u64, u128), prev: T, price: T| blend.requires((alpha, prev, price)),
            decreases n - k,
        {
            let next = blend(alpha, prev, prices[k]);
            out.push(Some(next));
            prev = next;
            k += 1;
        }
        Ok(out)
    }

    /// Advances a running EMA by one sample: the sample itself when there is
    /// no running value yet, else `blend(alpha, current, new_price)` with the
    /// configuration's smoothing factor as `alpha`.
    pub fn update<T: Copy, B: Fn((u64, u128), T, T) -> T>(
        &self,
        current_ema: Option<T>,
        new_price: T,
        blend: B,
    ) -> (r: T)
        requires
            forall|alpha: (u64, u128), prev: T, price: T| blend.requires((alpha, prev, price)),
        ensures
            current_ema is None ==> r == new_price,
            current_ema is Some ==> blend.ensures(
                (alpha_fraction(self@), current_ema->Some_0, new_price),
                r,
            ),
    {
        match current_ema {
            Some(ema) => blend(self.alpha_ratio(), ema, new_price),
            None => new_price,
        }
    }
}

/// `a` is at most `b` under the strict order `lt`.
pub open spec fn at_most<T>(lt: spec_fn(T, T) -> bool, a: T, b: T) -> bool {
    lt(a, b) || a == b
}

/// Each element of `s` is strictly above the one before it under `lt`.
pub open spec fn strictly_increasing<T>(lt: spec_fn(T, T) -> bool, s: Seq<T>) -> bool {
    forall|i: int| 0 < i < s.len() ==> lt(s[i - 1], #[trigger] s[i])
}

/// Under the hypotheses of [`lemma_increasing_prices_give_increasing_ema`],
/// the series at `k` is at most the price at `k`, and above the entry before
/// it once past the seed.
proof fn lemma_ema_trails_increasing_prices<T, M: Fn(Vec<T>) -> T, B: Fn((u64, u128), T, T) -> T>(
    lt: spec_fn(T, T) -> bool,
    period: nat,
    prices: Seq<T>,
    seed: M,
    blend: B,
    out: Seq<Option<T>>,
    k: int,
)
    requires
        forall|a: T, b: T, c: T| #[trigger] lt(a, b) && #[trigger] lt(b, c) ==> lt(a, c),
        forall|w: Vec<T>, m: T|
            w@.len() > 0 && strictly_increasing(lt, w@) && #[trigger] seed.ensures((w,), m)
                ==> at_most(lt, m, w@.last()),
        forall|prev: T, price: T, r: T|
            lt(prev, price) && #[trigger] blend.ensures((alpha_fraction(period), prev, price), r) ==> lt(prev, r) && lt(
                r,
                price,
            ),
        strictly_increasing(lt, prices),
        is_ema_series(period, prices, seed, blend, out),
        period - 1 <= k < out.len(),
    ensures
        at_most(lt, out[k]->Some_0, prices[k]),
        k >= period ==> lt(out[k - 1]->Some_0, out[k]->Some_0),
    decreases k - (period - 1),
{
    let p = period as int;
    if k == p - 1 {
        let w = choose|w: Vec<T>|
            #![trigger seed.ensures((w,), out[p - 1]->Some_0)]
            w@ == prices.subrange(0, p) && seed.ensures((w,), out[p - 1]->Some_0);
        assert forall|i: int| 0 < i < w@.len() implies lt(w@[i - 1], #[trigger] w@[i]) by {
            assert(w@[i - 1] == prices[i - 1]);
            assert(w@[i] == prices[i]);
        }
        assert(w@.last() == prices[p - 1]);
    } else {
        lemma_ema_trails_increasing_prices(lt, period, prices, seed, blend, out, k - 1);
        let prev = out[k - 1]->Some_0;
        let cur = out[k]->Some_0;
        assert(lt(prices[k - 1], prices[k]));
        if prev != prices[k - 1] {
            assert(lt(prev, prices[k - 1]));
            assert(lt(prev, prices[k]));
        }
        assert(lt(prev, prices[k]));
        assert(blend.ensures((alpha_fraction(period), prev, prices[k]), cur));
        assert(lt(prev, cur) && lt(cur, prices[k]));
    }
}

/// Strictly increasing prices give a strictly increasing EMA series (each
/// present entry is below every later one), for any
/// sample arithmetic whose mean of an increasing window is at most its last
/// sample and whose blend of a lower running value with a higher sample lies
/// strictly between the two (as the mean and the convex combination with
/// `0 < alpha < 1` do on the reals).
pub proof fn lemma_increasing_prices_give_increasing_ema<T, M: Fn(Vec<T>) -> T, B: Fn((u64, u128), T, T) -> T>(
    lt: spec_fn(T, T) -> bool,
    period: nat,
    prices: Seq<T>,
    seed: M,
    blend: B,
    out: Seq<Option<T>>,
)
    requires
        forall|a: T, b: T, c: T| #[trigger] lt(a, b) && #[trigger] lt(b, c) ==> lt(a, c),
        forall|w: Vec<T>, m: T|
            w@.len() > 0 && strictly_increasing(lt, w@) && #[trigger] seed.ensures((w,), m)
                ==> at_most(lt, m, w@.last()),
        forall|prev: T, price: T, r: T|
            lt(prev, price) && #[trigger] blend.ensures((alpha_fraction(period), prev, price), r) ==> lt(prev, r) && lt(
                r,
                price,
            ),
        strictly_increasing(lt, prices),
        is_ema_series(period, prices, seed, blend, out),
    ensures
        forall|i: int|
            period <= i < out.len() ==> lt(out[i - 1]->Some_0, (#[trigger] out[i])->Some_0),
        forall|i: int, j: int|
            period - 1 <= i < j < out.len() ==> lt(
                (#[trigger] out[i])->Some_0,
                (#[trigger] out[j])->Some_0,
            ),
{
    assert forall|i: int| period <= i < out.len() implies lt(
        out[i - 1]->Some_0,
        (#[trigger] out[i])->Some_0,
    ) by {
        lemma_ema_trails_increasing_prices(lt, period, prices, seed, blend, out, i);
    }
    assert forall|i: int, j: int| period - 1 <= i < j < out.len() implies lt(
        (#[trigger] out[i])->Some_0,
        (#[trigger] out[j])->Some_0,
    ) by {
        lemma_ema_increasing_between(lt, period, out, i, j);
    }
}

/// A series whose neighbours past the seed increase under a transitive `lt`
/// increases between any two of its entries from the seed on.
proof fn lemma_ema_increasing_between<T>(
    lt: spec_fn(T, T) -> bool,
    period: nat,
    out: Seq<Option<T>>,
    i: int,
    j: int,
)
    requires
        forall|a: T, b: T, c: T| #[trigger] lt(a, b) && #[trigger] lt(b, c) ==> lt(a, c),
        forall|k: int|
            period <= k < out.len() ==> lt(out[k - 1]->Some_0, (#[trigger] out[k])->Some_0),
        period - 1 <= i < j < out.len(),
    ensures
        lt(out[i]->Some_0, out[j]->Some_0),
    decreases j - i,
{
    assert(lt(out[j - 1]->Some_0, out[j]->Some_0));
    if j - 1 > i {
        lemma_ema_increasing_between(lt, period, out, i, j - 1);
        assert(lt(out[i]->Some_0, out[j - 1]->Some_0));
    }
}

/// The batch series equals the streamed values at `k` and before, down to
/// the seed.
proof fn lemma_stream_agrees_upto<T, M: Fn(Vec<T>) -> T, B: Fn((u64, u128), T, T) -> T>(
    period: nat,
    prices: Seq<T>,
    seed: M,
    blend: B,
    out: Seq<Option<T>>,
    stream: Seq<T>,
    k: int,
)
    requires
        forall|alpha: (u64, u128), prev: T, price: T, r1: T, r2: T|
            #[trigger] blend.ensures((alpha, prev, price), r1) && #[trigger] blend.ensures(
                (alpha, prev, price),
                r2,
            ) ==> r1 == r2,
        is_ema_series(period, prices, seed, blend, out),
        stream.len() == prices.len(),
        stream[period - 1] == out[period - 1]->Some_0,
        forall|i: int|
            period <= i < stream.len() ==> blend.ensures(
                (alpha_fraction(period), stream[i - 1], prices[i]),
                #[trigger] stream[i],
            ),
        period - 1 <= k < out.len(),
    ensures
        out[k] == Some(stream[k]),
    decreases k - (period - 1),
{
    if k > period - 1 {
        lemma_stream_agrees_upto(period, prices, seed, blend, out, stream, k - 1);
        assert(blend.ensures((alpha_fraction(period), stream[k - 1], prices[k]), stream[k]));
        assert(blend.ensures((alpha_fraction(period), out[k - 1]->Some_0, prices[k]), out[k]->Some_0));
    }
}

/// Streaming agrees with batch: a running value seeded with the batch
/// series' first value and advanced by [`EMA::update`]'s blend over the later
/// samples equals the batch series from the seed on, for any blend that gives
/// one result per pair of inputs.
pub proof fn lemma_streaming_matches_batch<T, M: Fn(Vec<T>) -> T, B: Fn((u64, u128), T, T) -> T>(
    period: nat,
    prices: Seq<T>,
    seed: M,
    blend: B,
    out: Seq<Option<T>>,
    stream: Seq<T>,
)
    requires
        forall|alpha: (u64, u128), prev: T, price: T, r1: T, r2: T|
            #[trigger] blend.ensures((alpha, prev, price), r1) && #[trigger] blend.ensures(
                (alpha, prev, price),
                r2,
            ) ==> r1 == r2,
        is_ema_series(period, prices, seed, blend, out),
        stream.len() == prices.len(),
        stream[period - 1] == out[period - 1]->Some_0,
        forall|i: int|
            period <= i < stream.len() ==> blend.ensures(
                (alpha_fraction(period), stream[i - 1], prices[i]),
                #[trigger] stream[i],
            ),
    ensures
        forall|i: int| period - 1 <= i < out.len() ==> (#[trigger] out[i]) == Some(stream[i]),
{
    assert forall|i: int| period - 1 <= i < out.len() implies (#[trigger] out[i]) == Some(
        stream[i],
    ) by {
        lemma_stream_agrees_upto(period, prices, seed, blend, out, stream, i);
    }
}

} // verus!
