//! Harmonic and percussive enhancement by median filtering.
//!
//! Powers are handled here as `u32` keys that are ordered as the powers
//! they stand for, so that the median of the keys is the key of the median.

use crate::cfg::AnalysisConfig;
use crate::state::AudibleSpec;
use median::Filter;
use vstd::prelude::*;

verus! {

/// Widths of the two median filters: `p_filter_span` bins across
/// frequency, and `h_filter_span` hops across time for the bin in the
/// middle of the audible band.
pub struct HpsConfig {
    pub p_filter_span: usize,
    pub h_filter_span: usize,
}

impl Default for HpsConfig {
    fn default() -> (cfg: Self)
        ensures
            cfg.p_filter_span == 9,
            cfg.h_filter_span == 46,
    {
        HpsConfig { p_filter_span: 9, h_filter_span: 46 }
    }
}

/// Widest filter that is ever built.
pub const MAX_SPAN: usize = 65536;

/// The sliding-window median filter of the `median` crate.
#[verifier::external_type_specification]
#[verifier::external_body]
#[verifier::reject_recursive_types(T)]
pub struct ExFilter<T>(Filter<T>);

/// The values that a filter holds, oldest first.
pub uninterp spec fn filter_window(filter: Filter<u32>) -> Seq<u32>;

/// The window size that a filter was made with.
pub uninterp spec fn filter_size(filter: Filter<u32>) -> nat;

/// The last `size` values of `window` followed by `value`.
pub open spec fn spec_slide(window: Seq<u32>, size: nat, value: u32) -> Seq<u32> {
    let grown = window.push(value);
    if grown.len() <= size {
        grown
    } else {
        grown.subrange(grown.len() - size, grown.len() as int)
    }
}

/// The window after each of `values` has been taken in turn.
pub open spec fn spec_slide_all(window: Seq<u32>, size: nat, values: Seq<u32>) -> Seq<u32>
    decreases values.len(),
{
    if values.len() == 0 {
        window
    } else {
        spec_slide(spec_slide_all(window, size, values.drop_last()), size, values.last())
    }
}

/// A window that starts empty holds the latest `size` of the values it
/// has taken, in the order in which they came, or all of them while they
/// are fewer.
pub proof fn lemma_slide_all_is_tail(size: nat, values: Seq<u32>)
    requires
        size > 0,
    ensures
        spec_slide_all(Seq::empty(), size, values) == values.subrange(
            if values.len() > size {
                values.len() - size
            } else {
                0
            },
            values.len() as int,
        ),
    decreases values.len(),
{
    if values.len() == 0 {
        assert(values.subrange(0, 0) =~= Seq::<u32>::empty());
    } else {
        let head = values.drop_last();
        lemma_slide_all_is_tail(size, head);
        let before = spec_slide_all(Seq::empty(), size, head);
        assert(spec_slide(before, size, values.last()) =~= values.subrange(
            if values.len() > size {
                values.len() - size
            } else {
                0
            },
            values.len() as int,
        ));
    }
}

/// Number of values of `window` below `x`.
pub open spec fn count_below(window: Seq<u32>, x: u32) -> nat
    decreases window.len(),
{
    if window.len() == 0 {
        0
    } else {
        count_below(window.drop_last(), x) + if window.last() < x {
            1nat
        } else {
            0nat
        }
    }
}

/// Number of values of `window` that do not exceed `x`.
pub open spec fn count_at_most(window: Seq<u32>, x: u32) -> nat
    decreases window.len(),
{
    if window.len() == 0 {
        0
    } else {
        count_at_most(window.drop_last(), x) + if window.last() <= x {
            1nat
        } else {
            0nat
        }
    }
}

/// Whether `m` is the median of `window`, the lower of the two middle
/// values where their number is even: `m` occurs in `window`, and in sorted
/// order the place `(len - 1) / 2` falls among the occurrences of `m`.
pub open spec fn is_lower_median(window: Seq<u32>, m: u32) -> bool {
    &&& window.len() > 0
    &&& window.contains(m)
    &&& count_below(window, m) <= (window.len() - 1) / 2 < count_at_most(window, m)
}

/// What lies at or below a value lies below every greater value.
pub proof fn lemma_counts_ordered(window: Seq<u32>, a: u32, b: u32)
    requires
        a < b,
    ensures
        count_at_most(window, a) <= count_below(window, b),
    decreases window.len(),
{
    if window.len() > 0 {
        lemma_counts_ordered(window.drop_last(), a, b);
    }
}

/// A window has one lower median only.
pub proof fn lemma_lower_median_unique(window: Seq<u32>, a: u32, b: u32)
    requires
        is_lower_median(window, a),
        is_lower_median(window, b),
    ensures
        a == b,
{
    if a < b {
        lemma_counts_ordered(window, a, b);
    } else if b < a {
        lemma_counts_ordered(window, b, a);
    }
}

/// `median::Filter::new`: a filter with room for `size` values and none in
/// it yet. The bound keeps the allocation within what a vector can hold.
#[verifier::external_body]
fn filter_new(size: usize) -> (filter: Filter<u32>)
    requires
        size <= MAX_SPAN,
    ensures
        filter_size(filter) == size,
        filter_window(filter) == Seq::<u32>::empty(),
{
    Filter::new(size)
}

/// `median::Filter::consume`: takes `value` into the window, where it
/// displaces the oldest value once the window is full, and returns the
/// median of what the window then holds, the lower of the two middle
/// values where their number is even. A filter of size zero has no place
/// for a value and is not admitted.
#[verifier::external_body]
fn filter_consume(filter: &mut Filter<u32>, value: u32) -> (median: u32)
    requires
        filter_size(*old(filter)) > 0,
    ensures
        filter_size(*final(filter)) == filter_size(*old(filter)),
        filter_window(*final(filter)) == spec_slide(
            filter_window(*old(filter)),
            filter_size(*old(filter)),
            value,
        ),
        is_lower_median(filter_window(*final(filter)), median),
{
    filter.consume(value)
}

/// Window of the time filter of audible bin `i` out of `len`: the span
/// scaled by `i / len + 1/2`, rounded down, so that the highest bins look
/// back three times as far as the lowest.
pub open spec fn spec_harmonic_span(span: nat, i: nat, len: nat) -> nat {
    if len == 0 {
        0
    } else {
        (span * (2 * i + len)) / (2 * len)
    }
}

/// The window of a bin lies between half the span and one and a half
/// times the span.
pub proof fn lemma_harmonic_span_bounds(span: nat, i: nat, len: nat)
    requires
        i < len,
    ensures
        span / 2 <= spec_harmonic_span(span, i, len) <= span + span / 2,
{
    let d = (2 * len) as int;
    assert(span * len <= span * (2 * i + len) <= span * (3 * len)) by (nonlinear_arith)
        requires
            i < len,
    ;
    vstd::arithmetic::div_mod::lemma_div_is_ordered(
        (span * len) as int,
        (span * (2 * i + len)) as int,
        d,
    );
    vstd::arithmetic::div_mod::lemma_div_is_ordered(
        (span * (2 * i + len)) as int,
        (span * (3 * len)) as int,
        d,
    );
    assert((span * len) as int / d >= span as int / 2) by {
        let q = span as int / 2;
        assert(span >= 2 * q);
        assert(span * len >= q * d) by (nonlinear_arith)
            requires
                span >= 2 * q,
                d == 2 * len,
                q >= 0,
        ;
        vstd::arithmetic::div_mod::lemma_div_is_ordered(q * d, (span * len) as int, d);
        vstd::arithmetic::div_mod::lemma_div_multiples_vanish(q, d);
        assert(d * q == q * d) by (nonlinear_arith);
    }
    assert((span * (3 * len)) as int / d <= span + span / 2) by {
        let q = (3 * span) as int / 2;
        assert((3 * span) as int <= 2 * q + 1);
        assert(span * (3 * len) < (q + 1) * d) by (nonlinear_arith)
            requires
                3 * span <= 2 * q + 1,
                d == 2 * len,
                len > 0,
        ;
        vstd::arithmetic::div_mod::lemma_div_is_ordered(
            (span * (3 * len)) as int,
            (q + 1) * d - 1,
            d,
        );
        assert(((q + 1) * d - 1) / d <= q) by {
            assert((q + 1) * d - 1 == q * d + (d - 1)) by (nonlinear_arith);
            vstd::arithmetic::div_mod::lemma_fundamental_div_mod_converse(
                (q + 1) * d - 1,
                d,
                q,
                d - 1,
            );
        }
    }
}

/// Window of the time filter of audible bin `i` out of `len`.
pub fn harmonic_span(span: usize, i: usize, len: usize) -> (window: usize)
    requires
        i < len,
        span <= MAX_SPAN / 2,
    ensures
        window == spec_harmonic_span(span as nat, i as nat, len as nat),
        span / 2 <= window <= MAX_SPAN,
{
    proof {
        lemma_harmonic_span_bounds(span as nat, i as nat, len as nat);
        assert(0 <= (span as int) * (2 * i + len) <= 32768 * (3 * 0xffff_ffff_ffff_ffff))
            by (nonlinear_arith)
            requires
                0 <= span as int <= 32768,
                0 <= 2 * i + len <= 3 * 0xffff_ffff_ffff_ffff,
        ;
    }
    let scaled: u128 = (span as u128) * (2 * (i as u128) + (len as u128));
    (scaled / (2 * (len as u128))) as usize
}

/// The last `span` values of `power` up to and with bin `i`.
pub open spec fn spec_trailing(power: Seq<u32>, i: int, span: nat) -> Seq<u32> {
    power.subrange(
        if i + 1 > span {
            i + 1 - span
        } else {
            0
        },
        i + 1,
    )
}

/// Sliding the trailing window of one bin on by the next bin's value gives
/// the trailing window of the next bin.
proof fn lemma_trailing_slides(power: Seq<u32>, i: int, span: nat)
    requires
        0 <= i < power.len(),
        span > 0,
    ensures
        i == 0 ==> spec_slide(Seq::empty(), span, power[0]) == spec_trailing(power, 0, span),
        i > 0 ==> spec_slide(spec_trailing(power, i - 1, span), span, power[i]) == spec_trailing(
            power,
            i,
            span,
        ),
{
    if i == 0 {
        assert(spec_slide(Seq::empty(), span, power[0]) =~= spec_trailing(power, 0, span));
    } else {
        assert(spec_slide(spec_trailing(power, i - 1, span), span, power[i]) =~= spec_trailing(
            power,
            i,
            span,
        ));
    }
}

/// The running median across frequency: entry `i` is the median of
/// `power` over bin `i` and the `span - 1` bins below it, or over all bins
/// up to `i` where there are fewer.
pub fn median_across(power: &[u32], span: usize) -> (medians: Vec<u32>)
    requires
        1 <= span <= MAX_SPAN,
    ensures
        medians@.len() == power@.len(),
        forall|i: int|
            0 <= i < power@.len() ==> is_lower_median(
                spec_trailing(power@, i, span as nat),
                #[trigger] medians@[i],
            ),
{
    let mut medians: Vec<u32> = Vec::new();
    let mut across = filter_new(span);
    let mut i: usize = 0;
    while i < power.len()
        invariant
            span >= 1,
            i <= power@.len(),
            medians@.len() == i,
            filter_size(across) == span,
            i == 0 ==> filter_window(across) == Seq::<u32>::empty(),
            i > 0 ==> filter_window(across) == spec_trailing(power@, i - 1, span as nat),
            forall|k: int|
                0 <= k < i ==> is_lower_median(
                    spec_trailing(power@, k, span as nat),
                    #[trigger] medians@[k],
                ),
        decreases power@.len() - i,
    {
        proof {
            lemma_trailing_slides(power@, i as int, span as nat);
        }
        let median = filter_consume(&mut across, power[i]);
        medians.push(median);
        i += 1;
    }
    medians
}

/// The medians that separate what is sustained from what is sudden, and
/// the windows over time from which the first are taken.
pub struct HpsData {
    /// Per audible bin, the powers of the latest hops.
    pub past_magnitudes: AudibleSpec<Filter<u32>>,
    /// Per audible bin, the median of its powers over time.
    pub h_enhanced: AudibleSpec<u32>,
    /// Per audible bin, the median of the powers of the bins up to it.
    pub p_enhanced: AudibleSpec<u32>,
}

impl HpsData {
    /// There is an entry for each audible bin, and the window of each bin
    /// has the size that the configuration gives it and is not overfull.
    pub open spec fn wf(&self, cfg: AnalysisConfig) -> bool {
        &&& self.past_magnitudes@.len() == cfg.spec_max_aidx()
        &&& self.h_enhanced@.len() == cfg.spec_max_aidx()
        &&& self.p_enhanced@.len() == cfg.spec_max_aidx()
        &&& forall|i: int|
            0 <= i < cfg.spec_max_aidx() ==> {
                &&& filter_size(#[trigger] self.past_magnitudes@[i]) == spec_harmonic_span(
                    cfg.hps.h_filter_span as nat,
                    i as nat,
                    cfg.spec_max_aidx(),
                )
                &&& filter_window(self.past_magnitudes@[i]).len() <= filter_size(
                    self.past_magnitudes@[i],
                )
            }
    }

    /// The state before any audio: empty windows and medians of zero.
    pub fn blank(cfg: &AnalysisConfig) -> (data: Self)
        requires
            cfg.wf(),
        ensures
            data.wf(*cfg),
            forall|i: int|
                0 <= i < cfg.spec_max_aidx() ==> filter_window(#[trigger] data.past_magnitudes@[i])
                    == Seq::<u32>::empty(),
            forall|i: int| 0 <= i < cfg.spec_max_aidx() ==> #[trigger] data.h_enhanced@[i] == 0,
            forall|i: int| 0 <= i < cfg.spec_max_aidx() ==> #[trigger] data.p_enhanced@[i] == 0,
    {
        let a_len = cfg.max_aidx();
        let mut filters: Vec<Filter<u32>> = Vec::new();
        let mut i: usize = 0;
        while i < a_len
            invariant
                cfg.wf(),
                a_len == cfg.spec_max_aidx(),
                i <= a_len,
                filters@.len() == i,
                forall|k: int|
                    0 <= k < i ==> {
                        &&& filter_size(#[trigger] filters@[k]) == spec_harmonic_span(
                            cfg.hps.h_filter_span as nat,
                            k as nat,
                            a_len as nat,
                        )
                        &&& filter_window(filters@[k]) == Seq::<u32>::empty()
                    },
            decreases a_len - i,
        {
            let size = harmonic_span(cfg.hps.h_filter_span, i, a_len);
            filters.push(filter_new(size));
            i += 1;
        }
        HpsData {
            past_magnitudes: AudibleSpec::from_iter(filters, cfg),
            h_enhanced: AudibleSpec::blank_default(cfg),
            p_enhanced: AudibleSpec::blank_default(cfg),
        }
    }

    /// Takes in the powers of one hop. The window of each bin moves on by
    /// that bin's power, and the harmonic median of the bin is the median
    /// of its window. The percussive median of a bin is the median of the
    /// powers of this hop over the bin and the `p_filter_span - 1` bins
    /// below it.
    pub fn advance(self, cfg: &AnalysisConfig, power: &AudibleSpec<u32>) -> (next: Self)
        requires
            cfg.wf(),
            self.wf(*cfg),
            power@.len() == cfg.spec_max_aidx(),
        ensures
            next.wf(*cfg),
            forall|i: int|
                0 <= i < cfg.spec_max_aidx() ==> filter_window(#[trigger] next.past_magnitudes@[i])
                    == spec_slide(
                    filter_window(self.past_magnitudes@[i]),
                    filter_size(self.past_magnitudes@[i]),
                    power@[i],
                ),
            forall|i: int|
                0 <= i < cfg.spec_max_aidx() ==> is_lower_median(
                    filter_window(next.past_magnitudes@[i]),
                    #[trigger] next.h_enhanced@[i],
                ),
            forall|i: int|
                0 <= i < cfg.spec_max_aidx() ==> is_lower_median(
                    spec_trailing(power@, i, cfg.hps.p_filter_span as nat),
                    #[trigger] next.p_enhanced@[i],
                ),
    {
        let a_len = power.len();
        let mut past = self.past_magnitudes;
        let mut h_enhanced: Vec<u32> = Vec::new();
        let mut i: usize = 0;
        while i < a_len
            invariant
                cfg.wf(),
                self.wf(*cfg),
                a_len == cfg.spec_max_aidx(),
                power@.len() == a_len,
                i <= a_len,
                past@.len() == a_len,
                h_enhanced@.len() == i,
                forall|k: int| i <= k < a_len ==> #[trigger] past@[k] == self.past_magnitudes@[k],
                forall|k: int|
                    0 <= k < i ==> {
                        &&& filter_size(#[trigger] past@[k]) == filter_size(
                            self.past_magnitudes@[k],
                        )
                        &&& filter_window(past@[k]) == spec_slide(
                            filter_window(self.past_magnitudes@[k]),
                            filter_size(self.past_magnitudes@[k]),
                            power@[k],
                        )
                    },
                forall|k: int|
                    0 <= k < i ==> is_lower_median(
                        filter_window(past@[k]),
                        #[trigger] h_enhanced@[k],
                    ),
            decreases a_len - i,
        {
            let value: u32 = *power.get(i);
            proof {
                lemma_harmonic_span_bounds(
                    cfg.hps.h_filter_span as nat,
                    i as nat,
                    cfg.spec_max_aidx(),
                );
                assert(past@[i as int] == self.past_magnitudes@[i as int]);
            }
            let ghost before = past@;
            let over_time = filter_consume(past.get_mut(i), value);
            h_enhanced.push(over_time);
            proof {
                assert(past@ == before.update(i as int, past@[i as int]));
                assert forall|k: int| 0 <= k < i + 1 implies is_lower_median(
                    filter_window(past@[k]),
                    #[trigger] h_enhanced@[k],
                ) by {
                    if k < i {
                        assert(past@[k] == before[k]);
                    }
                }
            }
            i += 1;
        }
        let p_enhanced = median_across(power.as_slice(), cfg.hps.p_filter_span);
        let next = HpsData {
            past_magnitudes: past,
            h_enhanced: AudibleSpec::from_iter(h_enhanced, cfg),
            p_enhanced: AudibleSpec::from_iter(p_enhanced, cfg),
        };
        proof {
            assert forall|k: int| 0 <= k < cfg.spec_max_aidx() implies filter_window(
                #[trigger] next.past_magnitudes@[k],
            ).len() <= filter_size(next.past_magnitudes@[k]) by {
                lemma_harmonic_span_bounds(
                    cfg.hps.h_filter_span as nat,
                    k as nat,
                    cfg.spec_max_aidx(),
                );
            }
        }
        next
    }
}

} // verus!
