use num::rational::Ratio;
use vstd::prelude::*;

use crate::geometry::Component;

verus! {

/// How one component's plane is brought up to the resolution of the image.
#[derive(Clone, Copy, Debug, PartialEq, Eq, Structural)]
pub enum Resampling {
    /// The plane already has full resolution: rows are copied.
    Identity,
    /// The plane has half the horizontal resolution.
    Horizontal2,
    /// The plane has half the vertical resolution.
    Vertical2,
    /// The plane has half the resolution in both directions.
    HorizontalVertical2,
}

/// The horizontal or the vertical sampling factor of a component.
pub open spec fn factor(c: Component, horizontal: bool) -> int {
    if horizontal {
        c.horizontal_sampling_factor as int
    } else {
        c.vertical_sampling_factor as int
    }
}

/// The largest horizontal (or vertical) sampling factor among `cs`; zero when
/// `cs` is empty.
pub open spec fn max_factor_of(cs: Seq<Component>, horizontal: bool) -> int
    decreases cs.len(),
{
    if cs.len() == 0 {
        0
    } else {
        let m = max_factor_of(cs.drop_last(), horizontal);
        let f = factor(cs.last(), horizontal);
        if f > m {
            f
        } else {
            m
        }
    }
}

/// The strategy for a component with factors `(h, v)` in an image whose
/// largest factors are `(h_max, v_max)`: the two scale-up ratios must be
/// whole numbers, and the pair of them one of (1,1), (2,1), (1,2), (2,2).
pub open spec fn resampling_for(h_max: int, v_max: int, h: int, v: int) -> Option<Resampling> {
    if h_max % h != 0 || v_max % v != 0 {
        None
    } else {
        let hr = h_max / h;
        let vr = v_max / v;
        if hr == 1 && vr == 1 {
            Some(Resampling::Identity)
        } else if hr == 2 && vr == 1 {
            Some(Resampling::Horizontal2)
        } else if hr == 1 && vr == 2 {
            Some(Resampling::Vertical2)
        } else if hr == 2 && vr == 2 {
            Some(Resampling::HorizontalVertical2)
        } else {
            None
        }
    }
}

/// The strategy that `resampling_for` gives component `i` of `cs`.
pub open spec fn component_resampling(cs: Seq<Component>, i: int) -> Option<Resampling> {
    resampling_for(
        max_factor_of(cs, true),
        max_factor_of(cs, false),
        factor(cs[i], true),
        factor(cs[i], false),
    )
}

/// Relies on num's `Ratio::new`, which reduces `numer / denom` to lowest
/// terms (and panics on a zero denominator), and `Ratio::is_integer`, which
/// tests that the reduced denominator is one: that is, that `denom` divides
/// `numer`.
#[verifier::external_body]
fn ratio_is_integer(numer: u8, denom: u8) -> (r: bool)
    requires
        denom > 0,
    ensures
        r == (numer % denom == 0),
{
    Ratio::new(numer, denom).is_integer()
}

/// Relies on num's `Ratio::new` and `Ratio::to_integer`, which rounds the
/// reduced ratio towards zero: for unsigned values, the integer quotient.
#[verifier::external_body]
fn ratio_to_integer(numer: u8, denom: u8) -> (r: u8)
    requires
        denom > 0,
    ensures
        r == numer / denom,
{
    Ratio::new(numer, denom).to_integer()
}

/// The largest horizontal (or vertical) sampling factor of `components`.
pub(crate) fn max_factor(components: &[Component], horizontal: bool) -> (m: u8)
    ensures
        m == max_factor_of(components@, horizontal),
{
    let mut m: u8 = 0;
    let mut i: usize = 0;
    while i < components.len()
        invariant
            i <= components@.len(),
            m == max_factor_of(components@.take(i as int), horizontal),
        decreases components@.len() - i,
    {
        let c = &components[i];
        let f = if horizontal {
            c.horizontal_sampling_factor
        } else {
            c.vertical_sampling_factor
        };
        assert(components@.take(i + 1).drop_last() =~= components@.take(i as int));
        if f > m {
            m = f;
        }
        i = i + 1;
    }
    assert(components@.take(i as int) =~= components@);
    m
}

/// Picks the strategy for `component` in an image whose largest sampling
/// factors are `h_max` and `v_max`, or `None` where its scale-up ratios are
/// not supported.
pub(crate) fn choose_resampling(component: &Component, h_max: u8, v_max: u8) -> (r: Option<Resampling>)
    requires
        component.factors_positive(),
    ensures
        r == resampling_for(
            h_max as int,
            v_max as int,
            factor(*component, true),
            factor(*component, false),
        ),
{
    let h = component.horizontal_sampling_factor;
    let v = component.vertical_sampling_factor;
    if !ratio_is_integer(h_max, h) || !ratio_is_integer(v_max, v) {
        return None;
    }
    match (ratio_to_integer(h_max, h), ratio_to_integer(v_max, v)) {
        (1, 1) => Some(Resampling::Identity),
        (2, 1) => Some(Resampling::Horizontal2),
        (1, 2) => Some(Resampling::Vertical2),
        (2, 2) => Some(Resampling::HorizontalVertical2),
        _ => None,
    }
}

} // verus!
