//! Instructions that perturb one market input, or move the valuation date.
//!
//! Magnitudes are carried as a type parameter: the library passes them on and
//! never computes with them.

use vstd::prelude::*;

verus! {

/// How a spot bump shifts the price of the underlying.
#[derive(Clone, Copy, Debug, PartialEq)]
pub enum SpotShift<X> {
    /// By a fraction of the current spot.
    Relative(X),
    /// By an amount.
    Absolute(X),
}

/// Which market input a bump perturbs.
#[derive(Clone, Copy, Debug, PartialEq, Eq, Structural)]
pub enum BumpKind {
    Spot,
    Vol,
    Dividends,
    Yield,
}

/// One perturbation of one market input, named by the input's identifier.
#[derive(Clone, Debug, PartialEq)]
pub enum Bump<X> {
    /// Shifts the spot price of the underlying `id`.
    Spot { id: String, shift: SpotShift<X> },
    /// Adds `flat_additive` to the whole volatility surface of `id`.
    Vol { id: String, flat_additive: X },
    /// Scales every dividend of `id` by `all_relative`.
    Dividends { id: String, all_relative: X },
    /// Shifts the yield curve `id` by `flat_annualised`.
    Yield { id: String, flat_annualised: X },
}

impl<X> Bump<X> {
    /// The identifier of the market input that the bump perturbs.
    pub open spec fn target_id(&self) -> Seq<char> {
        match self {
            Bump::Spot { id, .. } => id@,
            Bump::Vol { id, .. } => id@,
            Bump::Dividends { id, .. } => id@,
            Bump::Yield { id, .. } => id@,
        }
    }

    /// The kind of market input that the bump perturbs.
    pub open spec fn kind_of(&self) -> BumpKind {
        match self {
            Bump::Spot { .. } => BumpKind::Spot,
            Bump::Vol { .. } => BumpKind::Vol,
            Bump::Dividends { .. } => BumpKind::Dividends,
            Bump::Yield { .. } => BumpKind::Yield,
        }
    }

    /// A bump of the spot price of `id`.
    pub fn new_spot(id: &str, shift: SpotShift<X>) -> (bump: Bump<X>)
        ensures
            bump matches Bump::Spot { id: held, shift: s } && held@ == id@ && s == shift,
    {
        Bump::Spot { id: id.to_owned(), shift }
    }

    /// A bump of the volatility surface of `id`.
    pub fn new_vol(id: &str, flat_additive: X) -> (bump: Bump<X>)
        ensures
            bump matches Bump::Vol { id: held, flat_additive: x } && held@ == id@ && x
                == flat_additive,
    {
        Bump::Vol { id: id.to_owned(), flat_additive }
    }

    /// A bump of the dividends of `id`.
    pub fn new_divs(id: &str, all_relative: X) -> (bump: Bump<X>)
        ensures
            bump matches Bump::Dividends { id: held, all_relative: x } && held@ == id@ && x
                == all_relative,
    {
        Bump::Dividends { id: id.to_owned(), all_relative }
    }

    /// A bump of the yield curve `id`.
    pub fn new_yield(id: &str, flat_annualised: X) -> (bump: Bump<X>)
        ensures
            bump matches Bump::Yield { id: held, flat_annualised: x } && held@ == id@ && x
                == flat_annualised,
    {
        Bump::Yield { id: id.to_owned(), flat_annualised }
    }

    /// The identifier of the market input that the bump perturbs.
    pub fn target(&self) -> (id: &String)
        ensures
            id@ == self.target_id(),
    {
        match self {
            Bump::Spot { id, .. } => id,
            Bump::Vol { id, .. } => id,
            Bump::Dividends { id, .. } => id,
            Bump::Yield { id, .. } => id,
        }
    }

    /// The kind of market input that the bump perturbs.
    pub fn kind(&self) -> (k: BumpKind)
        ensures
            k == self.kind_of(),
    {
        match self {
            Bump::Spot { .. } => BumpKind::Spot,
            Bump::Vol { .. } => BumpKind::Vol,
            Bump::Dividends { .. } => BumpKind::Dividends,
            Bump::Yield { .. } => BumpKind::Yield,
        }
    }
}

/// How forward-looking market quantities follow when the valuation date moves.
#[derive(Clone, Copy, Debug, PartialEq, Eq, Structural)]
pub enum SpotDynamics {
    /// The spot stays where it is.
    StickySpot,
    /// The forward stays where it is; the spot rolls up it.
    StickyForward,
}

/// An instruction to move the valuation date.
#[derive(Clone, Copy, Debug, PartialEq, Eq, Structural)]
pub struct BumpTime {
    pub spot_date: i64,
    pub old_spot_date: i64,
    pub spot_dynamics: SpotDynamics,
}

impl BumpTime {
    /// Moves the valuation date to `spot_date`; `old_spot_date` is the spot
    /// date that the market data was taken at.
    pub fn new(spot_date: i64, old_spot_date: i64, spot_dynamics: SpotDynamics) -> (bump: BumpTime)
        ensures
            bump == (BumpTime { spot_date, old_spot_date, spot_dynamics }),
    {
        BumpTime { spot_date, old_spot_date, spot_dynamics }
    }
}

} // verus!
