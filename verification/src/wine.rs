//! A second small subject for parameterized tests: the wine regions that
//! have been tasted.

use vstd::prelude::*;

verus! {

/// A wine region of France.
#[derive(Debug, Clone, Copy, PartialEq, Eq, Structural)]
pub enum WineRegion {
    Champagne,
    Jura,
    Languedoc,
    Loire(LoireArea),
}

/// An area of the Loire.
#[derive(Debug, Clone, Copy, PartialEq, Eq, Structural)]
pub enum LoireArea {
    Nantes,
    Touraine,
}

impl WineRegion {
    /// Every region has been tasted but the Jura; the Loire has been where
    /// its area has been.
    pub fn tasted(&self) -> (tasted: Option<()>)
        ensures
            tasted is Some <==> !(self is Jura),
    {
        match self {
            WineRegion::Champagne => Some(()),
            WineRegion::Jura => None,
            WineRegion::Languedoc => Some(()),
            WineRegion::Loire(area) => area.tasted(),
        }
    }
}

impl LoireArea {
    /// Both areas of the Loire have been tasted.
    pub fn tasted(&self) -> (tasted: Option<()>)
        ensures
            tasted is Some,
    {
        Some(())
    }
}

} // verus!
