//! Milkshakes with a public flavour and volume and a private price.
use vstd::prelude::*;

verus! {

/// The volume of every shake, in millilitres.
pub const SHAKE_VOLUME: u32 = 500;

/// The price of every shake, in pence.
pub const SHAKE_PRICE: u32 = 650;

#[derive(PartialEq, Eq, Structural)]
pub enum ShakeFlavour {
    Chocolate,
    Vanilla,
    Strawberry,
}

pub struct Shake {
    pub flavour: ShakeFlavour,
    pub volume: u32,
    price: u32,
}

impl Shake {
    /// The flavour of this shake.
    pub closed spec fn spec_flavour(&self) -> ShakeFlavour {
        self.flavour
    }

    /// The volume of this shake, in millilitres.
    pub closed spec fn spec_volume(&self) -> u32 {
        self.volume
    }

    /// The price of this shake, in pence.
    pub closed spec fn spec_price(&self) -> u32 {
        self.price
    }

    fn new(flavour: ShakeFlavour) -> (r: Shake)
        ensures
            r.spec_flavour() == flavour,
            r.spec_volume() == SHAKE_VOLUME,
            r.spec_price() == SHAKE_PRICE,
    {
        Shake { flavour, volume: SHAKE_VOLUME, price: SHAKE_PRICE }
    }

    /// A chocolate shake of the standard volume and price.
    pub fn chocolate_shake() -> (r: Shake)
        ensures
            r.spec_flavour() == ShakeFlavour::Chocolate,
            r.spec_volume() == SHAKE_VOLUME,
            r.spec_price() == SHAKE_PRICE,
    {
        Shake::new(ShakeFlavour::Chocolate)
    }

    /// The price of this shake, in pence.
    pub fn price(&self) -> (r: u32)
        ensures
            r == self.spec_price(),
    {
        self.price
    }
}

} // verus!
