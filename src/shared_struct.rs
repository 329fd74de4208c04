//! The latest validated payload of each category.

use vstd::prelude::*;
use crate::hottoh_structs::{
    blank_dat0, blank_dat1, blank_dat2, blank_inf, DAT0Data, DAT1Data, DAT2Data, INFData,
};

verus! {

/// What the device-state record holds.
pub struct SharedStateView {
    pub inf: INFData,
    pub dat0: DAT0Data,
    pub dat1: DAT1Data,
    pub dat2: DAT2Data,
}

/// Latest validated device information and data pages.
#[derive(Debug)]
pub struct SharedState {
    /// General information about the device
    inf: INFData,
    /// Main data page
    dat0: DAT0Data,
    /// Additional temperatures
    dat1: DAT1Data,
    /// Pumps, valves and water circuits
    dat2: DAT2Data,
}

impl View for SharedState {
    type V = SharedStateView;

    closed spec fn view(&self) -> SharedStateView {
        SharedStateView { inf: self.inf, dat0: self.dat0, dat1: self.dat1, dat2: self.dat2 }
    }
}

impl SharedState {
    /// A record with every category empty.
    pub fn new() -> (r: Self)
        ensures
            blank_inf(r@.inf),
            blank_dat0(r@.dat0),
            blank_dat1(r@.dat1),
            blank_dat2(r@.dat2),
    {
        SharedState {
            inf: INFData::default(),
            dat0: DAT0Data::default(),
            dat1: DAT1Data::default(),
            dat2: DAT2Data::default(),
        }
    }

    pub fn get_inf(&self) -> (r: &INFData)
        ensures
            *r == self@.inf,
    {
        &self.inf
    }

    pub fn get_dat0(&self) -> (r: &DAT0Data)
        ensures
            *r == self@.dat0,
    {
        &self.dat0
    }

    pub fn get_dat1(&self) -> (r: &DAT1Data)
        ensures
            *r == self@.dat1,
    {
        &self.dat1
    }

    pub fn get_dat2(&self) -> (r: &DAT2Data)
        ensures
            *r == self@.dat2,
    {
        &self.dat2
    }

    /// Replaces the device information wholesale.
    pub fn set_inf(&mut self, inf: &INFData)
        ensures
            final(self)@ == (SharedStateView { inf: *inf, ..old(self)@ }),
    {
        self.inf = inf.clone();
    }

    /// Replaces data page 0 wholesale.
    pub fn set_dat0(&mut self, dat0: &DAT0Data)
        ensures
            final(self)@ == (SharedStateView { dat0: *dat0, ..old(self)@ }),
    {
        self.dat0 = dat0.clone();
    }

    /// Replaces data page 1 wholesale.
    pub fn set_dat1(&mut self, dat1: &DAT1Data)
        ensures
            final(self)@ == (SharedStateView { dat1: *dat1, ..old(self)@ }),
    {
        self.dat1 = dat1.clone();
    }

    /// Replaces data page 2 wholesale.
    pub fn set_dat2(&mut self, dat2: &DAT2Data)
        ensures
            final(self)@ == (SharedStateView { dat2: *dat2, ..old(self)@ }),
    {
        self.dat2 = dat2.clone();
    }

    /// A copy of the whole record.
    pub fn snapshot(&self) -> (r: SharedState)
        ensures
            r@ == self@,
    {
        SharedState {
            inf: self.inf.clone(),
            dat0: self.dat0.clone(),
            dat1: self.dat1.clone(),
            dat2: self.dat2.clone(),
        }
    }
}

} // verus!
