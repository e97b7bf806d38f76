//! Number-of-open-microphones attenuation: the more microphones are open,
//! the more the mix is turned down.
//!
//! The attenuation is `-10 * log10(n)` decibels for some count `n`. This
//! module decides which count that is; the logarithm stays with the caller.
use vstd::prelude::*;

verus! {

/// What a `NomAttenuation` holds, as plain mathematical values.
pub struct NomState {
    /// The count of open microphones given to the last update.
    pub nom: nat,
    /// The count that the attenuation in force is derived from. At one the
    /// attenuation is exactly unity, zero decibels.
    pub attenuating_nom: nat,
    /// Whether attenuation is switched on.
    pub enabled: bool,
}

/// The count that an update derives the attenuation from: the count of open
/// microphones where attenuation is switched on and more than one
/// microphone is open, and one otherwise.
pub open spec fn attenuating_count(enabled: bool, nom: nat) -> nat {
    if enabled && nom > 1 {
        nom
    } else {
        1
    }
}

/// Number-of-open-microphones attenuation.
///
/// Stands for `-10 * log10(attenuating_nom)` decibels of attenuation, which
/// makes up for the added noise of several open microphones.
#[derive(Debug, Clone, Copy)]
pub struct NomAttenuation {
    nom: usize,
    attenuating_nom: usize,
    enabled: bool,
}

impl View for NomAttenuation {
    type V = NomState;

    closed spec fn view(&self) -> NomState {
        NomState {
            nom: self.nom as nat,
            attenuating_nom: self.attenuating_nom as nat,
            enabled: self.enabled,
        }
    }
}

impl Default for NomAttenuation {
    fn default() -> (atten: Self)
        ensures
            atten@ == (NomState { nom: 1, attenuating_nom: 1, enabled: true }),
    {
        Self::new()
    }
}

impl NomAttenuation {
    /// Attenuation switched on, one microphone open, unity attenuation.
    pub fn new() -> (atten: Self)
        ensures
            atten@ == (NomState { nom: 1, attenuating_nom: 1, enabled: true }),
    {
        NomAttenuation { nom: 1, attenuating_nom: 1, enabled: true }
    }

    /// Update with a new count of open microphones and rederive the
    /// attenuation.
    pub fn update(&mut self, nom: usize)
        ensures
            final(self)@ == (NomState {
                nom: nom as nat,
                attenuating_nom: attenuating_count(old(self)@.enabled, nom as nat),
                enabled: old(self)@.enabled,
            }),
        no_unwind
    {
        self.nom = nom;
        if self.enabled && nom > 1 {
            self.attenuating_nom = nom;
        } else {
            self.attenuating_nom = 1;
        }
    }

    /// The count `n` of the attenuation in force, which is
    /// `-10 * log10(n)` decibels; at one it is exactly unity.
    pub fn attenuating_nom(&self) -> (count: usize)
        ensures
            count == self@.attenuating_nom,
    {
        self.attenuating_nom
    }

    /// Whether the attenuation in force is exactly unity, zero decibels.
    pub fn is_unity(&self) -> (unity: bool)
        ensures
            unity == (self@.attenuating_nom == 1),
    {
        self.attenuating_nom == 1
    }

    /// The count of open microphones given to the last update.
    pub fn nom(&self) -> (count: usize)
        ensures
            count == self@.nom,
    {
        self.nom
    }

    /// Switch attenuation on or off. Switching it off puts unity attenuation
    /// in force at once; switching it on takes effect with the next update.
    pub fn set_enabled(&mut self, enabled: bool)
        ensures
            final(self)@ == (NomState {
                nom: old(self)@.nom,
                attenuating_nom: if enabled {
                    old(self)@.attenuating_nom
                } else {
                    1
                },
                enabled,
            }),
        no_unwind
    {
        self.enabled = enabled;
        if !enabled {
            self.attenuating_nom = 1;
        }
    }

    /// Whether attenuation is switched on.
    pub fn enabled(&self) -> (enabled: bool)
        ensures
            enabled == self@.enabled,
    {
        self.enabled
    }
}

/// With at most one microphone open, or with attenuation switched off, an
/// update puts exactly unity attenuation in force.
pub proof fn lemma_unity_for_single_or_disabled(enabled: bool, nom: nat)
    requires
        nom <= 1 || !enabled,
    ensures
        attenuating_count(enabled, nom) == 1,
{
}

/// The attenuation in force is never derived from a count below one, so it
/// never amplifies; with attenuation on it grows with the count.
pub proof fn lemma_attenuating_count_monotone(enabled: bool, nom1: nat, nom2: nat)
    requires
        nom1 <= nom2,
    ensures
        1 <= attenuating_count(enabled, nom1) <= attenuating_count(enabled, nom2),
{
}

} // verus!
