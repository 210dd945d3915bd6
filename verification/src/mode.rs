//! The USB modes of the recovery family.

use vstd::prelude::*;

verus! {

/// Known Apple recovery-family USB modes.
#[derive(Debug, Clone, Copy, PartialEq, Eq, Hash, Structural)]
pub enum RecoveryMode {
    Wtf,
    Dfu,
    Recovery,
    Restore,
    Kis,
    Unknown(u16),
}

/// The mode that a product ID of the recovery family stands for.
pub open spec fn mode_of(product_id: u16) -> Option<RecoveryMode> {
    if product_id == 0x1222 {
        Some(RecoveryMode::Wtf)
    } else if product_id == 0x1227 {
        Some(RecoveryMode::Dfu)
    } else if product_id == 0x1280 {
        Some(RecoveryMode::Restore)
    } else if product_id == 0x1281 {
        Some(RecoveryMode::Recovery)
    } else if product_id == 0x1881 {
        Some(RecoveryMode::Kis)
    } else {
        None
    }
}

/// The product ID of a known mode.
pub open spec fn product_id_of(mode: RecoveryMode) -> Option<u16> {
    match mode {
        RecoveryMode::Wtf => Some(0x1222),
        RecoveryMode::Dfu => Some(0x1227),
        RecoveryMode::Restore => Some(0x1280),
        RecoveryMode::Recovery => Some(0x1281),
        RecoveryMode::Kis => Some(0x1881),
        RecoveryMode::Unknown(_) => None,
    }
}

/// The mode of any product ID, known or not.
pub open spec fn mode_or_unknown(product_id: u16) -> RecoveryMode {
    match mode_of(product_id) {
        Some(mode) => mode,
        None => RecoveryMode::Unknown(product_id),
    }
}

impl RecoveryMode {
    /// Returns the known mode for an Apple recovery-family product ID.
    pub fn from_product_id(product_id: u16) -> (mode: Option<RecoveryMode>)
        ensures
            mode == mode_of(product_id),
    {
        match product_id {
            0x1222 => Some(RecoveryMode::Wtf),
            0x1227 => Some(RecoveryMode::Dfu),
            0x1280 => Some(RecoveryMode::Restore),
            0x1281 => Some(RecoveryMode::Recovery),
            0x1881 => Some(RecoveryMode::Kis),
            _ => None,
        }
    }

    /// Returns the product ID when this mode is known.
    pub fn product_id(self) -> (product_id: Option<u16>)
        ensures
            product_id == product_id_of(self),
    {
        match self {
            RecoveryMode::Wtf => Some(0x1222),
            RecoveryMode::Dfu => Some(0x1227),
            RecoveryMode::Restore => Some(0x1280),
            RecoveryMode::Recovery => Some(0x1281),
            RecoveryMode::Kis => Some(0x1881),
            RecoveryMode::Unknown(_) => None,
        }
    }

    /// Returns true when the mode is one of the known recovery-family modes.
    pub fn is_known(self) -> (known: bool)
        ensures
            known == !(self is Unknown),
    {
        !matches!(self, RecoveryMode::Unknown(_))
    }
}

impl From<u16> for RecoveryMode {
    fn from(product_id: u16) -> (mode: RecoveryMode) {
        match RecoveryMode::from_product_id(product_id) {
            Some(mode) => mode,
            None => RecoveryMode::Unknown(product_id),
        }
    }
}

impl vstd::std_specs::convert::FromSpecImpl<u16> for RecoveryMode {
    open spec fn obeys_from_spec() -> bool {
        true
    }

    open spec fn from_spec(product_id: u16) -> RecoveryMode {
        mode_or_unknown(product_id)
    }
}

/// Looking up a product ID and asking a known mode for its product ID undo
/// each other.
pub proof fn law_product_ids_round_trip(product_id: u16, mode: RecoveryMode)
    ensures
        mode_of(product_id) == Some(mode) <==> product_id_of(mode) == Some(product_id),
{
}

/// The modes with a product ID are the known ones, and these are the modes
/// that a lookup gives.
pub proof fn law_known_modes_have_product_ids(mode: RecoveryMode)
    ensures
        product_id_of(mode) is Some <==> !(mode is Unknown),
        !(mode is Unknown) <==> exists|product_id: u16| #[trigger]
            mode_of(product_id) == Some(mode),
{
    if !(mode is Unknown) {
        assert(mode_of(product_id_of(mode)->0) == Some(mode));
    }
}

/// Converting a product ID to a mode loses nothing: no two product IDs give
/// the same mode.
pub proof fn law_mode_conversion_is_injective(a: u16, b: u16)
    requires
        mode_or_unknown(a) == mode_or_unknown(b),
    ensures
        a == b,
{
}

} // verus!
