//! How the subject looks while it holds a modifier.

use vstd::prelude::*;
use crate::pickup::{ActivePickup, PickupType};

verus! {

/// The length of one flash of a subject that holds the consuming modifier:
/// three tenths of a second.
pub const PLANET_KILLER_FLASH_DURATION: u64 = 4_500;

/// The pictures of the subject.
#[derive(Clone, Copy, Debug, PartialEq, Eq)]
pub enum PlayerImage {
    Plain,
    PlanetKiller,
    Teleport,
}

/// The picture that shows the modifier of the subject.
pub fn set_player_image(active_pickup: &ActivePickup) -> (image: PlayerImage)
    ensures
        image == match active_pickup.0 {
            Some(PickupType::PlanetKiller) => PlayerImage::PlanetKiller,
            Some(PickupType::Teleport) => PlayerImage::Teleport,
            _ => PlayerImage::Plain,
        },
{
    match active_pickup.0 {
        Some(PickupType::PlanetKiller) => PlayerImage::PlanetKiller,
        Some(PickupType::Teleport) => PlayerImage::Teleport,
        _ => PlayerImage::Plain,
    }
}

/// Whether the subject is shown dimmed at `elapsed` units of time since the
/// start: in the second half of every flash, and only while it holds the
/// consuming modifier.
pub fn player_has_pickup_modifiers(active_pickup: &ActivePickup, elapsed: u64) -> (dimmed: bool)
    ensures
        dimmed == (active_pickup.consuming() && (elapsed % PLANET_KILLER_FLASH_DURATION) * 2
            > PLANET_KILLER_FLASH_DURATION),
{
    match active_pickup.0 {
        Some(PickupType::PlanetKiller) => (elapsed % PLANET_KILLER_FLASH_DURATION) * 2
            > PLANET_KILLER_FLASH_DURATION,
        _ => false,
    }
}

} // verus!
