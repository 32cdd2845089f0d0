//! Weapons and items as the client sees them, with their display names.

use vstd::prelude::*;

verus! {

/// The kinds of weapon a player can hold.
#[derive(Clone, Copy, Debug, PartialEq, Eq, Structural)]
pub enum WeaponType {
    Pistol,
    AssaultRifle,
    Sniper,
    Shotgun,
    SMG,
    Unarmed,
}

/// The kinds of item that fill inventory, chest and ground slots.
#[derive(Clone, Copy, Debug, PartialEq, Eq, Structural)]
pub enum ItemType {
    Weapon(WeaponType),
    PistolAmmo,
    RifleAmmo,
    ShotgunShells,
    SniperRounds,
    Wood,
    Stone,
}

/// A stack of identical items in one slot.
#[derive(Clone, Copy, Debug, PartialEq, Eq, Structural)]
pub struct ItemStack {
    pub item_type: ItemType,
    pub quantity: u32,
}

/// The HUD name of a weapon.
pub open spec fn weapon_name_spec(w: WeaponType) -> Seq<char> {
    match w {
        WeaponType::Pistol => "Pistol"@,
        WeaponType::AssaultRifle => "Assault Rifle"@,
        WeaponType::Sniper => "Sniper Rifle"@,
        WeaponType::Shotgun => "Shotgun"@,
        WeaponType::SMG => "SMG"@,
        WeaponType::Unarmed => "Unarmed"@,
    }
}

/// The short hotbar label of an item.
pub open spec fn hotbar_item_name_spec(t: ItemType) -> Seq<char> {
    match t {
        ItemType::Weapon(w) => match w {
            WeaponType::Pistol => "Pistol"@,
            WeaponType::AssaultRifle => "AR"@,
            WeaponType::Sniper => "Sniper"@,
            WeaponType::Shotgun => "Shotgun"@,
            WeaponType::SMG => "SMG"@,
            WeaponType::Unarmed => "-"@,
        },
        ItemType::PistolAmmo => "9mm"@,
        ItemType::RifleAmmo => "5.56"@,
        ItemType::ShotgunShells => "Shells"@,
        ItemType::SniperRounds => ".308"@,
        ItemType::Wood => "Wood"@,
        ItemType::Stone => "Stone"@,
    }
}

/// Display name for a weapon type, as shown in the weapon HUD.
pub fn weapon_name(weapon: WeaponType) -> (r: String)
    ensures
        r@ == weapon_name_spec(weapon),
{
    match weapon {
        WeaponType::Pistol => String::from_str("Pistol"),
        WeaponType::AssaultRifle => String::from_str("Assault Rifle"),
        WeaponType::Sniper => String::from_str("Sniper Rifle"),
        WeaponType::Shotgun => String::from_str("Shotgun"),
        WeaponType::SMG => String::from_str("SMG"),
        WeaponType::Unarmed => String::from_str("Unarmed"),
    }
}

/// Short display name for an item in the hotbar line.
pub fn hotbar_item_name(item_type: &ItemType) -> (r: String)
    ensures
        r@ == hotbar_item_name_spec(*item_type),
{
    match item_type {
        ItemType::Weapon(w) => match w {
            WeaponType::Pistol => String::from_str("Pistol"),
            WeaponType::AssaultRifle => String::from_str("AR"),
            WeaponType::Sniper => String::from_str("Sniper"),
            WeaponType::Shotgun => String::from_str("Shotgun"),
            WeaponType::SMG => String::from_str("SMG"),
            WeaponType::Unarmed => String::from_str("-"),
        },
        ItemType::PistolAmmo => String::from_str("9mm"),
        ItemType::RifleAmmo => String::from_str("5.56"),
        ItemType::ShotgunShells => String::from_str("Shells"),
        ItemType::SniperRounds => String::from_str(".308"),
        ItemType::Wood => String::from_str("Wood"),
        ItemType::Stone => String::from_str("Stone"),
    }
}

} // verus!
