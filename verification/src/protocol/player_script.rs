//! The serialized state of a player, as the game sends it.
use vstd::prelude::*;

use crate::codec;
use crate::value::{values_view, CustomData, PhotonDataType, PhotonValue};

verus! {

/// The type code of the item expected at each position of a player's serialized state.
pub open spec fn script_item_types() -> Seq<u8> {
    seq![codec::SHORT, codec::SHORT, codec::SHORT, codec::SHORT, codec::SHORT, codec::SHORT, codec::SHORT, codec::SHORT, codec::SHORT, codec::SHORT, codec::SHORT, codec::SHORT, codec::SHORT, codec::BYTE, codec::BYTE, codec::BYTE, codec::BYTE, codec::BYTE, codec::INTEGER, codec::CUSTOM, codec::CUSTOM]
}

/// The first position, from `i` on, whose item is missing or has another type than expected.
pub open spec fn first_unexpected(items: Seq<PhotonValue>, i: int) -> Option<int>
    decreases script_item_types().len() - i,
{
    if i < 0 || i >= script_item_types().len() {
        None
    } else if i >= items.len() || codec::type_code(items[i]) != script_item_types()[i] {
        Some(i)
    } else {
        first_unexpected(items, i + 1)
    }
}

/// An item of a player's serialized state was missing or had another type than expected.
#[derive(Debug, Clone, Copy, PartialEq, Eq)]
pub struct UnexpectedItem {
    /// The position of the item.
    pub position: usize,
    /// The type code that the item should have had.
    pub expected_type: u8,
}

/// The serialized state of a player.
#[derive(Debug)]
pub struct PlayerScript {
    pub aiming_x: i16,
    pub aiming_y: i16,
    /// move angle?
    pub move_angle: i16,
    pub number_of_kills: i16,
    pub number_of_deaths: i16,
    pub number_of_rounds: i16,
    pub ping: i16,
    /// possibly lastLocalHitY
    pub last_local_hit_y: i16,
    pub gun_game_score: i16,
    pub velocity_x: i16,
    pub velocity_y: i16,
    pub velocity_z: i16,
    /// Health value, where 10000 is 100%
    pub health: i16,
    pub accessory_type: u8,
    pub barrel_type: u8,
    pub sight_type: u8,
    /// The weapon of the person that last damaged this player.
    pub weapon_last_damaged_from: u8,
    /// Bitflags: Crouching, CanShoot, GunReloading, IsThrowing, IsGrounded, 0, 0, 0
    pub bitflags: u8,
    /// The id of the person that last damaged this player.
    pub last_damager_id: i32,
    pub unknown_1: CustomData,
    pub unknown_2: CustomData,
}

/// The item at `i`, if there is one of type Short.
fn short_item(objects: &[PhotonDataType], i: usize) -> (r: Option<i16>)
    ensures
        match r {
            Some(x) => i < objects@.len() && objects@[i as int]@ == PhotonValue::Short(x),
            None => i >= objects@.len() || codec::type_code(objects@[i as int]@) != codec::SHORT,
        },
{
    if i < objects.len() {
        match &objects[i] {
            PhotonDataType::Short(x) => Some(*x),
            _ => None,
        }
    } else {
        None
    }
}

/// The item at `i`, if there is one of type Byte.
fn byte_item(objects: &[PhotonDataType], i: usize) -> (r: Option<u8>)
    ensures
        match r {
            Some(x) => i < objects@.len() && objects@[i as int]@ == PhotonValue::Byte(x),
            None => i >= objects@.len() || codec::type_code(objects@[i as int]@) != codec::BYTE,
        },
{
    if i < objects.len() {
        match &objects[i] {
            PhotonDataType::Byte(x) => Some(*x),
            _ => None,
        }
    } else {
        None
    }
}

/// The item at `i`, if there is one of type Integer.
fn int_item(objects: &[PhotonDataType], i: usize) -> (r: Option<i32>)
    ensures
        match r {
            Some(x) => i < objects@.len() && objects@[i as int]@ == PhotonValue::Integer(x),
            None => i >= objects@.len() || codec::type_code(objects@[i as int]@) != codec::INTEGER,
        },
{
    if i < objects.len() {
        match &objects[i] {
            PhotonDataType::Integer(x) => Some(*x),
            _ => None,
        }
    } else {
        None
    }
}

/// A copy of the item at `i`, if there is one of type Custom.
fn custom_item(objects: &[PhotonDataType], i: usize) -> (r: Option<CustomData>)
    ensures
        match r {
            Some(x) => i < objects@.len() && objects@[i as int]@ == PhotonValue::Custom(x.type_code, x.data@),
            None => i >= objects@.len() || codec::type_code(objects@[i as int]@) != codec::CUSTOM,
        },
{
    if i < objects.len() {
        match &objects[i] {
            PhotonDataType::Custom(x) => Some(x.deep_clone()),
            _ => None,
        }
    } else {
        None
    }
}

impl PlayerScript {
    /// The items, in order.
    pub open spec fn items(&self) -> Seq<PhotonValue> {
        seq![
            PhotonValue::Short(self.aiming_x),
            PhotonValue::Short(self.aiming_y),
            PhotonValue::Short(self.move_angle),
            PhotonValue::Short(self.number_of_kills),
            PhotonValue::Short(self.number_of_deaths),
            PhotonValue::Short(self.number_of_rounds),
            PhotonValue::Short(self.ping),
            PhotonValue::Short(self.last_local_hit_y),
            PhotonValue::Short(self.gun_game_score),
            PhotonValue::Short(self.velocity_x),
            PhotonValue::Short(self.velocity_y),
            PhotonValue::Short(self.velocity_z),
            PhotonValue::Short(self.health),
            PhotonValue::Byte(self.accessory_type),
            PhotonValue::Byte(self.barrel_type),
            PhotonValue::Byte(self.sight_type),
            PhotonValue::Byte(self.weapon_last_damaged_from),
            PhotonValue::Byte(self.bitflags),
            PhotonValue::Integer(self.last_damager_id),
            PhotonValue::Custom(self.unknown_1.type_code, self.unknown_1.data@),
            PhotonValue::Custom(self.unknown_2.type_code, self.unknown_2.data@),
        ]
    }

    /// Reads a player's state out of its serialized items; items after the last one it uses are
    /// ignored.
    pub fn from_object_array(objects: &[PhotonDataType]) -> (r: Result<Self, UnexpectedItem>)
        ensures
            match first_unexpected(values_view(objects@), 0) {
                Some(i) => r == Err::<Self, UnexpectedItem>(UnexpectedItem { position: i as usize, expected_type: script_item_types()[i] }),
                None => r matches Ok(x) && x.items() == values_view(objects@).subrange(0, 21),
            },
    {
        proof {
            crate::value::lemma_values_view(objects@);
        }
        let aiming_x = match short_item(objects, 0) {
            Some(x) => x,
            None => {
                proof {
                    reveal_with_fuel(first_unexpected, 2);
                }
                return Err(UnexpectedItem { position: 0, expected_type: codec::SHORT });
            },
        };
        let aiming_y = match short_item(objects, 1) {
            Some(x) => x,
            None => {
                proof {
                    reveal_with_fuel(first_unexpected, 3);
                }
                return Err(UnexpectedItem { position: 1, expected_type: codec::SHORT });
            },
        };
        let move_angle = match short_item(objects, 2) {
            Some(x) => x,
            None => {
                proof {
                    reveal_with_fuel(first_unexpected, 4);
                }
                return Err(UnexpectedItem { position: 2, expected_type: codec::SHORT });
            },
        };
        let number_of_kills = match short_item(objects, 3) {
            Some(x) => x,
            None => {
                proof {
                    reveal_with_fuel(first_unexpected, 5);
                }
                return Err(UnexpectedItem { position: 3, expected_type: codec::SHORT });
            },
        };
        let number_of_deaths = match short_item(objects, 4) {
            Some(x) => x,
            None => {
                proof {
                    reveal_with_fuel(first_unexpected, 6);
                }
                return Err(UnexpectedItem { position: 4, expected_type: codec::SHORT });
            },
        };
        let number_of_rounds = match short_item(objects, 5) {
            Some(x) => x,
            None => {
                proof {
                    reveal_with_fuel(first_unexpected, 7);
                }
                return Err(UnexpectedItem { position: 5, expected_type: codec::SHORT });
            },
        };
        let ping = match short_item(objects, 6) {
            Some(x) => x,
            None => {
                proof {
                    reveal_with_fuel(first_unexpected, 8);
                }
                return Err(UnexpectedItem { position: 6, expected_type: codec::SHORT });
            },
        };
        let last_local_hit_y = match short_item(objects, 7) {
            Some(x) => x,
            None => {
                proof {
                    reveal_with_fuel(first_unexpected, 9);
                }
                return Err(UnexpectedItem { position: 7, expected_type: codec::SHORT });
            },
        };
        let gun_game_score = match short_item(objects, 8) {
            Some(x) => x,
            None => {
                proof {
                    reveal_with_fuel(first_unexpected, 10);
                }
                return Err(UnexpectedItem { position: 8, expected_type: codec::SHORT });
            },
        };
        let velocity_x = match short_item(objects, 9) {
            Some(x) => x,
            None => {
                proof {
                    reveal_with_fuel(first_unexpected, 11);
                }
                return Err(UnexpectedItem { position: 9, expected_type: codec::SHORT });
            },
        };
        let velocity_y = match short_item(objects, 10) {
            Some(x) => x,
            None => {
                proof {
                    reveal_with_fuel(first_unexpected, 12);
                }
                return Err(UnexpectedItem { position: 10, expected_type: codec::SHORT });
            },
        };
        let velocity_z = match short_item(objects, 11) {
            Some(x) => x,
            None => {
                proof {
                    reveal_with_fuel(first_unexpected, 13);
                }
                return Err(UnexpectedItem { position: 11, expected_type: codec::SHORT });
            },
        };
        let health = match short_item(objects, 12) {
            Some(x) => x,
            None => {
                proof {
                    reveal_with_fuel(first_unexpected, 14);
                }
                return Err(UnexpectedItem { position: 12, expected_type: codec::SHORT });
            },
        };
        let accessory_type = match byte_item(objects, 13) {
            Some(x) => x,
            None => {
                proof {
                    reveal_with_fuel(first_unexpected, 15);
                }
                return Err(UnexpectedItem { position: 13, expected_type: codec::BYTE });
            },
        };
        let barrel_type = match byte_item(objects, 14) {
            Some(x) => x,
            None => {
                proof {
                    reveal_with_fuel(first_unexpected, 16);
                }
                return Err(UnexpectedItem { position: 14, expected_type: codec::BYTE });
            },
        };
        let sight_type = match byte_item(objects, 15) {
            Some(x) => x,
            None => {
                proof {
                    reveal_with_fuel(first_unexpected, 17);
                }
                return Err(UnexpectedItem { position: 15, expected_type: codec::BYTE });
            },
        };
        let weapon_last_damaged_from = match byte_item(objects, 16) {
            Some(x) => x,
            None => {
                proof {
                    reveal_with_fuel(first_unexpected, 18);
                }
                return Err(UnexpectedItem { position: 16, expected_type: codec::BYTE });
            },
        };
        let bitflags = match byte_item(objects, 17) {
            Some(x) => x,
            None => {
                proof {
                    reveal_with_fuel(first_unexpected, 19);
                }
                return Err(UnexpectedItem { position: 17, expected_type: codec::BYTE });
            },
        };
        let last_damager_id = match int_item(objects, 18) {
            Some(x) => x,
            None => {
                proof {
                    reveal_with_fuel(first_unexpected, 20);
                }
                return Err(UnexpectedItem { position: 18, expected_type: codec::INTEGER });
            },
        };
        let unknown_1 = match custom_item(objects, 19) {
            Some(x) => x,
            None => {
                proof {
                    reveal_with_fuel(first_unexpected, 21);
                }
                return Err(UnexpectedItem { position: 19, expected_type: codec::CUSTOM });
            },
        };
        let unknown_2 = match custom_item(objects, 20) {
            Some(x) => x,
            None => {
                proof {
                    reveal_with_fuel(first_unexpected, 22);
                }
                return Err(UnexpectedItem { position: 20, expected_type: codec::CUSTOM });
            },
        };
        let r = PlayerScript { aiming_x, aiming_y, move_angle, number_of_kills, number_of_deaths, number_of_rounds, ping, last_local_hit_y, gun_game_score, velocity_x, velocity_y, velocity_z, health, accessory_type, barrel_type, sight_type, weapon_last_damaged_from, bitflags, last_damager_id, unknown_1, unknown_2 };
        proof {
            reveal_with_fuel(first_unexpected, 23);
            assert(r.items() =~= values_view(objects@).subrange(0, 21));
        }
        Ok(r)
    }
}

} // verus!
