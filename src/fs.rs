use vstd::prelude::*;

verus! {

/// The text that `bytes` encode as UTF-8, or nothing when they are not UTF-8.
pub uninterp spec fn utf8_decode(bytes: Seq<u8>) -> Option<Seq<char>>;

/// Relies on `String::from_utf8`: it succeeds exactly on valid UTF-8, and ASCII
/// bytes are valid UTF-8 that decode to one character each.
#[verifier::external_body]
fn decode_utf8(bytes: Vec<u8>) -> (r: Option<String>)
    ensures
        r is Some <==> utf8_decode(bytes@) is Some,
        r is Some ==> r->Some_0@ == utf8_decode(bytes@)->Some_0,
        (forall|i: int| 0 <= i < bytes@.len() ==> bytes@[i] < 128) ==> r is Some && r->Some_0@
            == bytes@.map_values(|b: u8| b as char),
{
    String::from_utf8(bytes).ok()
}

/// The contents of a text file: `None` when they are not UTF-8.
pub fn load_as_string(data: Vec<u8>) -> (r: Option<String>)
    ensures
        r is Some <==> utf8_decode(data@) is Some,
        r is Some ==> r->Some_0@ == utf8_decode(data@)->Some_0,
        (forall|i: int| 0 <= i < data@.len() ==> data@[i] < 128) ==> r is Some && r->Some_0@
            == data@.map_values(|b: u8| b as char),
{
    decode_utf8(data)
}

/// The game data of one kind of unit. Costs are in whole coins.
#[derive(Clone, Debug)]
pub struct UnitType {
    pub name: String,
    pub count: u8,
    pub size: u8,
    pub hp: u8,
    pub defence_skill: u8,
    pub armor: u8,
    pub shield: u8,
    pub attack_skill: i32,
    pub speed: u8,
    pub cost_recruit: u32,
    pub cost_upkeep: u32,
}

/// The game data of the unit called `name`: every unit type has the standard
/// statistics for now.
pub fn load_unit_data(name: String) -> (r: Option<UnitType>)
    ensures
        r is Some,
        r->Some_0.name == name,
        r->Some_0.count == 120 && r->Some_0.size == 2 && r->Some_0.hp == 3,
        r->Some_0.defence_skill == 8 && r->Some_0.armor == 8 && r->Some_0.shield == 8,
        r->Some_0.attack_skill == 8 && r->Some_0.speed == 8,
        r->Some_0.cost_recruit == 240 && r->Some_0.cost_upkeep == 50,
{
    Some(
        UnitType {
            name,
            count: 120,
            size: 2,
            hp: 3,
            defence_skill: 8,
            armor: 8,
            shield: 8,
            attack_skill: 8,
            speed: 8,
            cost_recruit: 240,
            cost_upkeep: 50,
        },
    )
}

} // verus!
