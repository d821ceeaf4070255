//! Structs and enums: records of sea creatures, a place, and a marker.

use vstd::prelude::*;

verus! {

/// A sea creature, its kind given in words.
pub struct SeaCreature {
    pub animal_type: String,
    pub name: String,
    pub arms: i32,
    pub legs: i32,
    pub weapon: String,
}

/// The kinds of sea creature.
#[derive(Clone, Copy, Debug, PartialEq, Eq, Structural)]
pub enum Species {
    Crab,
    Octopus,
    Fish,
    Clam,
}

/// A sea creature, its kind given as a `Species`.
pub struct EnumSeaCreature {
    pub species: Species,
    pub name: String,
    pub arms: i32,
    pub legs: i32,
    pub weapon: String,
}

/// A place, as a struct with unnamed fields.
#[derive(Clone, Copy, Debug, PartialEq, Eq, Structural)]
pub struct Location(pub i32, pub i32);

/// A struct with no fields at all.
#[derive(Clone, Copy, Debug, PartialEq, Eq, Structural)]
pub struct Marker;

/// The word for a species.
pub open spec fn noun_of(species: Species) -> Seq<char> {
    match species {
        Species::Crab => "crab"@,
        Species::Octopus => "octopus"@,
        Species::Fish => "fish"@,
        Species::Clam => "clam"@,
    }
}

/// Gives the word for a species.
pub fn noun(species: Species) -> (word: &'static str)
    ensures
        word@ == noun_of(species),
{
    match species {
        Species::Crab => "crab",
        Species::Octopus => "octopus",
        Species::Fish => "fish",
        Species::Clam => "clam",
    }
}

/// Builds Ferris the crab as a struct with named fields.
pub fn struct_function() -> (ferris: SeaCreature)
    ensures
        ferris.animal_type@ == "crab"@,
        ferris.name@ == "Ferris"@,
        ferris.arms == 2,
        ferris.legs == 4,
        ferris.weapon@ == "claw"@,
{
    SeaCreature {
        animal_type: "crab".to_owned(),
        name: "Ferris".to_owned(),
        arms: 2,
        legs: 4,
        weapon: "claw".to_owned(),
    }
}

/// Builds the place (42, 32).
pub fn tuple_like_struct_function() -> (loc: Location)
    ensures
        loc == Location(42, 32),
{
    Location(42, 32)
}

/// Makes a marker, which holds nothing, and lets it go.
pub fn unit_like_struct_function() {
    let _m = Marker;
}

/// Builds Ferris the crab with its kind as a `Species`.
pub fn enum_function() -> (ferris: EnumSeaCreature)
    ensures
        ferris.species == Species::Crab,
        ferris.name@ == "Ferris"@,
        ferris.arms == 2,
        ferris.legs == 4,
        ferris.weapon@ == "claw"@,
{
    EnumSeaCreature {
        species: Species::Crab,
        name: "Ferris".to_owned(),
        arms: 2,
        legs: 4,
        weapon: "claw".to_owned(),
    }
}

} // verus!
