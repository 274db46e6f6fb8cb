use vstd::prelude::*;
use crate::action::Action;
use crate::modifier::Modifier;

verus! {

/// A calendar date.
pub struct Date {
    pub year: i64,
    pub month: u8,
    pub day: u8,
}

/// A character. Other characters are referred to by their index in the
/// collection that holds all characters, never held inside one another.
pub struct Character {
    pub name: String,
    pub aliases: Vec<String>,
    pub dob: Date,
    pub species: String,
    pub occupation: String,
    pub skills: Vec<Skill>,
    pub abilities: Vec<Ability>,
    pub traits: Vec<Trait>,
    pub languages: Vec<Language>,
    /// Index of the other character, and the nature of the relationship.
    pub relationships: Vec<(usize, String)>,
    /// Organisation, and the character's standing in it.
    pub affiliations: Vec<(String, String)>,
    /// Place, and what ties the character to it.
    pub locations: Vec<(String, String)>,
    pub inventory: Inventory,
    pub notes: Vec<String>,
}

/// A condition that a [`Character`] could have.
pub struct Condition {
    pub name: String,
    pub description: String,
}

/// A skill: something anyone can try and build up, like swimming or
/// cooking. Its modifier is what it adds to a roll.
pub struct Skill {
    pub name: String,
    pub modifier: Modifier,
    pub description: String,
}

/// An ability: something most characters will not have, such as a
/// superpower or a cantrip.
pub struct Ability {
    pub name: String,
    pub levels: u8,
    pub actions: Vec<Action>,
    pub descriptions: Vec<String>,
}

/// A trait: something born with or developed that shifts certain aspects
/// of a character, often as a trade-off.
pub struct Trait {
    pub name: String,
    pub levels: u8,
    pub actions: Vec<Action>,
    pub descriptions: Vec<String>,
}

/// A language, with its dictionary as pairs of word and translation.
pub struct Language {
    pub name: String,
    pub dictionary: Vec<(String, String)>,
    pub difficulty: u8,
}

/// A player's inventory.
pub struct Inventory {
    pub items: Vec<Item>,
    pub containers: Vec<ItemContainer>,
}

/// An item.
pub struct Item {
    pub name: String,
    pub actions: Option<Vec<Action>>,
    pub tags: Vec<String>,
    pub rarity: String,
    pub description: String,
    pub weight: u32,
    pub cost: u32,
}

/// A portable storage container, like a backpack.
pub struct ItemContainer {
    pub name: String,
    pub rarity: String,
    pub items: Vec<Item>,
    pub weight: u32,
    pub cost: u32,
}

} // verus!
