//! Entity and player identifiers.
//!
//! All identifiers are newtypes over plain integers or strings, for type
//! safety and deterministic comparison.

use vstd::prelude::*;

verus! {

/// Unique identifier for game entities (units, buildings, resource nodes).
/// `0` is reserved as "invalid/unset"; valid identifiers are never reused.
#[derive(Clone, Copy, PartialEq, Eq, Structural, Hash, Debug)]
pub struct EntityId(pub u64);

impl EntityId {
    /// The reserved "invalid/unset" identifier.
    pub fn invalid() -> (r: Self)
        ensures
            r.0 == 0,
    {
        EntityId(0)
    }

    pub fn new(id: u64) -> (r: Self)
        ensures
            r.0 == id,
    {
        EntityId(id)
    }

    pub fn is_valid(&self) -> (r: bool)
        ensures
            r == (self.0 != 0),
    {
        self.0 != 0
    }
}

/// Unique identifier for players. `0` is reserved for "neutral"
/// (unowned resource nodes and the like).
#[derive(Clone, Copy, PartialEq, Eq, Structural, Hash, Debug)]
pub struct PlayerId(pub u8);

impl PlayerId {
    /// The reserved "neutral" player.
    pub fn neutral() -> (r: Self)
        ensures
            r.0 == 0,
    {
        PlayerId(0)
    }

    pub fn player_one() -> (r: Self)
        ensures
            r.0 == 1,
    {
        PlayerId(1)
    }

    pub fn player_two() -> (r: Self)
        ensures
            r.0 == 2,
    {
        PlayerId(2)
    }

    pub fn new(id: u8) -> (r: Self)
        ensures
            r.0 == id,
    {
        PlayerId(id)
    }

    pub fn is_neutral(&self) -> (r: bool)
        ensures
            r == (self.0 == 0),
    {
        self.0 == 0
    }
}

/// Identifier for technologies in the tech tree.
#[derive(Clone, Debug)]
pub struct TechId(pub String);

impl TechId {
    pub fn new(id: String) -> (r: Self)
        ensures
            r.0@ == id@,
    {
        TechId(id)
    }
}

/// Identifier for ages in the tech tree.
#[derive(Clone, Debug)]
pub struct AgeId(pub String);

impl AgeId {
    pub fn new(id: String) -> (r: Self)
        ensures
            r.0@ == id@,
    {
        AgeId(id)
    }
}

/// Identifier for empires (civilizations).
#[derive(Clone, Debug)]
pub struct EmpireId(pub String);

impl EmpireId {
    pub fn new(id: String) -> (r: Self)
        ensures
            r.0@ == id@,
    {
        EmpireId(id)
    }
}

/// Identifier for leaders.
#[derive(Clone, Debug)]
pub struct LeaderId(pub String);

impl LeaderId {
    pub fn new(id: String) -> (r: Self)
        ensures
            r.0@ == id@,
    {
        LeaderId(id)
    }
}

} // verus!
