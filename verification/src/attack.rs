use vstd::prelude::*;
use vstd::string::*;

use crate::text::str_eq;

verus! {

/// The attack categories the game attaches to a damage instance.
#[derive(Clone, Copy, Debug, PartialEq, Eq, Structural, PartialOrd, Ord, Hash)]
pub enum AttackType {
    Unknown,
    Normal,
    BPSkill,
    Ultra,
    QTE,
    DOT,
    Pursued,
    Maze,
    MazeNormal,
    Insert,
    ElementDamage,
    Servant,
    TrueDamage,
    ElationDamage,
    Assist,
}

/// The member name the game uses for an attack type.
pub open spec fn attack_type_name(t: AttackType) -> Seq<char> {
    match t {
        AttackType::Unknown => "Unknown"@,
        AttackType::Normal => "Normal"@,
        AttackType::BPSkill => "BPSkill"@,
        AttackType::Ultra => "Ultra"@,
        AttackType::QTE => "QTE"@,
        AttackType::DOT => "DOT"@,
        AttackType::Pursued => "Pursued"@,
        AttackType::Maze => "Maze"@,
        AttackType::MazeNormal => "MazeNormal"@,
        AttackType::Insert => "Insert"@,
        AttackType::ElementDamage => "ElementDamage"@,
        AttackType::Servant => "Servant"@,
        AttackType::TrueDamage => "TrueDamage"@,
        AttackType::ElationDamage => "ElationDamage"@,
        AttackType::Assist => "Assist"@,
    }
}

/// The attack type whose member name is `s`; any other text is `Unknown`.
pub open spec fn attack_type_from_name(s: Seq<char>) -> AttackType {
    if s == "Normal"@ {
        AttackType::Normal
    } else if s == "BPSkill"@ {
        AttackType::BPSkill
    } else if s == "Ultra"@ {
        AttackType::Ultra
    } else if s == "QTE"@ {
        AttackType::QTE
    } else if s == "DOT"@ {
        AttackType::DOT
    } else if s == "Pursued"@ {
        AttackType::Pursued
    } else if s == "Maze"@ {
        AttackType::Maze
    } else if s == "MazeNormal"@ {
        AttackType::MazeNormal
    } else if s == "Insert"@ {
        AttackType::Insert
    } else if s == "ElementDamage"@ {
        AttackType::ElementDamage
    } else if s == "Servant"@ {
        AttackType::Servant
    } else if s == "TrueDamage"@ {
        AttackType::TrueDamage
    } else if s == "ElationDamage"@ {
        AttackType::ElationDamage
    } else if s == "Assist"@ {
        AttackType::Assist
    } else {
        AttackType::Unknown
    }
}

/// The label shown to players for an attack type.
pub open spec fn damage_type_label(t: AttackType) -> Seq<char> {
    match t {
        AttackType::Normal => "Basic"@,
        AttackType::BPSkill => "Skill"@,
        AttackType::Ultra => "Ultimate"@,
        AttackType::QTE => "QTE"@,
        AttackType::DOT => "DoT"@,
        AttackType::Pursued => "Additional"@,
        AttackType::Maze => "Technique"@,
        AttackType::MazeNormal => "Technique"@,
        AttackType::Insert => "Follow-Up"@,
        AttackType::ElementDamage => "Break"@,
        AttackType::Servant => "Servant"@,
        AttackType::TrueDamage => "True"@,
        AttackType::ElationDamage => "Elation"@,
        AttackType::Assist => "Assist"@,
        AttackType::Unknown => attack_type_name(t),
    }
}

/// How many attack types there are.
pub const ATTACK_TYPE_COUNT: u32 = 15;

/// The place of an attack type in the game's order of attack types, from 0.
pub open spec fn attack_type_rank(t: AttackType) -> u32 {
    match t {
        AttackType::Unknown => 0,
        AttackType::Normal => 1,
        AttackType::BPSkill => 2,
        AttackType::Ultra => 3,
        AttackType::QTE => 4,
        AttackType::DOT => 5,
        AttackType::Pursued => 6,
        AttackType::Maze => 7,
        AttackType::MazeNormal => 8,
        AttackType::Insert => 9,
        AttackType::ElementDamage => 10,
        AttackType::Servant => 11,
        AttackType::TrueDamage => 12,
        AttackType::ElationDamage => 13,
        AttackType::Assist => 14,
    }
}

/// The attack type at place `r` of the game's order (the last one past its end).
pub open spec fn attack_type_of_rank(r: u32) -> AttackType {
    if r == 0 {
        AttackType::Unknown
    } else if r == 1 {
        AttackType::Normal
    } else if r == 2 {
        AttackType::BPSkill
    } else if r == 3 {
        AttackType::Ultra
    } else if r == 4 {
        AttackType::QTE
    } else if r == 5 {
        AttackType::DOT
    } else if r == 6 {
        AttackType::Pursued
    } else if r == 7 {
        AttackType::Maze
    } else if r == 8 {
        AttackType::MazeNormal
    } else if r == 9 {
        AttackType::Insert
    } else if r == 10 {
        AttackType::ElementDamage
    } else if r == 11 {
        AttackType::Servant
    } else if r == 12 {
        AttackType::TrueDamage
    } else if r == 13 {
        AttackType::ElationDamage
    } else {
        AttackType::Assist
    }
}

/// Ranks are below the number of attack types and lead back to their type.
pub proof fn lemma_attack_type_rank(t: AttackType)
    ensures
        attack_type_rank(t) < ATTACK_TYPE_COUNT,
        attack_type_of_rank(attack_type_rank(t)) == t,
{
}

impl AttackType {
    /// Reads an attack type from its member name; unrecognised names give `Unknown`.
    pub fn parse(s: &str) -> (t: AttackType)
        ensures
            t == attack_type_from_name(s@),
    {
        if str_eq(s, "Normal") {
            AttackType::Normal
        } else if str_eq(s, "BPSkill") {
            AttackType::BPSkill
        } else if str_eq(s, "Ultra") {
            AttackType::Ultra
        } else if str_eq(s, "QTE") {
            AttackType::QTE
        } else if str_eq(s, "DOT") {
            AttackType::DOT
        } else if str_eq(s, "Pursued") {
            AttackType::Pursued
        } else if str_eq(s, "Maze") {
            AttackType::Maze
        } else if str_eq(s, "MazeNormal") {
            AttackType::MazeNormal
        } else if str_eq(s, "Insert") {
            AttackType::Insert
        } else if str_eq(s, "ElementDamage") {
            AttackType::ElementDamage
        } else if str_eq(s, "Servant") {
            AttackType::Servant
        } else if str_eq(s, "TrueDamage") {
            AttackType::TrueDamage
        } else if str_eq(s, "ElationDamage") {
            AttackType::ElationDamage
        } else if str_eq(s, "Assist") {
            AttackType::Assist
        } else {
            AttackType::Unknown
        }
    }

    /// The place of this attack type in the game's order of attack types.
    pub fn rank(&self) -> (r: u32)
        ensures
            r == attack_type_rank(*self),
    {
        match self {
            AttackType::Unknown => 0,
            AttackType::Normal => 1,
            AttackType::BPSkill => 2,
            AttackType::Ultra => 3,
            AttackType::QTE => 4,
            AttackType::DOT => 5,
            AttackType::Pursued => 6,
            AttackType::Maze => 7,
            AttackType::MazeNormal => 8,
            AttackType::Insert => 9,
            AttackType::ElementDamage => 10,
            AttackType::Servant => 11,
            AttackType::TrueDamage => 12,
            AttackType::ElationDamage => 13,
            AttackType::Assist => 14,
        }
    }

    /// The attack type at place `r` of the game's order.
    pub fn from_rank(r: u32) -> (t: AttackType)
        requires
            r < ATTACK_TYPE_COUNT,
        ensures
            t == attack_type_of_rank(r),
            attack_type_rank(t) == r,
    {
        if r == 0 {
            AttackType::Unknown
        } else if r == 1 {
            AttackType::Normal
        } else if r == 2 {
            AttackType::BPSkill
        } else if r == 3 {
            AttackType::Ultra
        } else if r == 4 {
            AttackType::QTE
        } else if r == 5 {
            AttackType::DOT
        } else if r == 6 {
            AttackType::Pursued
        } else if r == 7 {
            AttackType::Maze
        } else if r == 8 {
            AttackType::MazeNormal
        } else if r == 9 {
            AttackType::Insert
        } else if r == 10 {
            AttackType::ElementDamage
        } else if r == 11 {
            AttackType::Servant
        } else if r == 12 {
            AttackType::TrueDamage
        } else if r == 13 {
            AttackType::ElationDamage
        } else {
            AttackType::Assist
        }
    }

    /// The member name of this attack type.
    pub fn name(&self) -> (s: String)
        ensures
            s@ == attack_type_name(*self),
    {
        let lit = match self {
            AttackType::Unknown => "Unknown",
            AttackType::Normal => "Normal",
            AttackType::BPSkill => "BPSkill",
            AttackType::Ultra => "Ultra",
            AttackType::QTE => "QTE",
            AttackType::DOT => "DOT",
            AttackType::Pursued => "Pursued",
            AttackType::Maze => "Maze",
            AttackType::MazeNormal => "MazeNormal",
            AttackType::Insert => "Insert",
            AttackType::ElementDamage => "ElementDamage",
            AttackType::Servant => "Servant",
            AttackType::TrueDamage => "TrueDamage",
            AttackType::ElationDamage => "ElationDamage",
            AttackType::Assist => "Assist",
        };
        String::from_str(lit)
    }
}

/// The player-facing label of an attack type ("Basic", "Skill", "Follow-Up", ...);
/// a type without a label of its own is shown by its member name.
pub fn display_damage_type(attack_type: &AttackType) -> (s: String)
    ensures
        s@ == damage_type_label(*attack_type),
{
    let lit = match attack_type {
        AttackType::Normal => "Basic",
        AttackType::BPSkill => "Skill",
        AttackType::Ultra => "Ultimate",
        AttackType::QTE => "QTE",
        AttackType::DOT => "DoT",
        AttackType::Pursued => "Additional",
        AttackType::Maze | AttackType::MazeNormal => "Technique",
        AttackType::Insert => "Follow-Up",
        AttackType::ElementDamage => "Break",
        AttackType::Servant => "Servant",
        AttackType::TrueDamage => "True",
        AttackType::ElationDamage => "Elation",
        AttackType::Assist => "Assist",
        AttackType::Unknown => {
            return attack_type.name();
        },
    };
    String::from_str(lit)
}

} // verus!
