use vstd::prelude::*;

use crate::attack::AttackType;

verus! {

/// The colours characters are drawn in, by lineup position, as (red, green, blue).
pub open spec fn character_palette() -> Seq<(u8, u8, u8)> {
    seq![
        (255u8, 99u8, 132u8),
        (54u8, 162u8, 235u8),
        (255u8, 206u8, 86u8),
        (75u8, 192u8, 192u8),
        (153u8, 102u8, 255u8),
        (255u8, 159u8, 64u8),
        (231u8, 233u8, 237u8),
        (102u8, 255u8, 102u8),
    ]
}

/// The colour of the character at lineup position `index`; the palette repeats.
pub fn get_character_color(index: usize) -> (r: (u8, u8, u8))
    ensures
        r == character_palette()[(index % 8) as int],
{
    let colors: [(u8, u8, u8); 8] = [
        (255, 99, 132),
        (54, 162, 235),
        (255, 206, 86),
        (75, 192, 192),
        (153, 102, 255),
        (255, 159, 64),
        (231, 233, 237),
        (102, 255, 102),
    ];
    proof {
        assert(colors@ =~= character_palette());
    }
    colors[index % 8]
}

/// The colour a damage type is drawn in, as (red, green, blue).
pub open spec fn damage_category_rgb(t: AttackType) -> (u8, u8, u8) {
    match t {
        AttackType::Normal => (93, 156, 236),
        AttackType::BPSkill => (72, 201, 176),
        AttackType::Ultra => (241, 196, 15),
        AttackType::QTE => (155, 89, 182),
        AttackType::DOT => (231, 76, 60),
        AttackType::Pursued => (230, 126, 34),
        AttackType::Maze | AttackType::MazeNormal => (52, 152, 219),
        AttackType::Insert => (46, 204, 113),
        AttackType::ElementDamage => (26, 188, 156),
        AttackType::Servant => (149, 165, 166),
        AttackType::TrueDamage => (127, 140, 141),
        AttackType::ElationDamage => (255, 105, 180),
        AttackType::Assist => (241, 148, 138),
        AttackType::Unknown => (189, 195, 199),
    }
}

/// The colour a damage type is drawn in.
pub fn get_damage_category_color(category: &AttackType) -> (r: (u8, u8, u8))
    ensures
        r == damage_category_rgb(*category),
{
    match category {
        AttackType::Normal => (93, 156, 236),
        AttackType::BPSkill => (72, 201, 176),
        AttackType::Ultra => (241, 196, 15),
        AttackType::QTE => (155, 89, 182),
        AttackType::DOT => (231, 76, 60),
        AttackType::Pursued => (230, 126, 34),
        AttackType::Maze | AttackType::MazeNormal => (52, 152, 219),
        AttackType::Insert => (46, 204, 113),
        AttackType::ElementDamage => (26, 188, 156),
        AttackType::Servant => (149, 165, 166),
        AttackType::TrueDamage => (127, 140, 141),
        AttackType::ElationDamage => (255, 105, 180),
        AttackType::Assist => (241, 148, 138),
        AttackType::Unknown => (189, 195, 199),
    }
}

} // verus!
