use vstd::prelude::*;

verus! {

/// A named monster with its health.
pub struct Monster {
    pub name: String,
    pub health: u16,
}

/// The kinds of monster.
#[derive(Clone, Copy, Debug, PartialEq, Eq, Structural)]
pub enum MonsterLibrary {
    VoidCreature,
    Abomination,
    GiantBug,
}

/// The kind a monster belongs to.
#[derive(Clone, Copy, Debug, PartialEq, Eq, Structural)]
pub struct MonsterType {
    pub monster_type: MonsterLibrary,
}

/// The monster `m` has the given name, health and kind.
pub open spec fn is_monster(
    m: (Monster, MonsterType),
    name: Seq<char>,
    health: u16,
    kind: MonsterLibrary,
) -> bool {
    m.0.name@ == name && m.0.health == health && m.1.monster_type == kind
}

/// The starting roster: Xyor'dox, Ghlorm and Destroth, in that order.
pub fn spawn_monsters() -> (r: Vec<(Monster, MonsterType)>)
    ensures
        r@.len() == 3,
        is_monster(r@[0], "Xyor'dox"@, 10_000, MonsterLibrary::VoidCreature),
        is_monster(r@[1], "Ghlorm"@, 5_000, MonsterLibrary::GiantBug),
        is_monster(r@[2], "Destroth"@, 4_444, MonsterLibrary::Abomination),
{
    let mut r: Vec<(Monster, MonsterType)> = Vec::new();
    r.push(
        (
            Monster { name: "Xyor'dox".to_owned(), health: 10_000 },
            MonsterType { monster_type: MonsterLibrary::VoidCreature },
        ),
    );
    r.push(
        (
            Monster { name: "Ghlorm".to_owned(), health: 5_000 },
            MonsterType { monster_type: MonsterLibrary::GiantBug },
        ),
    );
    r.push(
        (
            Monster { name: "Destroth".to_owned(), health: 4_444 },
            MonsterType { monster_type: MonsterLibrary::Abomination },
        ),
    );
    r
}

} // verus!
