use vstd::prelude::*;

verus! {

/// The kinds of saved hero-group snapshot, each with its wire id.
#[derive(Debug, Clone, Copy, PartialEq, Eq)]
pub enum HeroGroupSnapshotType {
    Common,
    Resources,
    Season,
    Season123,
    Season123Retail,
    Season166Base,
    Season166Train,
    TowerPermanentAndLimit,
    TowerBoss,
    Act183Normal,
    Act183Boss,
    Shelter,
    Survival,
    FiveHero,
    TowerComposeNormal,
    TowerComposeBoss,
    Abyss,
}

/// The wire id of each snapshot type.
pub open spec fn snapshot_type_id(t: HeroGroupSnapshotType) -> i32 {
    match t {
        HeroGroupSnapshotType::Common => 2,
        HeroGroupSnapshotType::Resources => 3,
        HeroGroupSnapshotType::Season => 5,
        HeroGroupSnapshotType::Season123 => 6,
        HeroGroupSnapshotType::Season123Retail => 7,
        HeroGroupSnapshotType::Season166Base => 8,
        HeroGroupSnapshotType::Season166Train => 9,
        HeroGroupSnapshotType::TowerPermanentAndLimit => 10,
        HeroGroupSnapshotType::TowerBoss => 11,
        HeroGroupSnapshotType::Act183Normal => 12,
        HeroGroupSnapshotType::Act183Boss => 13,
        HeroGroupSnapshotType::Shelter => 14,
        HeroGroupSnapshotType::Survival => 15,
        HeroGroupSnapshotType::FiveHero => 16,
        HeroGroupSnapshotType::TowerComposeNormal => 17,
        HeroGroupSnapshotType::TowerComposeBoss => 18,
        HeroGroupSnapshotType::Abyss => 19,
    }
}

/// The ids of all snapshot types, highest first: the order of the snapshot catalog.
pub open spec fn all_descending_ids() -> Seq<i32> {
    seq![19i32, 18, 17, 16, 15, 14, 13, 12, 11, 10, 9, 8, 7, 6, 5, 3, 2]
}

/// The snapshot type whose wire id is `id`, if any.
pub open spec fn snapshot_type_of(id: i32) -> Option<HeroGroupSnapshotType> {
    match id {
        2 => Some(HeroGroupSnapshotType::Common),
        3 => Some(HeroGroupSnapshotType::Resources),
        5 => Some(HeroGroupSnapshotType::Season),
        6 => Some(HeroGroupSnapshotType::Season123),
        7 => Some(HeroGroupSnapshotType::Season123Retail),
        8 => Some(HeroGroupSnapshotType::Season166Base),
        9 => Some(HeroGroupSnapshotType::Season166Train),
        10 => Some(HeroGroupSnapshotType::TowerPermanentAndLimit),
        11 => Some(HeroGroupSnapshotType::TowerBoss),
        12 => Some(HeroGroupSnapshotType::Act183Normal),
        13 => Some(HeroGroupSnapshotType::Act183Boss),
        14 => Some(HeroGroupSnapshotType::Shelter),
        15 => Some(HeroGroupSnapshotType::Survival),
        16 => Some(HeroGroupSnapshotType::FiveHero),
        17 => Some(HeroGroupSnapshotType::TowerComposeNormal),
        18 => Some(HeroGroupSnapshotType::TowerComposeBoss),
        19 => Some(HeroGroupSnapshotType::Abyss),
        _ => None,
    }
}

impl HeroGroupSnapshotType {
    pub fn id(self) -> (res: i32)
        ensures
            res == snapshot_type_id(self),
    {
        match self {
            HeroGroupSnapshotType::Common => 2,
            HeroGroupSnapshotType::Resources => 3,
            HeroGroupSnapshotType::Season => 5,
            HeroGroupSnapshotType::Season123 => 6,
            HeroGroupSnapshotType::Season123Retail => 7,
            HeroGroupSnapshotType::Season166Base => 8,
            HeroGroupSnapshotType::Season166Train => 9,
            HeroGroupSnapshotType::TowerPermanentAndLimit => 10,
            HeroGroupSnapshotType::TowerBoss => 11,
            HeroGroupSnapshotType::Act183Normal => 12,
            HeroGroupSnapshotType::Act183Boss => 13,
            HeroGroupSnapshotType::Shelter => 14,
            HeroGroupSnapshotType::Survival => 15,
            HeroGroupSnapshotType::FiveHero => 16,
            HeroGroupSnapshotType::TowerComposeNormal => 17,
            HeroGroupSnapshotType::TowerComposeBoss => 18,
            HeroGroupSnapshotType::Abyss => 19,
        }
    }

    /// The snapshot type with wire id `id`, if there is one.
    pub fn from_id(id: i32) -> (res: Option<Self>)
        ensures
            res == snapshot_type_of(id),
    {
        match id {
            2 => Some(HeroGroupSnapshotType::Common),
            3 => Some(HeroGroupSnapshotType::Resources),
            5 => Some(HeroGroupSnapshotType::Season),
            6 => Some(HeroGroupSnapshotType::Season123),
            7 => Some(HeroGroupSnapshotType::Season123Retail),
            8 => Some(HeroGroupSnapshotType::Season166Base),
            9 => Some(HeroGroupSnapshotType::Season166Train),
            10 => Some(HeroGroupSnapshotType::TowerPermanentAndLimit),
            11 => Some(HeroGroupSnapshotType::TowerBoss),
            12 => Some(HeroGroupSnapshotType::Act183Normal),
            13 => Some(HeroGroupSnapshotType::Act183Boss),
            14 => Some(HeroGroupSnapshotType::Shelter),
            15 => Some(HeroGroupSnapshotType::Survival),
            16 => Some(HeroGroupSnapshotType::FiveHero),
            17 => Some(HeroGroupSnapshotType::TowerComposeNormal),
            18 => Some(HeroGroupSnapshotType::TowerComposeBoss),
            19 => Some(HeroGroupSnapshotType::Abyss),
            _ => None,
        }
    }

    /// Every snapshot type, by descending id.
    pub fn all_descending() -> (res: Vec<Self>)
        ensures
            res@.len() == 17,
            forall|i: int| 0 <= i < 17 ==> snapshot_type_id(#[trigger] res@[i]) == all_descending_ids()[i],
    {
        vec![
            HeroGroupSnapshotType::Abyss,
            HeroGroupSnapshotType::TowerComposeBoss,
            HeroGroupSnapshotType::TowerComposeNormal,
            HeroGroupSnapshotType::FiveHero,
            HeroGroupSnapshotType::Survival,
            HeroGroupSnapshotType::Shelter,
            HeroGroupSnapshotType::Act183Boss,
            HeroGroupSnapshotType::Act183Normal,
            HeroGroupSnapshotType::TowerBoss,
            HeroGroupSnapshotType::TowerPermanentAndLimit,
            HeroGroupSnapshotType::Season166Train,
            HeroGroupSnapshotType::Season166Base,
            HeroGroupSnapshotType::Season123Retail,
            HeroGroupSnapshotType::Season123,
            HeroGroupSnapshotType::Season,
            HeroGroupSnapshotType::Resources,
            HeroGroupSnapshotType::Common,
        ]
    }
}

/// Ids and snapshot types correspond one to one: a type's id reads back as that
/// type, and an id that reads back as a type is that type's id.
pub proof fn law_snapshot_id_round_trip(t: HeroGroupSnapshotType, id: i32)
    ensures
        snapshot_type_of(snapshot_type_id(t)) == Some(t),
        snapshot_type_of(id) == Some(t) ==> snapshot_type_id(t) == id,
        snapshot_type_of(id) is Some <==> all_descending_ids().contains(id),
{
    assert(all_descending_ids()[16] == 2);
    assert(all_descending_ids()[15] == 3);
    assert(all_descending_ids()[14] == 5);
    assert(all_descending_ids()[13] == 6);
    assert(all_descending_ids()[12] == 7);
    assert(all_descending_ids()[11] == 8);
    assert(all_descending_ids()[10] == 9);
    assert(all_descending_ids()[9] == 10);
    assert(all_descending_ids()[8] == 11);
    assert(all_descending_ids()[7] == 12);
    assert(all_descending_ids()[6] == 13);
    assert(all_descending_ids()[5] == 14);
    assert(all_descending_ids()[4] == 15);
    assert(all_descending_ids()[3] == 16);
    assert(all_descending_ids()[2] == 17);
    assert(all_descending_ids()[1] == 18);
    assert(all_descending_ids()[0] == 19);
}

} // verus!
