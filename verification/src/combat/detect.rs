//! Who touches whom this frame: the choices made once the grid has offered
//! the nearby candidates and their overlap with the shooter or the player
//! is known.
use vstd::prelude::*;

use super::hit_list::HitList;
use super::EntityId;

verus! {

/// Cells searched around a bullet for asteroids.
pub const R_BULLET_ENEMY: i32 = 2;

/// Cells searched around the player for asteroids.
pub const R_PLAYER_ENEMY: i32 = 2;

/// Cells searched around the player for enemy bullets.
pub const R_PLAYER_BULLET: i32 = 2;

/// Something stored near the point being checked, in scan order, and whether
/// its box overlaps the box being checked.
#[derive(Clone, Copy, Debug, PartialEq, Eq, Structural)]
pub struct Candidate {
    pub entity: EntityId,
    pub overlaps: bool,
}

/// A bullet touches an asteroid.
#[derive(Clone, Copy, Debug, PartialEq, Eq, Structural)]
pub struct BulletEnemyContact {
    pub bullet: EntityId,
    pub enemy: EntityId,
}

/// The player touches an asteroid.
#[derive(Clone, Copy, Debug, PartialEq, Eq, Structural)]
pub struct PlayerEnemyContact {
    pub player: EntityId,
    pub enemy: EntityId,
}

/// The player touches an enemy bullet.
#[derive(Clone, Copy, Debug, PartialEq, Eq, Structural)]
pub struct PlayerBulletContact {
    pub player: EntityId,
    pub bullet: EntityId,
}

/// The first candidate, in scan order, that overlaps and is not among
/// `skipped`.
pub open spec fn first_target(candidates: Seq<Candidate>, skipped: Seq<EntityId>) -> Option<EntityId>
    decreases candidates.len(),
{
    if candidates.len() == 0 {
        None
    } else if candidates[0].overlaps && !skipped.contains(candidates[0].entity) {
        Some(candidates[0].entity)
    } else {
        first_target(candidates.drop_first(), skipped)
    }
}

/// Every overlapping candidate, in scan order.
pub open spec fn overlapping(candidates: Seq<Candidate>) -> Seq<EntityId>
    decreases candidates.len(),
{
    if candidates.len() == 0 {
        Seq::empty()
    } else {
        overlapping(candidates.drop_last()) + if candidates.last().overlaps {
            seq![candidates.last().entity]
        } else {
            Seq::empty()
        }
    }
}

/// What a bullet's hit list says to skip.
pub open spec fn skipped_by(hit_list: Option<HitList>) -> Seq<EntityId> {
    match hit_list {
        Some(h) => h@,
        None => Seq::empty(),
    }
}

fn first_unskipped_overlap(candidates: &Vec<Candidate>, hit_list: Option<&HitList>) -> (target:
    Option<EntityId>)
    ensures
        target == first_target(
            candidates@,
            skipped_by(
                match hit_list {
                    Some(h) => Some(*h),
                    None => None,
                },
            ),
        ),
{
    let ghost skipped = skipped_by(
        match hit_list {
            Some(h) => Some(*h),
            None => None,
        },
    );
    let mut i: usize = 0;
    assert(candidates@.skip(0) =~= candidates@);
    while i < candidates.len()
        invariant
            0 <= i <= candidates@.len(),
            skipped == skipped_by(
                match hit_list {
                    Some(h) => Some(*h),
                    None => None,
                },
            ),
            first_target(candidates@, skipped) == first_target(candidates@.skip(i as int), skipped),
        decreases candidates@.len() - i,
    {
        let c = candidates[i];
        let already_hit = match hit_list {
            Some(h) => h.contains(c.entity),
            None => false,
        };
        assert(candidates@.skip(i as int)[0] == c);
        assert(already_hit == skipped.contains(c.entity));
        assert(first_target(candidates@.skip(i as int), skipped) == (if c.overlaps && !skipped.contains(
            c.entity,
        ) {
            Some(c.entity)
        } else {
            first_target(candidates@.skip(i as int).drop_first(), skipped)
        }));
        if c.overlaps && !already_hit {
            return Some(c.entity);
        }
        assert(candidates@.skip(i as int).drop_first() =~= candidates@.skip(i + 1));
        i = i + 1;
    }
    assert(candidates@.skip(i as int) =~= Seq::<Candidate>::empty());
    None
}

/// The asteroid a bullet hits this frame: the first nearby asteroid, in
/// scan order, that overlaps the bullet and that the bullet has not hit
/// before.
pub fn bullet_enemy_contact(
    bullet: EntityId,
    candidates: &Vec<Candidate>,
    hit_list: Option<&HitList>,
) -> (contact: Option<BulletEnemyContact>)
    ensures
        contact == match first_target(
            candidates@,
            skipped_by(
                match hit_list {
                    Some(h) => Some(*h),
                    None => None,
                },
            ),
        ) {
            Some(enemy) => Some(BulletEnemyContact { bullet, enemy }),
            None => None,
        },
{
    match first_unskipped_overlap(candidates, hit_list) {
        Some(enemy) => Some(BulletEnemyContact { bullet, enemy }),
        None => None,
    }
}

fn all_overlapping(candidates: &Vec<Candidate>) -> (found: Vec<EntityId>)
    ensures
        found@ == overlapping(candidates@),
{
    let mut found: Vec<EntityId> = Vec::new();
    let mut i: usize = 0;
    while i < candidates.len()
        invariant
            0 <= i <= candidates@.len(),
            found@ == overlapping(candidates@.take(i as int)),
        decreases candidates@.len() - i,
    {
        let c = candidates[i];
        assert(candidates@.take(i + 1).drop_last() =~= candidates@.take(i as int));
        assert(candidates@.take(i + 1).last() == c);
        if c.overlaps {
            found.push(c.entity);
        }
        assert(found@ =~= overlapping(candidates@.take(i + 1)));
        i = i + 1;
    }
    assert(candidates@.take(candidates@.len() as int) =~= candidates@);
    found
}

/// What the player touches this frame.
#[derive(Debug)]
pub struct PlayerContacts {
    pub enemies: Vec<PlayerEnemyContact>,
    pub bullets: Vec<PlayerBulletContact>,
}

pub open spec fn enemy_contacts_for(player: EntityId, enemies: Seq<EntityId>) -> Seq<PlayerEnemyContact> {
    enemies.map_values(|e: EntityId| PlayerEnemyContact { player, enemy: e })
}

pub open spec fn bullet_contacts_for(player: EntityId, bullets: Seq<EntityId>) -> Seq<PlayerBulletContact> {
    bullets.map_values(|b: EntityId| PlayerBulletContact { player, bullet: b })
}

/// The player's contacts: an invincible player reports every overlapping
/// asteroid and every overlapping bullet; otherwise only the first
/// overlapping asteroid counts, or failing that the first overlapping
/// bullet.
pub fn player_contacts(
    player: EntityId,
    invincible: bool,
    enemy_candidates: &Vec<Candidate>,
    bullet_candidates: &Vec<Candidate>,
) -> (contacts: PlayerContacts)
    ensures
        invincible ==> contacts.enemies@ == enemy_contacts_for(player, overlapping(enemy_candidates@))
            && contacts.bullets@ == bullet_contacts_for(player, overlapping(bullet_candidates@)),
        !invincible ==> match first_target(enemy_candidates@, Seq::empty()) {
            Some(e) => contacts.enemies@ == seq![PlayerEnemyContact { player, enemy: e }]
                && contacts.bullets@.len() == 0,
            None => contacts.enemies@.len() == 0 && match first_target(
                bullet_candidates@,
                Seq::empty(),
            ) {
                Some(b) => contacts.bullets@ == seq![PlayerBulletContact { player, bullet: b }],
                None => contacts.bullets@.len() == 0,
            },
        },
{
    let mut enemies: Vec<PlayerEnemyContact> = Vec::new();
    let mut bullets: Vec<PlayerBulletContact> = Vec::new();
    if invincible {
        let hit = all_overlapping(enemy_candidates);
        let mut i: usize = 0;
        while i < hit.len()
            invariant
                0 <= i <= hit@.len(),
                enemies@ == enemy_contacts_for(player, hit@.take(i as int)),
            decreases hit@.len() - i,
        {
            enemies.push(PlayerEnemyContact { player, enemy: hit[i] });
            assert(enemy_contacts_for(player, hit@.take(i + 1)) =~= enemy_contacts_for(
                player,
                hit@.take(i as int),
            ).push(PlayerEnemyContact { player, enemy: hit@[i as int] }));
            i = i + 1;
        }
        assert(hit@.take(hit@.len() as int) =~= hit@);
        let shot = all_overlapping(bullet_candidates);
        let mut j: usize = 0;
        while j < shot.len()
            invariant
                0 <= j <= shot@.len(),
                enemies@ == enemy_contacts_for(player, hit@),
                bullets@ == bullet_contacts_for(player, shot@.take(j as int)),
            decreases shot@.len() - j,
        {
            bullets.push(PlayerBulletContact { player, bullet: shot[j] });
            assert(bullet_contacts_for(player, shot@.take(j + 1)) =~= bullet_contacts_for(
                player,
                shot@.take(j as int),
            ).push(PlayerBulletContact { player, bullet: shot@[j as int] }));
            j = j + 1;
        }
        assert(shot@.take(shot@.len() as int) =~= shot@);
    } else {
        match first_unskipped_overlap(enemy_candidates, None) {
            Some(e) => {
                enemies.push(PlayerEnemyContact { player, enemy: e });
            },
            None => {
                match first_unskipped_overlap(bullet_candidates, None) {
                    Some(b) => {
                        bullets.push(PlayerBulletContact { player, bullet: b });
                    },
                    None => {},
                }
            },
        }
        assert(enemies@ =~= match first_target(enemy_candidates@, Seq::empty()) {
            Some(e) => seq![PlayerEnemyContact { player, enemy: e }],
            None => Seq::empty(),
        });
    }
    PlayerContacts { enemies, bullets }
}

/// A bullet hits at most one asteroid per frame, and never one it has hit
/// before: the chosen asteroid overlaps the bullet and is not on its list.
pub proof fn lemma_bullet_target_is_fresh_overlap(candidates: Seq<Candidate>, skipped: Seq<EntityId>)
    ensures
        first_target(candidates, skipped) matches Some(e) ==> !skipped.contains(e) && exists|i: int|
            0 <= i < candidates.len() && candidates[i].entity == e && candidates[i].overlaps,
        first_target(candidates, skipped) is None ==> forall|i: int|
            0 <= i < candidates.len() && candidates[i].overlaps ==> skipped.contains(
                candidates[i].entity,
            ),
    decreases candidates.len(),
{
    if candidates.len() > 0 {
        lemma_bullet_target_is_fresh_overlap(candidates.drop_first(), skipped);
        if first_target(candidates, skipped) is Some && !(candidates[0].overlaps && !skipped.contains(
            candidates[0].entity,
        )) {
            let e = first_target(candidates, skipped).unwrap();
            let i = choose|i: int|
                0 <= i < candidates.drop_first().len() && candidates.drop_first()[i].entity == e
                    && candidates.drop_first()[i].overlaps;
            assert(candidates[i + 1] == candidates.drop_first()[i]);
        }
        if first_target(candidates, skipped) is None {
            assert forall|i: int|
                0 <= i < candidates.len() && candidates[i].overlaps implies skipped.contains(
                candidates[i].entity,
            ) by {
                if i > 0 {
                    assert(candidates.drop_first()[i - 1] == candidates[i]);
                }
            }
        }
    }
}

} // verus!
