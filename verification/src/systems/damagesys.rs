//! Damage: an entity that deals damage hurts every entity with health whose hurt box
//! its damage box crosses on the way to where it is next frame.
//!
//! The damage box is swept along the velocity: each of its four corners draws a line
//! from where it is to where it is next frame, and the damage counts as a hit if one of
//! the four lines crosses the hurt box. So a fast projectile cannot jump over a thin
//! target. Whether a line crosses a rectangle is decided outside this library: the
//! library says which lines to test against which rectangle, and takes the answers.

use crate::entities::entity_components::Damage;
use crate::entities::entity_components::Health;
use crate::entities::entity_components::Position;
use crate::entities::entity_components::Velocity;
use crate::geometry::Point;
use crate::geometry::Rect;
use crate::world::CommandBuffer;
use crate::world::Components;
use crate::world::Entity;
use crate::world::World;
use vstd::prelude::*;

verus! {

pub struct DamageSys;

/// The hurt box of an entity: of the width and height of `hurt_box`, around the
/// entity's position.
pub open spec fn hurt_box_around(health: Health, position: Position) -> Rect {
    Rect::centered(
        position.point,
        health.hurt_box.width() as int,
        health.hurt_box.height() as int,
    )
}

/// The damage box of an entity when it is at `point`.
pub open spec fn damage_box_around(damage: Damage, point: Point) -> Rect {
    Rect::centered(point, damage.dmg_box.width() as int, damage.dmg_box.height() as int)
}

/// The four lines that the corners of the damage box draw in one frame, each from the
/// corner as it is to the corner as it is after the entity has moved by its velocity:
/// bottom left, bottom right, top left, top right.
pub open spec fn swept_lines(damage: Damage, position: Position, velocity: Velocity) -> Seq<
    (Point, Point),
> {
    let now = damage_box_around(damage, position.point);
    let next = damage_box_around(
        damage,
        position.point.shifted(velocity.axes().0 as int, velocity.axes().1 as int),
    );
    seq![
        (now.bottom_left(), next.bottom_left()),
        (now.bottom_right(), next.bottom_right()),
        (now.top_left(), next.top_left()),
        (now.top_right(), next.top_right()),
    ]
}

/// Whether the damage is a hit, given for each swept line whether it crosses the hurt
/// box: one crossing is enough.
pub open spec fn struck(crossings: Seq<bool>) -> bool {
    exists|k: int| 0 <= k < crossings.len() && crossings[k]
}

/// The hit points left of `hp` after a hit of `dmg`: never less than none.
pub open spec fn reduced(hp: u32, dmg: u32) -> u32 {
    if dmg >= hp {
        0
    } else {
        (hp - dmg) as u32
    }
}

/// The health after a hit.
pub open spec fn wounded(health: Health, damage: Damage) -> Health {
    Health { hp: reduced(health.hp, damage.dmg), hurt_box: health.hurt_box }
}

/// Whether the entity can be hurt: it has health and a position.
pub open spec fn bears(e: Entity) -> bool {
    e.components.health is Some && e.components.position is Some
}

/// Whether the entity can hurt: it has damage, a velocity and a position.
pub open spec fn deals(e: Entity) -> bool {
    e.components.damage is Some && e.components.velocity is Some && e.components.position is Some
}

/// The answer that the table `crossed` holds for the entity at place `i` as the
/// target and the entity at place `j` as the source. What the table lacks is no
/// crossing.
pub open spec fn crossing(crossed: Seq<Seq<bool>>, i: int, j: int) -> bool {
    0 <= i < crossed.len() && 0 <= j < crossed[i].len() && crossed[i][j]
}

/// Whether the entity at place `j` hits the entity at place `i` in this pass.
pub open spec fn hits(entities: Seq<Entity>, crossed: Seq<Seq<bool>>, i: int, j: int) -> bool {
    &&& 0 <= i < entities.len()
    &&& 0 <= j < entities.len()
    &&& bears(entities[i])
    &&& deals(entities[j])
    &&& crossing(crossed, i, j)
}

/// What has to be tested for the entity at place `i` as the target and the entity at
/// place `j` as the source: the hurt box of the one and the swept lines of the other.
/// There is nothing to test where the one cannot be hurt or the other cannot hurt.
pub open spec fn probe_of(entities: Seq<Entity>, i: int, j: int) -> Option<
    (Rect, Seq<(Point, Point)>),
> {
    if 0 <= i < entities.len() && 0 <= j < entities.len() && bears(entities[i]) && deals(
        entities[j],
    ) {
        Some(
            (
                hurt_box_around(
                    entities[i].components.health->0,
                    entities[i].components.position->0,
                ),
                swept_lines(
                    entities[j].components.damage->0,
                    entities[j].components.position->0,
                    entities[j].components.velocity->0,
                ),
            ),
        )
    } else {
        None
    }
}

/// The hit points of the entity at place `i` once the entities at the places before
/// `upto` have dealt their damage.
pub open spec fn hp_after(entities: Seq<Entity>, crossed: Seq<Seq<bool>>, i: int, upto: int) -> u32
    decreases upto,
{
    if upto <= 0 {
        entities[i].components.health->0.hp
    } else if hits(entities, crossed, i, upto - 1) {
        reduced(
            hp_after(entities, crossed, i, upto - 1),
            entities[upto - 1].components.damage->0.dmg,
        )
    } else {
        hp_after(entities, crossed, i, upto - 1)
    }
}

/// The entity at place `i` after the damage pass: of an entity that can be hurt the
/// hit points change, and nothing else.
pub open spec fn damaged(entities: Seq<Entity>, crossed: Seq<Seq<bool>>, i: int) -> Entity {
    if bears(entities[i]) {
        Entity {
            id: entities[i].id,
            components: Components {
                health: Some(
                    Health {
                        hp: hp_after(entities, crossed, i, entities.len() as int),
                        hurt_box: entities[i].components.health->0.hurt_box,
                    },
                ),
                ..entities[i].components
            },
        }
    } else {
        entities[i]
    }
}

/// The entities after one damage pass.
pub open spec fn damage_pass(entities: Seq<Entity>, crossed: Seq<Seq<bool>>) -> Seq<Entity> {
    Seq::new(entities.len(), |i: int| damaged(entities, crossed, i))
}

/// The entities used up on the entity at place `i`: the identities of the sources at
/// the places before `upto` that hit it and are good for one hit only.
pub open spec fn used_up_on(
    entities: Seq<Entity>,
    crossed: Seq<Seq<bool>>,
    i: int,
    upto: int,
) -> Set<u32> {
    Set::new(
        |id: u32|
            exists|j: int|
                0 <= j < upto && #[trigger] hits(entities, crossed, i, j)
                    && entities[j].components.single_damage is Some && entities[j].id == id,
    )
}

/// The identity of the entity at place `i` if the pass leaves it without hit points,
/// and nothing otherwise.
pub open spec fn felled(entities: Seq<Entity>, crossed: Seq<Seq<bool>>, i: int) -> Set<u32> {
    if bears(entities[i]) && hp_after(entities, crossed, i, entities.len() as int) == 0 {
        set![entities[i].id]
    } else {
        Set::empty()
    }
}

/// The identities that the pass queues for deletion on account of the targets at the
/// places before `rows`.
pub open spec fn deletions_upto(entities: Seq<Entity>, crossed: Seq<Seq<bool>>, rows: int) -> Set<
    u32,
>
    decreases rows,
{
    if rows <= 0 {
        Set::empty()
    } else {
        deletions_upto(entities, crossed, rows - 1).union(
            used_up_on(entities, crossed, rows - 1, entities.len() as int),
        ).union(felled(entities, crossed, rows - 1))
    }
}

/// The identities that one damage pass queues for deletion: every source that hits a
/// target and is good for one hit only, and every target that is left without hit
/// points.
pub open spec fn damage_deletions(entities: Seq<Entity>, crossed: Seq<Seq<bool>>) -> Set<u32> {
    deletions_upto(entities, crossed, entities.len() as int)
}

/// What is queued on account of one target is queued by the pass.
proof fn lemma_deletions_grow(entities: Seq<Entity>, crossed: Seq<Seq<bool>>, rows: int, i: int)
    requires
        0 <= i < rows,
    ensures
        used_up_on(entities, crossed, i, entities.len() as int).subset_of(
            deletions_upto(entities, crossed, rows),
        ),
        felled(entities, crossed, i).subset_of(deletions_upto(entities, crossed, rows)),
    decreases rows,
{
    if i < rows - 1 {
        lemma_deletions_grow(entities, crossed, rows - 1, i);
    }
}

/// What the pass queues is queued on account of some target.
proof fn lemma_deletions_source(
    entities: Seq<Entity>,
    crossed: Seq<Seq<bool>>,
    rows: int,
    id: u32,
) -> (i: int)
    requires
        deletions_upto(entities, crossed, rows).contains(id),
    ensures
        0 <= i < rows,
        used_up_on(entities, crossed, i, entities.len() as int).contains(id) || felled(
            entities,
            crossed,
            i,
        ).contains(id),
    decreases rows,
{
    if rows <= 0 {
        0
    } else if deletions_upto(entities, crossed, rows - 1).contains(id) {
        lemma_deletions_source(entities, crossed, rows - 1, id)
    } else {
        rows - 1
    }
}

/// A source that hits a target and is good for one hit only is queued for deletion.
pub proof fn lemma_hit_uses_up(entities: Seq<Entity>, crossed: Seq<Seq<bool>>, i: int, j: int)
    requires
        hits(entities, crossed, i, j),
        entities[j].components.single_damage is Some,
    ensures
        damage_deletions(entities, crossed).contains(entities[j].id),
{
    let n = entities.len() as int;
    lemma_deletions_grow(entities, crossed, n, i);
    assert(used_up_on(entities, crossed, i, n).contains(entities[j].id));
}

/// A target that the pass leaves without hit points is queued for deletion in the
/// same pass.
pub proof fn lemma_no_health_left(entities: Seq<Entity>, crossed: Seq<Seq<bool>>, i: int)
    requires
        0 <= i < entities.len(),
        bears(entities[i]),
        damage_pass(entities, crossed)[i].components.health->0.hp == 0,
    ensures
        damage_deletions(entities, crossed).contains(entities[i].id),
{
    let n = entities.len() as int;
    lemma_deletions_grow(entities, crossed, n, i);
    assert(damage_pass(entities, crossed)[i] == damaged(entities, crossed, i));
    assert(felled(entities, crossed, i).contains(entities[i].id));
}

/// The pass queues nothing else: an identity is queued only for a source that hit or
/// for a target without hit points.
pub proof fn lemma_deleted_for_cause(entities: Seq<Entity>, crossed: Seq<Seq<bool>>, id: u32)
    requires
        damage_deletions(entities, crossed).contains(id),
    ensures
        (exists|i: int, j: int| #[trigger]
            hits(entities, crossed, i, j) && entities[j].components.single_damage is Some
                && entities[j].id == id) || (exists|i: int|
            0 <= i < entities.len() && bears(#[trigger] entities[i]) && damage_pass(
                entities,
                crossed,
            )[i].components.health->0.hp == 0 && entities[i].id == id),
{
    let n = entities.len() as int;
    let i = lemma_deletions_source(entities, crossed, n, id);
    assert(damage_pass(entities, crossed)[i] == damaged(entities, crossed, i));
    if used_up_on(entities, crossed, i, n).contains(id) {
        let j = choose|j: int|
            0 <= j < n && #[trigger] hits(entities, crossed, i, j)
                && entities[j].components.single_damage is Some && entities[j].id == id;
        assert(hits(entities, crossed, i, j) && entities[j].components.single_damage is Some
            && entities[j].id == id);
    } else {
        assert(0 <= i < entities.len() && bears(entities[i]) && damage_pass(
            entities,
            crossed,
        )[i].components.health->0.hp == 0 && entities[i].id == id);
    }
}

/// A target that exactly one source hits loses exactly the damage of that source, or
/// all its hit points if it has fewer.
pub proof fn lemma_one_hit(entities: Seq<Entity>, crossed: Seq<Seq<bool>>, i: int, j: int)
    requires
        hits(entities, crossed, i, j),
        forall|k: int| 0 <= k < entities.len() && k != j ==> !hits(entities, crossed, i, k),
    ensures
        damage_pass(entities, crossed)[i].components.health->0.hp == reduced(
            entities[i].components.health->0.hp,
            entities[j].components.damage->0.dmg,
        ),
        entities[j].components.damage->0.dmg <= entities[i].components.health->0.hp
            ==> damage_pass(entities, crossed)[i].components.health->0.hp
            == entities[i].components.health->0.hp - entities[j].components.damage->0.dmg,
{
    lemma_one_hit_upto(entities, crossed, i, j, entities.len() as int);
}

/// Damage, then deletion, within one pass: when a source that is good for one hit only
/// is the one source that hits a target, the source is queued for deletion, the target
/// loses exactly the damage of the source, or all its hit points if it has fewer, and
/// a target left without hit points is queued for deletion too.
pub proof fn lemma_hit_then_delete(entities: Seq<Entity>, crossed: Seq<Seq<bool>>, i: int, j: int)
    requires
        hits(entities, crossed, i, j),
        entities[j].components.single_damage is Some,
        forall|k: int| 0 <= k < entities.len() && k != j ==> !hits(entities, crossed, i, k),
    ensures
        damage_deletions(entities, crossed).contains(entities[j].id),
        damage_pass(entities, crossed)[i].components.health->0.hp == reduced(
            entities[i].components.health->0.hp,
            entities[j].components.damage->0.dmg,
        ),
        entities[j].components.damage->0.dmg >= entities[i].components.health->0.hp
            ==> damage_deletions(entities, crossed).contains(entities[i].id),
{
    lemma_hit_uses_up(entities, crossed, i, j);
    lemma_one_hit(entities, crossed, i, j);
    if entities[j].components.damage->0.dmg >= entities[i].components.health->0.hp {
        lemma_no_health_left(entities, crossed, i);
    }
}

proof fn lemma_one_hit_upto(
    entities: Seq<Entity>,
    crossed: Seq<Seq<bool>>,
    i: int,
    j: int,
    upto: int,
)
    requires
        hits(entities, crossed, i, j),
        forall|k: int| 0 <= k < entities.len() && k != j ==> !hits(entities, crossed, i, k),
        0 <= upto <= entities.len(),
    ensures
        hp_after(entities, crossed, i, upto) == if j < upto {
            reduced(entities[i].components.health->0.hp, entities[j].components.damage->0.dmg)
        } else {
            entities[i].components.health->0.hp
        },
    decreases upto,
{
    if upto > 0 {
        lemma_one_hit_upto(entities, crossed, i, j, upto - 1);
    }
}

/// A target that nothing hits keeps its hit points.
pub proof fn lemma_no_hit(entities: Seq<Entity>, crossed: Seq<Seq<bool>>, i: int, upto: int)
    requires
        0 <= i < entities.len(),
        0 <= upto <= entities.len(),
        forall|k: int| 0 <= k < upto ==> !hits(entities, crossed, i, k),
    ensures
        hp_after(entities, crossed, i, upto) == entities[i].components.health->0.hp,
    decreases upto,
{
    if upto > 0 {
        lemma_no_hit(entities, crossed, i, upto - 1);
    }
}

proof fn lemma_used_up_step(entities: Seq<Entity>, crossed: Seq<Seq<bool>>, i: int, j: int)
    requires
        0 <= j < entities.len(),
    ensures
        used_up_on(entities, crossed, i, j + 1) == if hits(entities, crossed, i, j)
            && entities[j].components.single_damage is Some {
            used_up_on(entities, crossed, i, j).insert(entities[j].id)
        } else {
            used_up_on(entities, crossed, i, j)
        },
{
    let more = used_up_on(entities, crossed, i, j + 1);
    let less = used_up_on(entities, crossed, i, j);
    let adds = hits(entities, crossed, i, j) && entities[j].components.single_damage is Some;
    assert forall|id: u32| less.contains(id) implies more.contains(id) by {
        let c = choose|c: int|
            0 <= c < j && #[trigger] hits(entities, crossed, i, c)
                && entities[c].components.single_damage is Some && entities[c].id == id;
        assert(0 <= c < j + 1 && hits(entities, crossed, i, c));
    }
    assert forall|id: u32| more.contains(id) implies less.contains(id) || (adds && id
        == entities[j].id) by {
        let c = choose|c: int|
            0 <= c < j + 1 && #[trigger] hits(entities, crossed, i, c)
                && entities[c].components.single_damage is Some && entities[c].id == id;
        if c < j {
            assert(0 <= c < j && hits(entities, crossed, i, c));
        }
    }
    if adds {
        assert(0 <= j < j + 1 && hits(entities, crossed, i, j));
        assert(more.contains(entities[j].id));
        assert(more =~= less.insert(entities[j].id));
    } else {
        assert(more =~= less);
    }
}

impl DamageSys {
    /// The hurt box of an entity at `position`.
    pub fn hurt_box(health: &Health, position: &Position) -> (rect: Rect)
        ensures
            rect == hurt_box_around(*health, *position),
    {
        Rect::from_center(position.point, health.hurt_box.width(), health.hurt_box.height())
    }

    /// The four lines to test against a hurt box: see `swept_lines`.
    pub fn sweep(damage: &Damage, position: &Position, velocity: &Velocity) -> (lines: [(
        Point,
        Point,
    ); 4])
        ensures
            lines@ == swept_lines(*damage, *position, *velocity),
    {
        let dmg_box = Rect::from_center(
            position.point,
            damage.dmg_box.width(),
            damage.dmg_box.height(),
        );
        let (dmg_x_off, dmg_y_off) = velocity.unencode_speed();
        let dmg_box_offset = Rect::from_center(
            position.point.offset(dmg_x_off as i32, dmg_y_off as i32),
            damage.dmg_box.width(),
            damage.dmg_box.height(),
        );
        let lines = [
            (dmg_box.bottom_left(), dmg_box_offset.bottom_left()),
            (dmg_box.bottom_right(), dmg_box_offset.bottom_right()),
            (dmg_box.top_left(), dmg_box_offset.top_left()),
            (dmg_box.top_right(), dmg_box_offset.top_right()),
        ];
        assert(lines@ =~= swept_lines(*damage, *position, *velocity));
        lines
    }

    /// What to test for one pair of places in the world, if anything: see `probe_of`.
    /// The answers for all pairs, each put through `is_hit`, make the table that `run`
    /// takes.
    pub fn probe(world: &World, i: usize, j: usize) -> (test: Option<(Rect, [(Point, Point); 4])>)
        ensures
            match test {
                Some((hurt_box, lines)) => probe_of(world@, i as int, j as int) == Some(
                    (hurt_box, lines@),
                ),
                None => probe_of(world@, i as int, j as int) is None,
            },
    {
        if i >= world.len() || j >= world.len() {
            return None;
        }
        let target = world.entity(i);
        let source = world.entity(j);
        match (target.components.health, target.components.position) {
            (Some(health), Some(place)) => match (
                source.components.damage,
                source.components.position,
                source.components.velocity,
            ) {
                (Some(damage), Some(position), Some(velocity)) => Some(
                    (Self::hurt_box(&health, &place), Self::sweep(&damage, &position, &velocity)),
                ),
                _ => None,
            },
            _ => None,
        }
    }

    /// Whether the damage is a hit, given the answers for the four swept lines.
    pub fn is_hit(crossings: &[bool; 4]) -> (hit: bool)
        ensures
            hit == struck(crossings@),
    {
        let mut hit = false;
        let mut k: usize = 0;
        while k < 4
            invariant
                k <= 4,
                hit == struck(crossings@.take(k as int)),
            decreases 4 - k,
        {
            proof {
                let before = crossings@.take(k as int);
                let after = crossings@.take(k + 1);
                assert(forall|m: int| 0 <= m < k ==> before[m] == after[m]);
                assert(after[k as int] == crossings@[k as int]);
                if struck(before) {
                    let m = choose|m: int| 0 <= m < before.len() && before[m];
                    assert(after[m]);
                }
                if struck(after) {
                    let m = choose|m: int| 0 <= m < after.len() && after[m];
                    if m < k {
                        assert(before[m]);
                    }
                }
            }
            if crossings[k] {
                hit = true;
            }
            k += 1;
        }
        assert(crossings@.take(4) == crossings@);
        hit
    }

    /// Takes the damage of one hit from the hit points, which never go below none.
    pub fn wound(health: &mut Health, damage: &Damage)
        ensures
            *final(health) == wounded(*old(health), *damage),
    {
        if damage.dmg >= health.hp {
            health.hp = 0;
        } else {
            health.hp -= damage.dmg;
        }
    }

    /// Whether no hit points are left.
    pub fn is_spent(health: &Health) -> (spent: bool)
        ensures
            spent == (health.hp == 0),
    {
        health.hp == 0
    }

    fn crossed_at(crossed: &Vec<Vec<bool>>, i: usize, j: usize) -> (hit: bool)
        ensures
            hit == crossing(crossed.deep_view(), i as int, j as int),
    {
        if i < crossed.len() {
            assert(crossed.deep_view()[i as int] == crossed@[i as int].deep_view());
            assert(crossed@[i as int].deep_view() =~= crossed@[i as int]@);
            if j < crossed[i].len() {
                crossed[i][j]
            } else {
                false
            }
        } else {
            false
        }
    }

    /// One damage pass over the world. `crossed[i][j]` says whether the damage of the
    /// entity at place `j` is a hit on the entity at place `i`, as the world is before
    /// the pass. Deletions are queued in `buffer`.
    pub fn run(&mut self, world: &mut World, crossed: &Vec<Vec<bool>>, buffer: &mut CommandBuffer)
        ensures
            final(world)@ == damage_pass(old(world)@, crossed.deep_view()),
            final(world).next_id() == old(world).next_id(),
            old(world).ids_in_order() ==> final(world).ids_in_order(),
            final(buffer).deletions() == old(buffer).deletions().union(
                damage_deletions(old(world)@, crossed.deep_view()),
            ),
            final(buffer).creations() == old(buffer).creations(),
    {
        let ghost table = crossed.deep_view();
        let ghost start = old(world)@;
        let n = world.len();
        let mut i: usize = 0;
        while i < n
            invariant
                i <= n,
                n == world@.len(),
                n == start.len(),
                start == old(world)@,
                table == crossed.deep_view(),
                world.next_id() == old(world).next_id(),
                old(world).ids_in_order() ==> world.ids_in_order(),
                forall|m: int| 0 <= m < i ==> #[trigger] world@[m] == damaged(start, table, m),
                forall|m: int| i <= m < n ==> #[trigger] world@[m] == start[m],
                buffer.deletions() == old(buffer).deletions().union(
                    deletions_upto(start, table, i as int),
                ),
                buffer.creations() == old(buffer).creations(),
            decreases n - i,
        {
            let e = world.entity(i);
            let ghost queued = buffer.deletions();
            match (e.components.health, e.components.position) {
                (Some(health), Some(_)) => {
                    let mut health = health;
                    let mut j: usize = 0;
                    while j < n
                        invariant
                            j <= n,
                            i < n,
                            n == world@.len(),
                            n == start.len(),
                            table == crossed.deep_view(),
                            bears(start[i as int]),
                            forall|m: int|
                                0 <= m < i ==> #[trigger] world@[m] == damaged(start, table, m),
                            forall|m: int| i <= m < n ==> #[trigger] world@[m] == start[m],
                            health.hp == hp_after(start, table, i as int, j as int),
                            health.hurt_box == start[i as int].components.health->0.hurt_box,
                            buffer.deletions() == queued.union(
                                used_up_on(start, table, i as int, j as int),
                            ),
                            buffer.creations() == old(buffer).creations(),
                        decreases n - j,
                    {
                        let d = world.entity(j);
                        proof {
                            lemma_used_up_step(start, table, i as int, j as int);
                            assert(d.id == start[j as int].id);
                            assert(d.components.damage == start[j as int].components.damage);
                            assert(deals(d) == deals(start[j as int]));
                        }
                        match (d.components.damage, d.components.velocity, d.components.position) {
                            (Some(damage), Some(_), Some(_)) => {
                                if Self::crossed_at(crossed, i, j) {
                                    Self::wound(&mut health, &damage);
                                    if d.components.single_damage.is_some() {
                                        buffer.delete(d.id);
                                    }
                                }
                            },
                            _ => {},
                        }
                        j += 1;
                        assert(buffer.deletions() =~= queued.union(
                            used_up_on(start, table, i as int, j as int),
                        ));
                    }
                    if Self::is_spent(&health) {
                        buffer.delete(e.id);
                    }
                    let mut components = e.components;
                    components.health = Some(health);
                    world.set_components(i, components);
                    assert(buffer.deletions() =~= old(buffer).deletions().union(
                        deletions_upto(start, table, i + 1),
                    ));
                },
                _ => {
                    assert(used_up_on(start, table, i as int, n as int) =~= Set::<u32>::empty());
                    assert(buffer.deletions() =~= old(buffer).deletions().union(
                        deletions_upto(start, table, i + 1),
                    ));
                },
            }
            i += 1;
        }
        assert(world@ =~= damage_pass(start, table));
    }
}

} // verus!
