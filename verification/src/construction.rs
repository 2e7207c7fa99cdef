//! Building an action space from one validated snapshot.
use crate::action::{ActionError, ControlledUnit, ShopCandidate};
use crate::candidates::{
    build_entity_candidates, build_loot_candidates, build_shop_candidates, entities_match,
    loot_spec, shop_spec,
};
use crate::masks::{build_controlled_masks, ControlledState, SpaceContext};
use crate::passability::{grid_matches, reconstruct_static_passability, StaticPassability};
use crate::points::{build_point_candidates, landmark_of, nearest_landmark, points_ok, points_spec};
use crate::shop::{
    acyclic, buy_requirement, components_known, missing_buy_requirement, sells_twice, shop_fault,
    validate_shop_recipes, BuyRequirement,
};
use crate::space::ActionSpace;
use crate::tracker::{ItemReadiness, StateTracker, HERO_ITEM_SLOTS};
use crate::validation::{
    ability_in_schema, dynamic_fault, inside, item_in_schema, maximum_raw, position_fault,
    unit_fault, units_inside, validate_dynamic_schema, validate_positions,
};
use crate::world::{copy_vec, ItemId, ItemView, ShopEntry, UnitKind, UnitView, Vec2, WorldView};
use vstd::prelude::*;

verus! {

/// Items in filled slots, in slot order.
pub open spec fn filled(slots: Seq<Option<ItemView>>) -> Seq<ItemId>
    decreases slots.len(),
{
    if slots.len() == 0 {
        Seq::empty()
    } else {
        match slots.last() {
            Some(item) => filled(slots.drop_last()).push(item.id),
            None => filled(slots.drop_last()),
        }
    }
}

/// Hero bag of at most nine slots.
pub open spec fn bag_of(hero: Option<UnitView>) -> Seq<Option<ItemView>> {
    match hero {
        Some(unit) => if unit.items@.len() <= HERO_ITEM_SLOTS {
            unit.items@
        } else {
            unit.items@.subrange(0, HERO_ITEM_SLOTS as int)
        },
        None => Seq::empty(),
    }
}

/// Items a purchase can use up: the hero bag, then the stash.
pub open spec fn held_items(tracker: StateTracker, stash: Seq<Option<ItemView>>) -> Seq<ItemId> {
    filled(bag_of(tracker.hero_spec())) + filled(stash)
}

fn push_filled(output: &mut Vec<ItemId>, slots: &Vec<Option<ItemView>>, limit: usize)
    requires
        limit <= slots@.len(),
    ensures
        final(output)@ == old(output)@ + filled(slots@.subrange(0, limit as int)),
{
    let ghost start = output@;
    let mut index: usize = 0;
    while index < limit
        invariant
            index <= limit <= slots@.len(),
            start == old(output)@,
            output@ == start + filled(slots@.subrange(0, index as int)),
        decreases limit - index,
    {
        assert(slots@.subrange(0, index + 1).drop_last() =~= slots@.subrange(0, index as int));
        let ghost before = output@;
        if let Some(item) = slots[index] {
            output.push(item.id);
            assert(output@ =~= start + filled(slots@.subrange(0, index + 1)));
        }
        index += 1;
    }
}

/// Requirements of the first candidates, or the first failure among them.
pub open spec fn requirements_of(
    shop: Seq<ShopEntry>,
    candidates: Seq<ShopCandidate>,
    held: Seq<ItemId>,
) -> Result<Seq<BuyRequirement>, ActionError>
    decreases candidates.len(),
{
    if candidates.len() == 0 {
        Ok(Seq::empty())
    } else {
        match requirements_of(shop, candidates.drop_last(), held) {
            Err(error) => Err(error),
            Ok(before) => match buy_requirement(shop, candidates.last().item, held) {
                Ok(requirement) => Ok(before.push(requirement)),
                Err(error) => Err(error),
            },
        }
    }
}

proof fn lemma_requirements_fail(
    shop: Seq<ShopEntry>,
    candidates: Seq<ShopCandidate>,
    held: Seq<ItemId>,
    count: int,
)
    requires
        0 <= count <= candidates.len(),
        requirements_of(shop, candidates.subrange(0, count), held) is Err,
    ensures
        requirements_of(shop, candidates, held) == requirements_of(
            shop,
            candidates.subrange(0, count),
            held,
        ),
    decreases candidates.len() - count,
{
    if count < candidates.len() {
        assert(candidates.subrange(0, count + 1).drop_last() =~= candidates.subrange(0, count));
        lemma_requirements_fail(shop, candidates, held, count + 1);
    } else {
        assert(candidates.subrange(0, count) =~= candidates);
    }
}

/// What every shop candidate still costs, given the hero bag and the stash.
pub fn build_buy_requirements(
    tracker: &StateTracker,
    candidates: &Vec<ShopCandidate>,
    stash: &Vec<Option<ItemView>>,
) -> (r: Result<Vec<BuyRequirement>, ActionError>)
    requires
        tracker.wf(),
    ensures
        match r {
            Ok(output) => requirements_of(
                tracker.shop@,
                candidates@,
                held_items(*tracker, stash@),
            ) == Ok::<Seq<BuyRequirement>, ActionError>(output@) && output@.len()
                == candidates@.len(),
            Err(error) => requirements_of(
                tracker.shop@,
                candidates@,
                held_items(*tracker, stash@),
            ) == Err::<Seq<BuyRequirement>, ActionError>(error),
        },
{
    let mut held: Vec<ItemId> = Vec::new();
    if let Some(hero) = tracker.hero() {
        let limit: usize = if hero.items.len() <= HERO_ITEM_SLOTS {
            hero.items.len()
        } else {
            HERO_ITEM_SLOTS
        };
        push_filled(&mut held, &hero.items, limit);
        assert(hero.items@.subrange(0, limit as int) =~= bag_of(Some(*hero)));
    }
    assert(held@ =~= filled(bag_of(tracker.hero_spec())));
    push_filled(&mut held, stash, stash.len());
    assert(stash@.subrange(0, stash@.len() as int) =~= stash@);
    let ghost all = held_items(*tracker, stash@);
    assert(held@ =~= all);
    let mut output: Vec<BuyRequirement> = Vec::new();
    let mut index: usize = 0;
    while index < candidates.len()
        invariant
            index <= candidates@.len(),
            held@ == all,
            output@.len() == index,
            all == held_items(*tracker, stash@),
            requirements_of(tracker.shop@, candidates@.subrange(0, index as int), all) == Ok::<
                Seq<BuyRequirement>,
                ActionError,
            >(output@),
        decreases candidates@.len() - index,
    {
        let ghost part = candidates@.subrange(0, index + 1);
        assert(part.drop_last() =~= candidates@.subrange(0, index as int));
        let mut scratch = copy_vec(&held);
        match missing_buy_requirement(&tracker.shop, candidates[index].item, &mut scratch) {
            Ok(requirement) => {
                output.push(requirement);
            },
            Err(error) => {
                proof {
                    lemma_requirements_fail(tracker.shop@, candidates@, all, index + 1);
                }
                return Err(error);
            },
        }
        index += 1;
    }
    assert(candidates@.subrange(0, candidates@.len() as int) =~= candidates@);
    Ok(output)
}

/// Positions of visible allied structures in view order.
pub open spec fn allied_buildings_of(tracker: StateTracker, units: Seq<UnitView>) -> Seq<Vec2>
    decreases units.len(),
{
    if units.len() == 0 {
        Seq::empty()
    } else if units.last().team == tracker.team && units.last().kind.structure() {
        allied_buildings_of(tracker, units.drop_last()).push(units.last().pos)
    } else {
        allied_buildings_of(tracker, units.drop_last())
    }
}

fn allied_building_positions(tracker: &StateTracker, current: &WorldView) -> (r: Vec<Vec2>)
    requires
        units_inside(*tracker, *current),
    ensures
        r@ == allied_buildings_of(*tracker, current.units@),
        forall|i: int| 0 <= i < r@.len() ==> (#[trigger] r@[i]).on_map(),
{
    let ghost units = current.units@;
    let mut output: Vec<Vec2> = Vec::new();
    let mut index: usize = 0;
    while index < current.units.len()
        invariant
            index <= units.len(),
            units == current.units@,
            units_inside(*tracker, *current),
            output@ == allied_buildings_of(*tracker, units.subrange(0, index as int)),
            forall|i: int| 0 <= i < output@.len() ==> (#[trigger] output@[i]).on_map(),
        decreases units.len() - index,
    {
        assert(units.subrange(0, index + 1).drop_last() =~= units.subrange(0, index as int));
        let unit = &current.units[index];
        assert(inside(units[index as int].pos, maximum_raw(tracker.axis())));
        if unit.team == tracker.team && unit.kind.is_structure() {
            output.push(unit.pos);
        }
        index += 1;
    }
    assert(units.subrange(0, units.len() as int) =~= units);
    output
}

/// Whether a controlled state is what a live own body gives.
pub open spec fn state_matches(
    grid: StaticPassability,
    body: Option<UnitView>,
    state: Option<ControlledState>,
) -> bool {
    match body {
        Some(unit) => if unit.alive_spec() {
            &&& state is Some
            &&& state->0.unit.same(unit)
            &&& state->0.underfoot_walkable == grid.standable(unit.pos)
        } else {
            state is None
        },
        None => state is None,
    }
}

fn live_state(grid: &StaticPassability, body: Option<&UnitView>) -> (r: Option<ControlledState>)
    requires
        grid.wf(),
        body matches Some(unit) ==> unit.pos.on_map() && unit_fault(*unit) is None,
    ensures
        state_matches(
            *grid,
            match body {
                Some(unit) => Some(*unit),
                None => None,
            },
            r,
        ),
        r matches Some(state) ==> state.wf(),
{
    let unit = match body {
        Some(unit) => unit,
        None => {
            return None;
        },
    };
    if !unit.is_alive() {
        return None;
    }
    let copy = unit.duplicate();
    proof {
        assert forall|i: int| 0 <= i < copy.abilities@.len() implies ability_in_schema(
            #[trigger] copy.abilities@[i],
        ) by {
            assert(ability_in_schema(unit.abilities@[i]));
        }
        assert forall|i: int| 0 <= i < copy.items@.len() implies item_in_schema(
            #[trigger] copy.items@[i],
        ) by {
            assert(item_in_schema(unit.items@[i]));
        }
    }
    Some(ControlledState { unit: copy, underfoot_walkable: grid.walkable(unit.pos) })
}

/// Nearest own fountain from the own origin.
pub open spec fn fountain_of(tracker: StateTracker, view: WorldView) -> Option<Vec2> {
    match tracker.origin_spec() {
        Some(center) => landmark_of(tracker, view.units@, center, UnitKind::Fountain, true),
        None => None,
    }
}

/// Whether a space holds the candidates and own state of a snapshot.
pub open spec fn context_matches(
    tracker: StateTracker,
    readiness: ItemReadiness,
    grid: StaticPassability,
    context: SpaceContext,
) -> bool {
    let view = tracker.view_spec();
    let center = tracker.origin_spec();
    let player = tracker.player_spec()->0;
    &&& grid_matches(grid, tracker, view)
    &&& context.provenance == tracker.provenance
    &&& context.tick == view.tick
    &&& context.readiness.same(readiness)
    &&& state_matches(grid, tracker.hero_spec(), context.hero)
    &&& state_matches(grid, tracker.courier_spec(), context.courier)
    &&& entities_match(tracker, view, center, context.entities@)
    &&& context.points@ == points_spec(tracker, view, grid, center)
    &&& points_ok(tracker.axis(), context.points@)
    &&& context.loot@ == loot_spec(view.loot@)
    &&& context.shop@ == shop_spec(tracker.shop@)
    &&& player.gold == Some(context.own_gold)
    &&& player.stash is Some
    &&& context.own_stash@ == player.stash->0@
    &&& context.own_fountain == fountain_of(tracker, view)
    &&& context.allied_buildings@ == allied_buildings_of(tracker, view.units@)
    &&& requirements_of(
        tracker.shop@,
        context.shop@,
        held_items(tracker, context.own_stash@),
    ) == Ok::<Seq<BuyRequirement>, ActionError>(context.buy_requirements@)
}

/// Whether the shop's recipes are well formed.
pub open spec fn recipes_ok(shop: Seq<ShopEntry>) -> bool {
    !sells_twice(shop) && components_known(shop) && acyclic(shop)
}

/// Purchases a snapshot allows, or the first that cannot be priced.
pub open spec fn snapshot_requirements(tracker: StateTracker) -> Result<
    Seq<BuyRequirement>,
    ActionError,
> {
    requirements_of(
        tracker.shop@,
        shop_spec(tracker.shop@),
        held_items(tracker, tracker.player_spec()->0.stash->0@),
    )
}

/// Whether a snapshot gives an action space.
pub open spec fn buildable(tracker: StateTracker) -> bool {
    &&& tracker.current is Some
    &&& dynamic_fault(tracker.view_spec().units@, tracker.shop@) is None
    &&& recipes_ok(tracker.shop@)
    &&& position_fault(tracker, tracker.view_spec()) is None
    &&& tracker.static_trees@.len() <= 0x1_0000_0000
    &&& tracker.player_spec() is Some
    &&& tracker.player_spec()->0.gold is Some
    &&& tracker.player_spec()->0.stash is Some
    &&& snapshot_requirements(tracker) is Ok
}

/// Failure of a snapshot that gives no action space: the first check that it breaks.
pub open spec fn build_error(tracker: StateTracker, error: ActionError) -> bool {
    if tracker.current is None {
        error == ActionError::SnapshotRequired
    } else if dynamic_fault(tracker.view_spec().units@, tracker.shop@) is Some {
        error == dynamic_fault(tracker.view_spec().units@, tracker.shop@)->0
    } else if !recipes_ok(tracker.shop@) {
        shop_fault(tracker.shop@) == Some(error)
    } else if position_fault(tracker, tracker.view_spec()) is Some {
        error == position_fault(tracker, tracker.view_spec())->0
    } else if tracker.static_trees@.len() > 0x1_0000_0000 {
        error == ActionError::Arithmetic("tree index")
    } else if tracker.player_spec() is None {
        error == ActionError::SnapshotRequired
    } else if tracker.player_spec()->0.gold is None {
        error == ActionError::InvalidSchema("own gold")
    } else if tracker.player_spec()->0.stash is None {
        error == ActionError::InvalidSchema("own stash")
    } else {
        snapshot_requirements(tracker) == Err::<Seq<BuyRequirement>, ActionError>(error)
    }
}

fn own_resources(tracker: &StateTracker) -> (r: Result<(i32, Vec<Option<ItemView>>), ActionError>)
    requires
        tracker.wf(),
        tracker.current is Some,
    ensures
        match r {
            Ok((gold, stash)) => {
                &&& tracker.player_spec() is Some
                &&& tracker.player_spec()->0.gold == Some(gold)
                &&& tracker.player_spec()->0.stash is Some
                &&& stash@ == tracker.player_spec()->0.stash->0@
                &&& stash@.len() <= 6
            },
            Err(error) => if tracker.player_spec() is None {
                error == ActionError::SnapshotRequired
            } else if tracker.player_spec()->0.gold is None {
                error == ActionError::InvalidSchema("own gold")
            } else {
                tracker.player_spec()->0.stash is None && error == ActionError::InvalidSchema(
                    "own stash",
                )
            },
        },
{
    let player = match tracker.player() {
        Some(player) => player,
        None => {
            return Err(ActionError::SnapshotRequired);
        },
    };
    let gold = match player.gold {
        Some(gold) => gold,
        None => {
            return Err(ActionError::InvalidSchema("own gold"));
        },
    };
    match &player.stash {
        Some(stash) => Ok((gold, copy_vec(stash))),
        None => Err(ActionError::InvalidSchema("own stash")),
    }
}

proof fn lemma_body_valid(tracker: StateTracker, body: Option<UnitView>)
    requires
        tracker.wf(),
        tracker.current is Some,
        units_inside(tracker, tracker.view_spec()),
        forall|i: int|
            0 <= i < tracker.view_spec().units@.len() ==> unit_fault(
                #[trigger] tracker.view_spec().units@[i],
            ) is None,
        body == tracker.hero_spec() || body == tracker.courier_spec(),
    ensures
        body matches Some(unit) ==> unit.pos.on_map() && unit_fault(unit) is None,
{
    let units = tracker.view_spec().units@;
    if body is Some {
        if body == tracker.hero_spec() {
            let i = tracker.own_hero->0 as int;
            assert(inside(units[i].pos, maximum_raw(tracker.axis())));
            assert(unit_fault(units[i]) is None);
        } else {
            let i = tracker.own_courier->0 as int;
            assert(inside(units[i].pos, maximum_raw(tracker.axis())));
            assert(unit_fault(units[i]) is None);
        }
    }
}

impl ActionSpace {
    /// Builds candidates only from the latest validated seat-specific snapshot.
    ///
    /// Without recorded local timers this trusts the wire readiness fields.
    pub fn from_tracker(tracker: &StateTracker) -> (r: Result<Self, ActionError>)
        requires
            tracker.wf(),
        ensures
            r is Ok <==> buildable(*tracker),
            match r {
                Ok(space) => space.wf() && exists|grid: StaticPassability, timers: ItemReadiness|
                    timers.mutes@.len() == 0 && timers.waits@.len() == 0
                        && #[trigger] context_matches(*tracker, timers, grid, space.context),
                Err(error) => build_error(*tracker, error),
            },
    {
        let readiness = ItemReadiness::new();
        let space = Self::from_tracker_with_readiness(tracker, &readiness);
        proof {
            if space is Ok {
                let grid = choose|grid: StaticPassability| #[trigger]
                    context_matches(*tracker, readiness, grid, space->Ok_0.context);
                assert(context_matches(*tracker, readiness, grid, space->Ok_0.context));
            }
        }
        space
    }

    /// Builds candidates and masks with locally tracked item timers applied.
    pub fn from_tracker_with_readiness(tracker: &StateTracker, readiness: &ItemReadiness) -> (r:
        Result<Self, ActionError>)
        requires
            tracker.wf(),
        ensures
            r is Ok <==> buildable(*tracker),
            match r {
                Ok(space) => space.wf() && exists|grid: StaticPassability| #[trigger]
                    context_matches(*tracker, *readiness, grid, space.context),
                Err(error) => build_error(*tracker, error),
            },
    {
        let current = match &tracker.current {
            Some(current) => current,
            None => {
                return Err(ActionError::SnapshotRequired);
            },
        };
        match validate_dynamic_schema(&current.units, &tracker.shop) {
            Ok(()) => {},
            Err(error) => {
                return Err(error);
            },
        }
        match validate_shop_recipes(&tracker.shop) {
            Ok(()) => {},
            Err(error) => {
                return Err(error);
            },
        }
        match validate_positions(tracker, current) {
            Ok(()) => {},
            Err(error) => {
                return Err(error);
            },
        }
        let grid = match reconstruct_static_passability(tracker, current) {
            Ok(grid) => grid,
            Err(error) => {
                return Err(error);
            },
        };
        proof {
            lemma_body_valid(*tracker, tracker.hero_spec());
            lemma_body_valid(*tracker, tracker.courier_spec());
        }
        let center = tracker.own_origin();
        let entities = build_entity_candidates(tracker, current, center);
        let points = build_point_candidates(tracker, current, &grid, center);
        let loot = build_loot_candidates(&current.loot);
        let shop = build_shop_candidates(&tracker.shop);
        let own_fountain = match center {
            Some(position) => nearest_landmark(tracker, current, position, UnitKind::Fountain, true),
            None => None,
        };
        let hero = live_state(&grid, tracker.hero());
        let courier = live_state(&grid, tracker.courier());
        let (own_gold, own_stash) = match own_resources(tracker) {
            Ok(resources) => resources,
            Err(error) => {
                return Err(error);
            },
        };
        let allied_buildings = allied_building_positions(tracker, current);
        let buy_requirements = match build_buy_requirements(tracker, &shop, &own_stash) {
            Ok(requirements) => requirements,
            Err(error) => {
                return Err(error);
            },
        };
        let context = SpaceContext {
            provenance: tracker.provenance,
            hero,
            courier,
            entities,
            points,
            loot,
            shop,
            tick: current.tick,
            readiness: readiness.duplicate(),
            own_gold,
            own_stash,
            own_fountain,
            allied_buildings,
            buy_requirements,
        };
        assert(context_matches(*tracker, *readiness, grid, context));
        assert(context.wf()) by {
            assert forall|i: int| 0 <= i < context.points@.len() implies (
            #[trigger] context.points@[i]).position.on_map() by {
                assert(inside(context.points@[i].position, maximum_raw(tracker.axis())));
            }
        }
        Ok(Self::with_masks(context))
    }

    fn with_masks(context: SpaceContext) -> (space: Self)
        requires
            context.wf(),
        ensures
            space.wf(),
            space.context == context,
    {
        let hero_masks = build_controlled_masks(&context, ControlledUnit::Hero);
        let courier_masks = build_controlled_masks(&context, ControlledUnit::Courier);
        let kind_mask = crate::space::build_kind_mask(&hero_masks, &courier_masks);
        ActionSpace { context, hero_masks, courier_masks, kind_mask }
    }
}

} // verus!
