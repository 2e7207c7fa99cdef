//! Ability and item tokens of the own bodies, the stash, and the shop.
use crate::action::ControlledUnit;
use crate::events::{latest_body, latest_cast, own_body_track, recent_ability_cast, MAX_AGE};
use crate::map_features::{append_row, blank, blank_row};
use crate::scalar::{
    ability_category, ability_id_token, aim_category, aim_token, attribute_category,
    attribute_token, bool_feature, category_of, category_token, flag_of, item_category,
    item_id_token, ratio, ratio_of, row_bounded, saturated_sum, saturating_sum, signed_of,
    signed_ratio, unit_of, unit_ratio, Scalar,
};
use crate::search::{entry, mask_at};
use crate::shop::{entry_index, entry_position};
use crate::space::ActionSpace;
use crate::tracker::{EntityTrack, ItemReadiness, StateTracker, MAX_SHOP_ITEMS};
use crate::unit_features::MAX_MANA;
use crate::world::{
    AbilitySlot, AbilityView, ItemId, ItemSlot, ItemView, ShopEntry, UnitKind, FIXED_MAX_INT,
};
use vstd::prelude::*;

verus! {

pub const MAX_COOLDOWN: u32 = 36_000;

pub const MAX_CHARGES: i64 = 255;

pub const MAX_ITEM_COST: i64 = 100_000;

/// Rows of scalars.
pub open spec fn rows_of(table: Seq<Vec<Scalar>>) -> Seq<Seq<Scalar>> {
    table.map_values(|row: Vec<Scalar>| row@)
}

/// Whether every row has a width and keeps its ranges.
pub open spec fn table_bounded(table: Seq<Vec<Scalar>>, width: int) -> bool {
    forall|i: int|
        0 <= i < table.len() ==> (#[trigger] table[i])@.len() == width && row_bounded(table[i]@)
}

/// Abilities of the own hero, and whether they come from its scoreboard kit.
pub open spec fn hero_abilities(tracker: StateTracker) -> Option<(Seq<AbilityView>, bool)> {
    match tracker.hero_spec() {
        Some(hero) => Some((hero.abilities@, false)),
        None => match tracker.player_spec() {
            Some(player) => match player.kit {
                Some(kit) => Some((kit.abilities@, true)),
                None => None,
            },
            None => None,
        },
    }
}

fn own_hero_abilities(tracker: &StateTracker) -> (r: Option<(&Vec<AbilityView>, bool)>)
    requires
        tracker.wf(),
    ensures
        match r {
            Some((list, kit)) => hero_abilities(*tracker) == Some((list@, kit)),
            None => hero_abilities(*tracker) is None,
        },
{
    match tracker.hero() {
        Some(hero) => Some((&hero.abilities, false)),
        None => match tracker.player() {
            Some(player) => match &player.kit {
                Some(kit) => Some((&kit.abilities, true)),
                None => None,
            },
            None => None,
        },
    }
}

/// Items of the own hero, and whether they come from its scoreboard kit.
pub open spec fn hero_items(tracker: StateTracker) -> Option<(Seq<Option<ItemView>>, bool)> {
    match tracker.hero_spec() {
        Some(hero) => Some((hero.items@, false)),
        None => match tracker.player_spec() {
            Some(player) => match player.kit {
                Some(kit) => Some((kit.items@, true)),
                None => None,
            },
            None => None,
        },
    }
}

fn own_hero_items(tracker: &StateTracker) -> (r: Option<(&Vec<Option<ItemView>>, bool)>)
    requires
        tracker.wf(),
    ensures
        match r {
            Some((list, kit)) => hero_items(*tracker) == Some((list@, kit)),
            None => hero_items(*tracker) is None,
        },
{
    match tracker.hero() {
        Some(hero) => Some((&hero.items, false)),
        None => match tracker.player() {
            Some(player) => match &player.kit {
                Some(kit) => Some((&kit.items, true)),
                None => None,
            },
            None => None,
        },
    }
}

/// Items of the stash, if the own row shows one.
pub open spec fn stash_items(tracker: StateTracker) -> Option<Seq<Option<ItemView>>> {
    match tracker.player_spec() {
        Some(player) => match player.stash {
            Some(stash) => Some(stash@),
            None => None,
        },
        None => None,
    }
}

fn own_stash(tracker: &StateTracker) -> (r: Option<&Vec<Option<ItemView>>>)
    requires
        tracker.wf(),
    ensures
        match r {
            Some(list) => stash_items(*tracker) == Some(list@),
            None => stash_items(*tracker) is None,
        },
{
    match tracker.player() {
        Some(player) => match &player.stash {
            Some(stash) => Some(stash),
            None => None,
        },
        None => None,
    }
}

/// Items of the own courier, if it is on the map.
pub open spec fn courier_items(tracker: StateTracker) -> Option<Seq<Option<ItemView>>> {
    match tracker.courier_spec() {
        Some(courier) => Some(courier.items@),
        None => None,
    }
}

fn own_courier_items(tracker: &StateTracker) -> (r: Option<&Vec<Option<ItemView>>>)
    requires
        tracker.wf(),
    ensures
        match r {
            Some(list) => courier_items(*tracker) == Some(list@),
            None => courier_items(*tracker) is None,
        },
{
    match tracker.courier() {
        Some(courier) => Some(&courier.items),
        None => None,
    }
}

/// Item in a slot of an optional list.
pub open spec fn slot_item(list: Option<Seq<Option<ItemView>>>, slot: int) -> Option<ItemView> {
    match list {
        Some(items) => if slot < items.len() {
            items[slot]
        } else {
            None
        },
        None => None,
    }
}

fn item_at(list: Option<&Vec<Option<ItemView>>>, slot: usize) -> (r: Option<ItemView>)
    ensures
        r == slot_item(
            match list {
                Some(items) => Some(items@),
                None => None,
            },
            slot as int,
        ),
{
    match list {
        Some(items) => if slot < items.len() {
            items[slot]
        } else {
            None
        },
        None => None,
    }
}

/// Whether a unit can cast the ability in a slot.
pub open spec fn castable(space: ActionSpace, unit: ControlledUnit, slot: int) -> bool {
    slot < space.masks(unit).casts@.len() && space.masks(unit).casts@[slot].open()
}

fn ability_legal(space: &ActionSpace, unit: ControlledUnit, slot: usize) -> (r: bool)
    requires
        slot < 256,
    ensures
        r == castable(*space, unit, slot as int),
{
    match space.cast_target_mask(unit, AbilitySlot(slot as u8)) {
        Some(mask) => mask.any(),
        None => false,
    }
}

/// Whether a unit can use the item in a slot.
pub open spec fn usable(space: ActionSpace, unit: ControlledUnit, slot: int) -> bool {
    slot < space.masks(unit).uses@.len() && space.masks(unit).uses@[slot].open()
}

fn item_legal(space: &ActionSpace, unit: ControlledUnit, slot: usize) -> (r: bool)
    requires
        slot < 256,
    ensures
        r == usable(*space, unit, slot as int),
{
    match space.use_target_mask(unit, ItemSlot(slot as u8)) {
        Some(mask) => mask.any(),
        None => false,
    }
}

/// Tick of the latest cast of an ability by a tracked body.
pub open spec fn cast_tick(
    tracker: StateTracker,
    track: Option<EntityTrack>,
    ability: AbilityView,
) -> Option<u32> {
    match track {
        Some(body) => latest_cast(tracker.events@, body.id, ability.id, tracker.view_spec().tick),
        None => None,
    }
}

/// Scalars of one ability slot.
pub open spec fn ability_row(
    tracker: StateTracker,
    space: ActionSpace,
    unit: ControlledUnit,
    slot: int,
    ability: Option<AbilityView>,
    track: Option<EntityTrack>,
    kit: bool,
) -> Seq<Scalar> {
    let head = seq![Scalar::One, category_of(unit.index_spec()), category_of(slot)];
    match ability {
        None => head + blank(15) + seq![flag_of(kit)] + blank(5),
        Some(known) => {
            let cast = cast_tick(tracker, track, known);
            head + seq![
                Scalar::One,
                Scalar::One,
                ability_category(known.id),
                ratio_of(known.level as int, 0, 30),
                ratio_of(known.max_level as int, 0, 30),
                unit_of(known.cooldown_left as int, MAX_COOLDOWN as int),
                signed_of(known.mana_cost as int, MAX_MANA as int),
                signed_of(known.range as int, FIXED_MAX_INT as int),
                aim_category(known.aim),
                flag_of(known.passive),
                flag_of(known.on),
                flag_of(known.can_level),
                flag_of(castable(space, unit, slot)),
                flag_of(cast is Some),
                match cast {
                    Some(tick) => unit_of(tracker.view_spec().tick - tick, MAX_AGE as int),
                    None => Scalar::Zero,
                },
            ] + seq![flag_of(kit)] + blank(5)
        },
    }
}

fn encode_ability_token(
    tracker: &StateTracker,
    space: &ActionSpace,
    unit: ControlledUnit,
    slot: usize,
    ability: Option<AbilityView>,
    track: Option<&EntityTrack>,
    kit: bool,
) -> (r: Vec<Scalar>)
    requires
        tracker.current is Some,
        slot < 8,
    ensures
        r@ == ability_row(
            *tracker,
            *space,
            unit,
            slot as int,
            ability,
            match track {
                Some(body) => Some(*body),
                None => None,
            },
            kit,
        ),
        r@.len() == 24,
        row_bounded(r@),
{
    let current = tracker.current.as_ref().unwrap();
    let tick = current.tick;
    let ghost body = match track {
        Some(body) => Some(*body),
        None => None,
    };
    let mut row = vec![Scalar::One, category_token(unit.index()), category_token(slot)];
    assert(row@ =~= seq![Scalar::One, category_of(unit.index_spec()), category_of(slot as int)]);
    match ability {
        None => {
            append_row(&mut row, &blank_row(15));
        },
        Some(known) => {
            let cast = match track {
                Some(owner) => recent_ability_cast(tracker, owner.id, known.id, tick),
                None => None,
            };
            let age = match cast {
                Some(found) => unit_ratio(tick - found, MAX_AGE),
                None => Scalar::Zero,
            };
            let tail = vec![
                Scalar::One,
                Scalar::One,
                ability_id_token(known.id),
                ratio(known.level as i64, 0, 30),
                ratio(known.max_level as i64, 0, 30),
                unit_ratio(known.cooldown_left, MAX_COOLDOWN),
                signed_ratio(known.mana_cost as i64, MAX_MANA),
                signed_ratio(known.range as i64, FIXED_MAX_INT as i64),
                aim_token(known.aim),
                bool_feature(known.passive),
                bool_feature(known.on),
                bool_feature(known.can_level),
                bool_feature(ability_legal(space, unit, slot)),
                bool_feature(cast.is_some()),
                age,
            ];
            append_row(&mut row, &tail);
        },
    }
    append_row(&mut row, &vec![bool_feature(kit)]);
    append_row(&mut row, &blank_row(5));
    assert(row@ =~= ability_row(*tracker, *space, unit, slot as int, ability, body, kit));
    row
}

/// Ability in a slot of an optional list.
pub open spec fn slot_ability(list: Option<Seq<AbilityView>>, slot: int) -> Option<AbilityView> {
    match list {
        Some(abilities) => if slot < abilities.len() {
            Some(abilities[slot])
        } else {
            None
        },
        None => None,
    }
}

fn ability_at(list: Option<&Vec<AbilityView>>, slot: usize) -> (r: Option<AbilityView>)
    ensures
        r == slot_ability(
            match list {
                Some(abilities) => Some(abilities@),
                None => None,
            },
            slot as int,
        ),
{
    match list {
        Some(abilities) => if slot < abilities.len() {
            Some(abilities[slot])
        } else {
            None
        },
        None => None,
    }
}

/// Ability rows: six slots of the hero, then eight of the courier.
pub open spec fn ability_table(
    tracker: StateTracker,
    space: ActionSpace,
    index: int,
) -> Seq<Scalar> {
    if index < 6 {
        let known = hero_abilities(tracker);
        ability_row(
            tracker,
            space,
            ControlledUnit::Hero,
            index,
            slot_ability(
                match known {
                    Some(pair) => Some(pair.0),
                    None => None,
                },
                index,
            ),
            latest_body(tracker, UnitKind::Hero),
            known matches Some(pair) && pair.1,
        )
    } else {
        ability_row(
            tracker,
            space,
            ControlledUnit::Courier,
            index - 6,
            slot_ability(
                match tracker.courier_spec() {
                    Some(courier) => Some(courier.abilities@),
                    None => None,
                },
                index - 6,
            ),
            latest_body(tracker, UnitKind::Courier),
            false,
        )
    }
}

/// Ability rows: six slots of the hero, then eight of the courier.
pub open spec fn ability_rows(tracker: StateTracker, space: ActionSpace) -> Seq<Seq<Scalar>> {
    Seq::new(14, |i: int| ability_table(tracker, space, i))
}

/// Ability rows: six slots of the hero, then eight of the courier.
pub fn encode_abilities(tracker: &StateTracker, space: &ActionSpace) -> (r: Vec<Vec<Scalar>>)
    requires
        tracker.wf(),
        tracker.current is Some,
    ensures
        rows_of(r@) == ability_rows(*tracker, *space),
        table_bounded(r@, 24),
{
    let hero = own_hero_abilities(tracker);
    let kit = match hero {
        Some((_, from_kit)) => from_kit,
        None => false,
    };
    let hero_list = match hero {
        Some((list, _)) => Some(list),
        None => None,
    };
    let courier_list = match tracker.courier() {
        Some(courier) => Some(&courier.abilities),
        None => None,
    };
    let hero_track = own_body_track(tracker, UnitKind::Hero);
    let courier_track = own_body_track(tracker, UnitKind::Courier);
    let mut table: Vec<Vec<Scalar>> = Vec::new();
    let mut index: usize = 0;
    while index < 14
        invariant
            index <= 14,
            tracker.wf(),
            tracker.current is Some,
            table@.len() == index,
            table_bounded(table@, 24),
            kit == (hero_abilities(*tracker) matches Some(pair) && pair.1),
            match hero_list {
                Some(list) => hero_abilities(*tracker) == Some((list@, kit)),
                None => hero_abilities(*tracker) is None,
            },
            match courier_list {
                Some(list) => tracker.courier_spec() matches Some(courier) && courier.abilities@
                    == list@,
                None => tracker.courier_spec() is None,
            },
            match hero_track {
                Some(track) => latest_body(*tracker, UnitKind::Hero) == Some(*track),
                None => latest_body(*tracker, UnitKind::Hero) is None,
            },
            match courier_track {
                Some(track) => latest_body(*tracker, UnitKind::Courier) == Some(*track),
                None => latest_body(*tracker, UnitKind::Courier) is None,
            },
            forall|i: int|
                0 <= i < index ==> (#[trigger] table@[i])@ == ability_table(*tracker, *space, i),
        decreases 14 - index,
    {
        let row = if index < 6 {
            encode_ability_token(
                tracker,
                space,
                ControlledUnit::Hero,
                index,
                ability_at(hero_list, index),
                hero_track,
                kit,
            )
        } else {
            encode_ability_token(
                tracker,
                space,
                ControlledUnit::Courier,
                index - 6,
                ability_at(courier_list, index - 6),
                courier_track,
                false,
            )
        };
        assert(row@ == ability_table(*tracker, *space, index as int));
        table.push(row);
        index += 1;
    }
    assert(rows_of(table@) =~= ability_rows(*tracker, *space));
    table
}

/// Whether some shop entry is assembled from an item.
pub open spec fn is_component(shop: Seq<ShopEntry>, item: ItemId) -> bool {
    exists|i: int| 0 <= i < shop.len() && (#[trigger] shop[i]).components@.contains(item)
}

fn holds_component(components: &Vec<ItemId>, item: ItemId) -> (r: bool)
    ensures
        r == components@.contains(item),
{
    let mut index: usize = 0;
    while index < components.len()
        invariant
            index <= components@.len(),
            forall|i: int| 0 <= i < index ==> components@[i] != item,
        decreases components@.len() - index,
    {
        if components[index] == item {
            assert(components@[index as int] == item);
            return true;
        }
        index += 1;
    }
    false
}

fn component_of_any(shop: &Vec<ShopEntry>, item: ItemId) -> (r: bool)
    ensures
        r == is_component(shop@, item),
{
    let mut index: usize = 0;
    while index < shop.len()
        invariant
            index <= shop@.len(),
            forall|i: int| 0 <= i < index ==> !(#[trigger] shop@[i]).components@.contains(item),
        decreases shop@.len() - index,
    {
        if holds_component(&shop[index].components, item) {
            assert(shop@[index as int].components@.contains(item));
            return true;
        }
        index += 1;
    }
    false
}

/// Cost of an item in parts of the largest cost, if the shop sells it.
pub open spec fn value_scalar(shop: Seq<ShopEntry>, item: ItemId) -> Scalar {
    match entry_index(shop, item) {
        Some(i) => signed_of(shop[i].cost as int, MAX_ITEM_COST as int),
        None => Scalar::Zero,
    }
}

/// Whether the shop assembles an item from others.
pub open spec fn composite(shop: Seq<ShopEntry>, item: ItemId) -> bool {
    entry_index(shop, item) matches Some(i) && shop[i].components@.len() > 0
}

/// Ticks left of a timer in parts of the longest one.
pub open spec fn timer_scalar(left: Option<u32>) -> Scalar {
    match left {
        Some(ticks) => unit_of(ticks as int, MAX_COOLDOWN as int),
        None => Scalar::Zero,
    }
}

fn timer_ratio(left: Option<u32>) -> (r: Scalar)
    ensures
        r == timer_scalar(left),
        r.bounded(),
{
    match left {
        Some(ticks) => unit_ratio(ticks, MAX_COOLDOWN),
        None => Scalar::Zero,
    }
}

/// What an item shows of itself.
pub open spec fn item_view_row(known: ItemView) -> Seq<Scalar> {
    seq![
        Scalar::One,
        item_category(known.id),
        flag_of(known.charges is Some),
        ratio_of(
            match known.charges {
                Some(count) => count as int,
                None => 0,
            },
            0,
            MAX_CHARGES as int,
        ),
        unit_of(known.cooldown_left as int, MAX_COOLDOWN as int),
        flag_of(known.aim is Some),
        match known.aim {
            Some(aim) => aim_category(aim),
            None => Scalar::Zero,
        },
        signed_of(known.range as int, FIXED_MAX_INT as int),
        signed_of(known.mana_cost as int, MAX_MANA as int),
        flag_of(known.mode is Some),
        match known.mode {
            Some(attribute) => attribute_category(attribute),
            None => Scalar::Zero,
        },
        flag_of(known.for_sale),
    ]
}

fn encode_item_view(known: ItemView) -> (r: Vec<Scalar>)
    ensures
        r@ == item_view_row(known),
        r@.len() == 12,
        row_bounded(r@),
{
    let charges: i64 = match known.charges {
        Some(count) => count as i64,
        None => 0,
    };
    let aim = match known.aim {
        Some(aim) => aim_token(aim),
        None => Scalar::Zero,
    };
    let attribute = match known.mode {
        Some(attribute) => attribute_token(attribute),
        None => Scalar::Zero,
    };
    let row = vec![
        Scalar::One,
        item_id_token(known.id),
        bool_feature(known.charges.is_some()),
        ratio(charges, 0, MAX_CHARGES),
        unit_ratio(known.cooldown_left, MAX_COOLDOWN),
        bool_feature(known.aim.is_some()),
        aim,
        signed_ratio(known.range as i64, FIXED_MAX_INT as i64),
        signed_ratio(known.mana_cost as i64, MAX_MANA),
        bool_feature(known.mode.is_some()),
        attribute,
        bool_feature(known.for_sale),
    ];
    assert(row@ =~= item_view_row(known));
    row
}

/// Timers, value, and legality of an item in a slot; a location of two is the stash.
pub open spec fn item_state_row(
    tracker: StateTracker,
    space: ActionSpace,
    readiness: ItemReadiness,
    unit: ControlledUnit,
    location: int,
    slot: int,
    item: ItemId,
) -> Seq<Scalar> {
    let shop = tracker.shop@;
    let tick = tracker.view_spec().tick;
    let mute = readiness.mute_left_spec(unit, ItemSlot(slot as u8), tick);
    let wait = if location == 2 {
        None
    } else {
        readiness.wait_left_spec(unit, item, tick)
    };
    seq![
        flag_of(mute matches Some(left) && left > 0),
        flag_of(entry_index(shop, item) is Some),
        value_scalar(shop, item),
        flag_of(is_component(shop, item)),
        flag_of(composite(shop, item)),
        flag_of(slot < 6 && usable(space, unit, slot)),
        Scalar::Zero,
        flag_of(mute is Some),
        timer_scalar(mute),
        flag_of(wait is Some),
        timer_scalar(wait),
    ]
}

fn encode_item_state(
    tracker: &StateTracker,
    space: &ActionSpace,
    readiness: &ItemReadiness,
    unit: ControlledUnit,
    location: usize,
    slot: usize,
    item: ItemId,
) -> (r: Vec<Scalar>)
    requires
        tracker.current is Some,
        slot < 64,
    ensures
        r@ == item_state_row(
            *tracker,
            *space,
            *readiness,
            unit,
            location as int,
            slot as int,
            item,
        ),
        r@.len() == 11,
        row_bounded(r@),
{
    let current = tracker.current.as_ref().unwrap();
    let tick = current.tick;
    let entry_found = entry_position(&tracker.shop, item);
    let value = match entry_found {
        Some(index) => signed_ratio(tracker.shop[index].cost as i64, MAX_ITEM_COST),
        None => Scalar::Zero,
    };
    let assembled = match entry_found {
        Some(index) => tracker.shop[index].components.len() > 0,
        None => false,
    };
    let mute = readiness.inventory_mute_left(unit, ItemSlot(slot as u8), tick);
    let muted = match mute {
        Some(left) => left > 0,
        None => false,
    };
    let wait = if location == 2 {
        None
    } else {
        readiness.shared_wait_left(unit, item, tick)
    };
    let row = vec![
        bool_feature(muted),
        bool_feature(entry_found.is_some()),
        value,
        bool_feature(component_of_any(&tracker.shop, item)),
        bool_feature(assembled),
        bool_feature(slot < 6 && item_legal(space, unit, slot)),
        Scalar::Zero,
        bool_feature(mute.is_some()),
        timer_ratio(mute),
        bool_feature(wait.is_some()),
        timer_ratio(wait),
    ];
    assert(row@ =~= item_state_row(
        *tracker,
        *space,
        *readiness,
        unit,
        location as int,
        slot as int,
        item,
    ));
    row
}

/// Scalars of one own item slot.
pub open spec fn item_row(
    tracker: StateTracker,
    space: ActionSpace,
    readiness: ItemReadiness,
    unit: ControlledUnit,
    location: int,
    slot: int,
    item: Option<ItemView>,
    kit: bool,
) -> Seq<Scalar> {
    let head = seq![Scalar::One, category_of(location), category_of(slot)];
    let tail = seq![flag_of(kit), Scalar::Zero];
    match item {
        None => head + blank(23) + tail,
        Some(known) => head + item_view_row(known) + item_state_row(
            tracker,
            space,
            readiness,
            unit,
            location,
            slot,
            known.id,
        ) + tail,
    }
}

fn encode_owned_item(
    tracker: &StateTracker,
    space: &ActionSpace,
    readiness: &ItemReadiness,
    unit: ControlledUnit,
    location: usize,
    slot: usize,
    item: Option<ItemView>,
    kit: bool,
) -> (r: Vec<Scalar>)
    requires
        tracker.current is Some,
        location < 5,
        slot < 64,
    ensures
        r@ == item_row(
            *tracker,
            *space,
            *readiness,
            unit,
            location as int,
            slot as int,
            item,
            kit,
        ),
        r@.len() == 28,
        row_bounded(r@),
{
    let mut row = vec![Scalar::One, category_token(location), category_token(slot)];
    assert(row@ =~= seq![Scalar::One, category_of(location as int), category_of(slot as int)]);
    match item {
        None => {
            append_row(&mut row, &blank_row(23));
        },
        Some(known) => {
            append_row(&mut row, &encode_item_view(known));
            append_row(
                &mut row,
                &encode_item_state(tracker, space, readiness, unit, location, slot, known.id),
            );
        },
    }
    let tail = vec![bool_feature(kit), Scalar::Zero];
    assert(tail@ =~= seq![flag_of(kit), Scalar::Zero]);
    append_row(&mut row, &tail);
    row
}

/// Scalars of one shop candidate.
pub open spec fn shop_row(tracker: StateTracker, space: ActionSpace, slot: int) -> Seq<Scalar> {
    let candidate = space.context.shop@[slot];
    seq![
        Scalar::One,
        category_of(4),
        category_of(slot),
        Scalar::One,
        item_category(candidate.item),
    ] + blank(11) + seq![
        Scalar::One,
        signed_of(candidate.cost as int, MAX_ITEM_COST as int),
        Scalar::Zero,
        flag_of(composite(tracker.shop@, candidate.item)),
        flag_of(entry(space.masks(ControlledUnit::Hero).buy@, slot)),
        Scalar::One,
    ] + blank(6)
}

fn encode_shop_item(tracker: &StateTracker, space: &ActionSpace, slot: usize) -> (r: Vec<Scalar>)
    requires
        slot < space.context.shop@.len(),
        slot < MAX_SHOP_ITEMS,
    ensures
        r@ == shop_row(*tracker, *space, slot as int),
        r@.len() == 28,
        row_bounded(r@),
{
    let candidate = space.context.shop[slot];
    let assembled = match entry_position(&tracker.shop, candidate.item) {
        Some(index) => tracker.shop[index].components.len() > 0,
        None => false,
    };
    let mut row = vec![
        Scalar::One,
        category_token(4),
        category_token(slot),
        Scalar::One,
        item_id_token(candidate.item),
    ];
    append_row(&mut row, &blank_row(11));
    let legal = mask_at(space.buy_mask(ControlledUnit::Hero), slot);
    append_row(
        &mut row,
        &vec![
            Scalar::One,
            signed_ratio(candidate.cost as i64, MAX_ITEM_COST),
            Scalar::Zero,
            bool_feature(assembled),
            bool_feature(legal),
            Scalar::One,
        ],
    );
    append_row(&mut row, &blank_row(6));
    assert(row@ =~= shop_row(*tracker, *space, slot as int));
    row
}

/// Item rows: nine hero slots, six stash slots, six courier slots, then the shop.
pub open spec fn item_table(
    tracker: StateTracker,
    space: ActionSpace,
    readiness: ItemReadiness,
    index: int,
) -> Seq<Scalar> {
    let hero = hero_items(tracker);
    if index < 9 {
        item_row(
            tracker,
            space,
            readiness,
            ControlledUnit::Hero,
            1,
            index,
            slot_item(
                match hero {
                    Some(pair) => Some(pair.0),
                    None => None,
                },
                index,
            ),
            hero matches Some(pair) && pair.1,
        )
    } else if index < 15 {
        item_row(
            tracker,
            space,
            readiness,
            ControlledUnit::Hero,
            2,
            index,
            slot_item(stash_items(tracker), index - 9),
            false,
        )
    } else if index < 21 {
        item_row(
            tracker,
            space,
            readiness,
            ControlledUnit::Courier,
            3,
            index - 15,
            slot_item(courier_items(tracker), index - 15),
            false,
        )
    } else {
        shop_row(tracker, space, index - 21)
    }
}

/// Item rows: nine hero slots, six stash slots, six courier slots, then the shop.
pub open spec fn item_rows(
    tracker: StateTracker,
    space: ActionSpace,
    readiness: ItemReadiness,
) -> Seq<Seq<Scalar>> {
    Seq::new(
        21 + space.context.shop@.len(),
        |i: int| item_table(tracker, space, readiness, i),
    )
}

/// Item rows: nine hero slots, six stash slots, six courier slots, then the shop.
pub fn encode_items(tracker: &StateTracker, space: &ActionSpace, readiness: &ItemReadiness) -> (r:
    Vec<Vec<Scalar>>)
    requires
        tracker.wf(),
        tracker.current is Some,
        space.context.shop@.len() <= MAX_SHOP_ITEMS,
    ensures
        rows_of(r@) == item_rows(*tracker, *space, *readiness),
        table_bounded(r@, 28),
{
    let hero = own_hero_items(tracker);
    let kit = match hero {
        Some((_, from_kit)) => from_kit,
        None => false,
    };
    let hero_list = match hero {
        Some((list, _)) => Some(list),
        None => None,
    };
    let stash = own_stash(tracker);
    let courier = own_courier_items(tracker);
    let total: usize = 21 + space.context.shop.len();
    let mut table: Vec<Vec<Scalar>> = Vec::new();
    let mut index: usize = 0;
    while index < total
        invariant
            index <= total,
            total == 21 + space.context.shop@.len(),
            space.context.shop@.len() <= MAX_SHOP_ITEMS,
            tracker.current is Some,
            table@.len() == index,
            table_bounded(table@, 28),
            kit == (hero_items(*tracker) matches Some(pair) && pair.1),
            match hero_list {
                Some(list) => hero_items(*tracker) == Some((list@, kit)),
                None => hero_items(*tracker) is None,
            },
            match stash {
                Some(list) => stash_items(*tracker) == Some(list@),
                None => stash_items(*tracker) is None,
            },
            match courier {
                Some(list) => courier_items(*tracker) == Some(list@),
                None => courier_items(*tracker) is None,
            },
            forall|i: int|
                0 <= i < index ==> (#[trigger] table@[i])@ == item_table(
                    *tracker,
                    *space,
                    *readiness,
                    i,
                ),
        decreases total - index,
    {
        let row = if index < 9 {
            encode_owned_item(
                tracker,
                space,
                readiness,
                ControlledUnit::Hero,
                1,
                index,
                item_at(hero_list, index),
                kit,
            )
        } else if index < 15 {
            encode_owned_item(
                tracker,
                space,
                readiness,
                ControlledUnit::Hero,
                2,
                index,
                item_at(stash, index - 9),
                false,
            )
        } else if index < 21 {
            encode_owned_item(
                tracker,
                space,
                readiness,
                ControlledUnit::Courier,
                3,
                index - 15,
                item_at(courier, index - 15),
                false,
            )
        } else {
            encode_shop_item(tracker, space, index - 21)
        };
        assert(row@ == item_table(*tracker, *space, *readiness, index as int));
        table.push(row);
        index += 1;
    }
    assert(rows_of(table@) =~= item_rows(*tracker, *space, *readiness));
    table
}

/// Cost of an item, zero if the shop does not sell it.
pub open spec fn cost_of(shop: Seq<ShopEntry>, item: Option<ItemView>) -> int {
    match item {
        Some(known) => match entry_index(shop, known.id) {
            Some(i) => shop[i].cost as int,
            None => 0,
        },
        None => 0,
    }
}

/// Total cost of items on top of an amount, limited to the signed range at every step.
pub open spec fn value_of(shop: Seq<ShopEntry>, items: Seq<Option<ItemView>>, start: int) -> int
    decreases items.len(),
{
    if items.len() == 0 {
        start
    } else {
        saturated_sum(value_of(shop, items.drop_last(), start), cost_of(shop, items.last()))
    }
}

/// Items of an optional list.
pub open spec fn listed(list: Option<Seq<Option<ItemView>>>) -> Seq<Option<ItemView>> {
    match list {
        Some(items) => items,
        None => Seq::empty(),
    }
}

/// Total cost of the own items in the bags and the stash.
pub open spec fn asset_value(tracker: StateTracker) -> int {
    let hero = match hero_items(tracker) {
        Some(pair) => Some(pair.0),
        None => None,
    };
    value_of(
        tracker.shop@,
        listed(courier_items(tracker)),
        value_of(
            tracker.shop@,
            listed(stash_items(tracker)),
            value_of(tracker.shop@, listed(hero), 0),
        ),
    )
}

fn add_values(shop: &Vec<ShopEntry>, list: Option<&Vec<Option<ItemView>>>, start: i64) -> (r: i64)
    ensures
        r == value_of(
            shop@,
            listed(
                match list {
                    Some(items) => Some(items@),
                    None => None,
                },
            ),
            start as int,
        ),
{
    let items = match list {
        Some(items) => items,
        None => {
            return start;
        },
    };
    let mut total = start;
    let mut index: usize = 0;
    assert(items@.take(0) =~= Seq::<Option<ItemView>>::empty());
    while index < items.len()
        invariant
            index <= items@.len(),
            total == value_of(shop@, items@.take(index as int), start as int),
        decreases items@.len() - index,
    {
        proof {
            assert(items@.take(index + 1).drop_last() =~= items@.take(index as int));
            assert(items@.take(index + 1).last() == items@[index as int]);
        }
        match items[index] {
            Some(item) => match entry_position(shop, item.id) {
                Some(found) => {
                    total = saturating_sum(total, shop[found].cost as i64);
                },
                None => {},
            },
            None => {},
        }
        index += 1;
    }
    assert(items@.take(items@.len() as int) =~= items@);
    total
}

/// Total cost of the own items in the bags and the stash.
pub fn own_asset_value(tracker: &StateTracker) -> (r: i64)
    requires
        tracker.wf(),
    ensures
        r == asset_value(*tracker),
{
    let hero = match own_hero_items(tracker) {
        Some((list, _)) => Some(list),
        None => None,
    };
    let carried = add_values(&tracker.shop, hero, 0);
    let stored = add_values(&tracker.shop, own_stash(tracker), carried);
    add_values(&tracker.shop, own_courier_items(tracker), stored)
}

} // verus!
