//! Picking up ground items: the nearest item in reach, the prompt, the
//! pickup request, and the visuals of ground items.

use vstd::prelude::*;
use crate::input::InputFlags;
use crate::items::ItemType;
use crate::text::{decimal_chars, push_decimal};
use crate::visuals::{missing_visuals, missing_visuals_spec, orphaned_visuals, orphaned_visuals_spec};

verus! {

broadcast use vstd::seq_lib::group_seq_properties;

/// A ground item as the pickup check sees it.
#[derive(Clone, Copy, Debug, PartialEq, Eq, Structural)]
pub struct GroundItemCandidate {
    pub entity: u64,
    pub item_type: ItemType,
    pub quantity: u32,
    /// Within the 3 m pickup range of the player.
    pub in_range: bool,
    /// Orders the items by their distance to the player (the bits of a
    /// non-negative `f32` distance order as the distances do).
    pub distance_key: u32,
}

/// The item the player could pick up.
#[derive(Clone, Copy, Debug, PartialEq, Eq, Structural)]
pub struct NearbyItem {
    pub entity: Option<u64>,
    pub item_type: Option<ItemType>,
    pub quantity: Option<u32>,
}

/// No item nearby.
pub open spec fn no_item() -> NearbyItem {
    NearbyItem { entity: None, item_type: None, quantity: None }
}

/// The index of the nearest in-range item among the first `n`: the first of
/// those at the smallest distance.
pub open spec fn nearest_index(items: Seq<GroundItemCandidate>, n: int) -> Option<int>
    decreases n,
{
    if n <= 0 {
        None
    } else {
        let best = nearest_index(items, n - 1);
        let c = items[n - 1];
        if c.in_range && (best is None || c.distance_key < items[best->0].distance_key) {
            Some(n - 1)
        } else {
            best
        }
    }
}

/// The nearby item: the nearest in range, none while driving, dead or
/// without a local player.
pub open spec fn nearby_spec(flags: InputFlags, player_present: bool, items: Seq<GroundItemCandidate>) -> NearbyItem {
    if flags.in_vehicle || flags.is_dead || !player_present {
        no_item()
    } else {
        match nearest_index(items, items.len() as int) {
            Some(k) => NearbyItem { entity: Some(items[k].entity), item_type: Some(items[k].item_type), quantity: Some(items[k].quantity) },
            None => no_item(),
        }
    }
}

proof fn lemma_nearest_index_bounds(items: Seq<GroundItemCandidate>, n: int)
    requires
        0 <= n <= items.len(),
    ensures
        nearest_index(items, n) matches Some(k) ==> (0 <= k < n && items[k].in_range),
    decreases n,
{
    if n > 0 {
        lemma_nearest_index_bounds(items, n - 1);
    }
}

/// Finds the nearest ground item in pickup range.
pub fn detect_nearby_items(flags: &InputFlags, player_present: bool, items: &Vec<GroundItemCandidate>) -> (r: NearbyItem)
    ensures
        r == nearby_spec(*flags, player_present, items@),
{
    if flags.in_vehicle || flags.is_dead || !player_present {
        return NearbyItem { entity: None, item_type: None, quantity: None };
    }
    let mut best: Option<usize> = None;
    let mut i: usize = 0;
    while i < items.len()
        invariant
            0 <= i <= items.len(),
            match best {
                None => nearest_index(items@, i as int) is None,
                Some(b) => nearest_index(items@, i as int) == Some(b as int) && b < i,
            },
        decreases items.len() - i,
    {
        proof {
            lemma_nearest_index_bounds(items@, i as int);
        }
        let c = items[i];
        if c.in_range {
            let better = match best {
                None => true,
                Some(b) => c.distance_key < items[b].distance_key,
            };
            if better {
                best = Some(i);
            }
        }
        i += 1;
    }
    match best {
        None => NearbyItem { entity: None, item_type: None, quantity: None },
        Some(b) => NearbyItem { entity: Some(items[b].entity), item_type: Some(items[b].item_type), quantity: Some(items[b].quantity) },
    }
}

/// The nearby item is in range and no item in range is nearer.
pub proof fn lemma_nearest_is_nearest(items: Seq<GroundItemCandidate>, n: int)
    requires
        0 <= n <= items.len(),
    ensures
        nearest_index(items, n) matches Some(k) ==> {
            &&& 0 <= k < n && items[k].in_range
            &&& forall|j: int| 0 <= j < n && #[trigger] items[j].in_range ==> items[k].distance_key <= items[j].distance_key
            &&& forall|j: int| 0 <= j < k && #[trigger] items[j].in_range ==> items[k].distance_key < items[j].distance_key
        },
        nearest_index(items, n) is None ==> forall|j: int| 0 <= j < n ==> !(#[trigger] items[j].in_range),
    decreases n,
{
    if n > 0 {
        lemma_nearest_is_nearest(items, n - 1);
    }
}

/// On foot, alive and with a player, the nearby item is one in range
/// reported with its own entity, type and quantity, and no item in range is
/// nearer; with none in range there is no nearby item. Driving or dead, or
/// without a player, there is none.
pub proof fn lemma_nearby_item_is_nearest_in_range(flags: InputFlags, player_present: bool, items: Seq<GroundItemCandidate>)
    ensures
        flags.in_vehicle || flags.is_dead || !player_present ==> nearby_spec(flags, player_present, items) == no_item(),
        !flags.in_vehicle && !flags.is_dead && player_present ==> {
            ||| (exists|k: int| 0 <= k < items.len() && items[k].in_range && {
                    let r = nearby_spec(flags, player_present, items);
                    &&& r.entity == Some(items[k].entity)
                    &&& r.item_type == Some(items[k].item_type)
                    &&& r.quantity == Some(items[k].quantity)
                    &&& forall|j: int| 0 <= j < items.len() && #[trigger] items[j].in_range ==> items[k].distance_key <= items[j].distance_key
                })
            ||| ((forall|j: int| 0 <= j < items.len() ==> !(#[trigger] items[j].in_range))
                && nearby_spec(flags, player_present, items) == no_item())
        },
{
    lemma_nearest_is_nearest(items, items.len() as int);
}

/// What to do with the pickup prompt.
#[derive(Debug)]
pub enum PromptAction {
    /// Show this text (updating the prompt or spawning it).
    Show(String),
    /// No item nearby: remove the prompt.
    Remove,
}

/// The prompt's text: `Press E to pick up {quantity}x {name}`.
pub open spec fn prompt_text_spec(quantity: u32, item_name: Seq<char>) -> Seq<char> {
    "Press E to pick up "@ + decimal_chars(quantity as nat) + "x "@ + item_name
}

/// The prompt for the nearby item, given its display name.
pub fn show_pickup_prompt(nearby: &NearbyItem, item_name: &str) -> (a: PromptAction)
    ensures
        (nearby.item_type is Some && nearby.quantity is Some) ==> (a matches PromptAction::Show(t) && t@ == prompt_text_spec(nearby.quantity->0, item_name@)),
        !(nearby.item_type is Some && nearby.quantity is Some) ==> a is Remove,
{
    match (nearby.item_type, nearby.quantity) {
        (Some(_), Some(q)) => {
            let mut t = String::from_str("Press E to pick up ");
            push_decimal(&mut t, q as u64);
            t.append("x ");
            t.append(item_name);
            PromptAction::Show(t)
        },
        _ => PromptAction::Remove,
    }
}

/// E asks the server to pick up the nearby item, when there is one.
pub fn handle_pickup_input(e_just_pressed: bool, nearby: &NearbyItem) -> (request: bool)
    ensures
        request == (e_just_pressed && nearby.entity is Some),
{
    if !e_just_pressed {
        return false;
    }
    nearby.entity.is_some()
}

/// The newly replicated ground items that have no visual yet.
pub fn spawn_ground_item_visuals(new_items: &Vec<u64>, visual_sources: &Vec<u64>) -> (fresh: Vec<u64>)
    ensures
        fresh@ == missing_visuals_spec(new_items@, visual_sources@),
{
    missing_visuals(new_items, visual_sources)
}

/// The ground item visuals whose item is gone (`visuals` pairs each visual
/// with its item).
pub fn despawn_ground_item_visuals(visuals: &Vec<(u64, u64)>, items: &Vec<u64>) -> (stale: Vec<u64>)
    ensures
        stale@ == orphaned_visuals_spec(visuals@, items@),
{
    orphaned_visuals(visuals, items)
}

} // verus!
