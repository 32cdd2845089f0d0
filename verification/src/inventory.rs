//! Inventory window logic: opening and closing, drag and drop between
//! inventory and chest slots, slot highlighting and drop requests.

use vstd::prelude::*;
use crate::items::{ItemStack, ItemType};
use crate::input::{CursorGrab, InputFlags};
use crate::text::{decimal_string, decimal_chars};

verus! {

/// While dragging: which slot the drag started from, whether it started in
/// the open chest, the dragged stack, and the floating icon (an entity id).
#[derive(Clone, Copy, Debug, PartialEq, Eq, Structural)]
pub struct DragState {
    pub dragging: bool,
    pub from_slot: Option<usize>,
    pub from_chest: bool,
    pub stack: Option<ItemStack>,
    pub icon_entity: Option<u64>,
}

/// A request to move (or stack) the items of one inventory slot onto another.
#[derive(Clone, Copy, Debug, PartialEq, Eq, Structural)]
pub struct InventoryMoveRequest {
    pub from: u8,
    pub to: u8,
}

/// A request to move items between the open chest and the inventory.
#[derive(Clone, Copy, Debug, PartialEq, Eq, Structural)]
pub struct ChestTransferRequest {
    pub from_chest: bool,
    pub from_slot: u8,
    pub to_slot: u8,
}

/// What the chest handler sees in one frame.
#[derive(Clone, Copy, Debug, PartialEq, Eq, Structural)]
pub struct ChestFrame {
    pub inventory_open: bool,
    /// A chest is open, it still exists, and the local player has an inventory.
    pub chest_available: bool,
    pub hovered_chest_slot: Option<usize>,
    pub hovered_inv_slot: Option<usize>,
    /// The contents of the hovered chest slot.
    pub hovered_chest_stack: Option<ItemStack>,
    pub left_just_pressed: bool,
    pub left_just_released: bool,
}

/// What the chest handler asks the caller to do.
#[derive(Clone, Copy, Debug, PartialEq, Eq, Structural)]
pub struct ChestFrameOutcome {
    /// A drag started from a chest slot: spawn the floating icon.
    pub started_drag: bool,
    /// Move the floating icon under the cursor.
    pub icon_follows_cursor: bool,
    pub despawn_icon: Option<u64>,
    pub transfer: Option<ChestTransferRequest>,
}

/// What the inventory handler sees in one frame.
#[derive(Clone, Copy, Debug, PartialEq, Eq, Structural)]
pub struct InventoryFrame {
    pub inventory_open: bool,
    pub hovered_slot: Option<usize>,
    /// Some chest slot is hovered or pressed.
    pub hovering_chest: bool,
    pub left_just_pressed: bool,
    pub left_just_released: bool,
    /// The local player's inventory exists.
    pub inventory_present: bool,
    /// The contents of the hovered inventory slot.
    pub hovered_stack: Option<ItemStack>,
}

/// What the inventory handler asks the caller to do.
#[derive(Clone, Copy, Debug, PartialEq, Eq, Structural)]
pub struct DragOutcome {
    pub started_drag: bool,
    pub icon_follows_cursor: bool,
    pub despawn_icon: Option<u64>,
    /// Send this move and predict it locally.
    pub move_request: Option<InventoryMoveRequest>,
}

/// No drag in progress.
pub open spec fn idle_drag(icon: Option<u64>) -> DragState {
    DragState { dragging: false, from_slot: None, from_chest: false, stack: None, icon_entity: icon }
}

/// The drag state after the chest handler's "start" step.
pub open spec fn chest_after_start(d: DragState, f: ChestFrame) -> DragState {
    if !d.dragging && f.left_just_pressed && f.hovered_chest_slot is Some
        && f.hovered_chest_stack is Some {
        DragState {
            dragging: true,
            from_slot: f.hovered_chest_slot,
            from_chest: true,
            stack: f.hovered_chest_stack,
            icon_entity: d.icon_entity,
        }
    } else {
        d
    }
}

/// Whether the chest handler ends the drag in this frame.
pub open spec fn chest_ends_drag(d: DragState, f: ChestFrame) -> bool {
    let s = chest_after_start(d, f);
    s.dragging && f.left_just_released && (s.from_chest || f.hovered_chest_slot is Some)
}

/// The transfer that ending a drag sends.
pub open spec fn chest_transfer_for(s: DragState, f: ChestFrame) -> Option<ChestTransferRequest> {
    match s.from_slot {
        None => None,
        Some(from) => if s.from_chest {
            match f.hovered_inv_slot {
                Some(to) => Some(ChestTransferRequest { from_chest: true, from_slot: from as u8, to_slot: to as u8 }),
                None => None,
            }
        } else {
            match f.hovered_chest_slot {
                Some(to) => Some(ChestTransferRequest { from_chest: false, from_slot: from as u8, to_slot: to as u8 }),
                None => None,
            }
        },
    }
}

/// One frame of chest drag handling: the new drag state and the outcome.
pub open spec fn chest_frame_step(d: DragState, f: ChestFrame) -> (DragState, ChestFrameOutcome) {
    let none = ChestFrameOutcome { started_drag: false, icon_follows_cursor: false, despawn_icon: None, transfer: None };
    if !f.inventory_open || !f.chest_available {
        (d, none)
    } else {
        let s = chest_after_start(d, f);
        let started = s.dragging && !d.dragging;
        let follows = s.dragging && s.from_chest;
        if chest_ends_drag(d, f) {
            (idle_drag(None), ChestFrameOutcome {
                started_drag: started,
                icon_follows_cursor: follows,
                despawn_icon: s.icon_entity,
                transfer: chest_transfer_for(s, f),
            })
        } else {
            (s, ChestFrameOutcome { started_drag: started, icon_follows_cursor: follows, despawn_icon: None, transfer: None })
        }
    }
}

/// Handles chest slot interactions: starting a drag from a chest slot, and
/// ending any drag that leaves or enters the chest with a transfer request.
/// Runs before the inventory handler, so chest clicks take priority.
pub fn handle_chest_slot_interactions(drag: &mut DragState, frame: &ChestFrame) -> (out: ChestFrameOutcome)
    ensures
        (*final(drag), out) == chest_frame_step(*old(drag), *frame),
{
    let mut out = ChestFrameOutcome { started_drag: false, icon_follows_cursor: false, despawn_icon: None, transfer: None };
    if !frame.inventory_open || !frame.chest_available {
        return out;
    }
    // Start a drag from the hovered chest slot.
    if !drag.dragging && frame.left_just_pressed {
        if let Some(from) = frame.hovered_chest_slot {
            if let Some(stack) = frame.hovered_chest_stack {
                drag.dragging = true;
                drag.from_slot = Some(from);
                drag.from_chest = true;
                drag.stack = Some(stack);
                out.started_drag = true;
            }
        }
    }
    if drag.dragging && drag.from_chest {
        out.icon_follows_cursor = true;
    }
    // End a drag that concerns the chest.
    if drag.dragging && frame.left_just_released {
        let from_chest = drag.from_chest;
        let from_slot = drag.from_slot;
        let should_handle = from_chest || frame.hovered_chest_slot.is_some();
        if !should_handle {
            return out;
        }
        out.despawn_icon = drag.icon_entity;
        drag.icon_entity = None;
        drag.dragging = false;
        drag.from_slot = None;
        drag.from_chest = false;
        drag.stack = None;
        let from_slot = match from_slot {
            Some(s) => s,
            None => return out,
        };
        if from_chest {
            if let Some(to_slot) = frame.hovered_inv_slot {
                out.transfer = Some(ChestTransferRequest {
                    from_chest: true,
                    from_slot: from_slot as u8,
                    to_slot: to_slot as u8,
                });
            }
        } else {
            if let Some(to_slot) = frame.hovered_chest_slot {
                out.transfer = Some(ChestTransferRequest {
                    from_chest: false,
                    from_slot: from_slot as u8,
                    to_slot: to_slot as u8,
                });
            }
        }
    }
    out
}

/// One frame of inventory drag handling: the new drag state and the outcome.
pub open spec fn drag_frame_step(d: DragState, f: InventoryFrame) -> (DragState, DragOutcome) {
    let none = DragOutcome { started_drag: false, icon_follows_cursor: false, despawn_icon: None, move_request: None };
    if !f.inventory_open {
        (idle_drag(None), none)
    } else if !d.dragging && f.left_just_pressed && !f.hovering_chest
        && (f.hovered_slot is None || !f.inventory_present) {
        // A click that starts nowhere ends the frame's handling.
        (d, none)
    } else {
        let starts = !d.dragging && f.left_just_pressed && !f.hovering_chest && f.hovered_stack is Some;
        let s = if starts {
            DragState {
                dragging: true,
                from_slot: f.hovered_slot,
                from_chest: false,
                stack: f.hovered_stack,
                icon_entity: d.icon_entity,
            }
        } else {
            d
        };
        let follows = s.dragging && !s.from_chest;
        if s.dragging && !s.from_chest && f.left_just_released {
            match s.from_slot {
                None => (
                    DragState { dragging: false, from_chest: false, ..s },
                    DragOutcome { started_drag: starts, icon_follows_cursor: follows, despawn_icon: None, move_request: None },
                ),
                Some(from) => if f.hovering_chest {
                    // Dropping onto the chest is the chest handler's business.
                    (s, DragOutcome { started_drag: starts, icon_follows_cursor: follows, despawn_icon: None, move_request: None })
                } else {
                    let mv = match f.hovered_slot {
                        Some(to) => if to != from {
                            Some(InventoryMoveRequest { from: from as u8, to: to as u8 })
                        } else {
                            None
                        },
                        None => None,
                    };
                    (idle_drag(None), DragOutcome {
                        started_drag: starts,
                        icon_follows_cursor: follows,
                        despawn_icon: s.icon_entity,
                        move_request: mv,
                    })
                },
            }
        } else {
            (s, DragOutcome { started_drag: starts, icon_follows_cursor: follows, despawn_icon: None, move_request: None })
        }
    }
}

/// Handles left-click drag and drop inside the inventory: starting a drag
/// from an occupied inventory slot and dropping it onto another slot.
/// Closing the inventory forgets any drag in progress.
pub fn handle_drag_and_drop(drag: &mut DragState, frame: &InventoryFrame) -> (out: DragOutcome)
    ensures
        (*final(drag), out) == drag_frame_step(*old(drag), *frame),
{
    let mut out = DragOutcome { started_drag: false, icon_follows_cursor: false, despawn_icon: None, move_request: None };
    if !frame.inventory_open {
        drag.dragging = false;
        drag.from_slot = None;
        drag.from_chest = false;
        drag.stack = None;
        drag.icon_entity = None;
        return out;
    }
    // Start a drag (only from inventory slots, not while over the chest).
    if !drag.dragging && frame.left_just_pressed && !frame.hovering_chest {
        let from = match frame.hovered_slot {
            Some(f) => f,
            None => return out,
        };
        if !frame.inventory_present {
            return out;
        }
        if let Some(stack) = frame.hovered_stack {
            drag.dragging = true;
            drag.from_slot = Some(from);
            drag.from_chest = false;
            drag.stack = Some(stack);
            out.started_drag = true;
        }
    }
    if drag.dragging && !drag.from_chest {
        out.icon_follows_cursor = true;
    }
    // End an inventory-to-inventory drag.
    if drag.dragging && !drag.from_chest && frame.left_just_released {
        let from = match drag.from_slot {
            Some(f) => f,
            None => {
                drag.dragging = false;
                drag.from_chest = false;
                return out;
            },
        };
        if !frame.hovering_chest {
            if let Some(to) = frame.hovered_slot {
                if to != from {
                    out.move_request = Some(InventoryMoveRequest { from: from as u8, to: to as u8 });
                }
            }
            out.despawn_icon = drag.icon_entity;
            drag.icon_entity = None;
            drag.dragging = false;
            drag.from_slot = None;
            drag.from_chest = false;
            drag.stack = None;
        }
    }
    out
}

/// Dropping an inventory drag onto another inventory slot (not over the
/// chest) asks to move the items of the slot the drag started from onto the
/// hovered slot, and ends the drag; dropping it back onto its own slot, or
/// off any slot, asks for no move.
pub proof fn lemma_drop_moves_source_onto_target(d: DragState, f: InventoryFrame, from: usize, to: usize)
    requires
        f.inventory_open,
        d.dragging,
        !d.from_chest,
        d.from_slot == Some(from),
        f.left_just_released,
        !f.hovering_chest,
    ensures
        !drag_frame_step(d, f).0.dragging,
        drag_frame_step(d, f).0.from_slot is None,
        f.hovered_slot == Some(to) && to != from ==> {
            &&& drag_frame_step(d, f).1.move_request matches Some(m)
            &&& m.from == from as u8
            &&& m.to == to as u8
        },
        (f.hovered_slot is None || f.hovered_slot == Some(from)) ==> drag_frame_step(d, f).1.move_request is None,
{
}

/// Pressing the left button over an occupied inventory slot (not over the
/// chest, with no drag in progress and the inventory present) starts a drag
/// from that slot, carrying its items.
pub proof fn lemma_press_starts_drag_from_hovered_slot(d: DragState, f: InventoryFrame, slot: usize, stack: ItemStack)
    requires
        f.inventory_open,
        !d.dragging,
        f.left_just_pressed,
        !f.left_just_released,
        !f.hovering_chest,
        f.inventory_present,
        f.hovered_slot == Some(slot),
        f.hovered_stack == Some(stack),
    ensures
        drag_frame_step(d, f).0.dragging,
        drag_frame_step(d, f).0.from_slot == Some(slot),
        !drag_frame_step(d, f).0.from_chest,
        drag_frame_step(d, f).0.stack == Some(stack),
        drag_frame_step(d, f).1.started_drag,
        drag_frame_step(d, f).1.move_request is None,
{
}

/// Dropping a drag that started in chest slot `from` onto inventory slot
/// `to` asks to move the chest slot's items to that inventory slot; dropping
/// an inventory drag from slot `from` onto chest slot `to` asks to move the
/// inventory slot's items into that chest slot. Either way the drag ends.
pub proof fn lemma_chest_drop_transfers_source_to_target(d: DragState, f: ChestFrame, from: usize, to: usize)
    requires
        f.inventory_open,
        f.chest_available,
        d.dragging,
        d.from_slot == Some(from),
        f.left_just_released,
    ensures
        d.from_chest && f.hovered_inv_slot == Some(to) ==> {
            &&& chest_frame_step(d, f).1.transfer matches Some(t)
            &&& t.from_chest
            &&& t.from_slot == from as u8
            &&& t.to_slot == to as u8
            &&& !chest_frame_step(d, f).0.dragging
        },
        !d.from_chest && f.hovered_chest_slot == Some(to) ==> {
            &&& chest_frame_step(d, f).1.transfer matches Some(t)
            &&& !t.from_chest
            &&& t.from_slot == from as u8
            &&& t.to_slot == to as u8
            &&& !chest_frame_step(d, f).0.dragging
        },
        !d.from_chest && f.hovered_chest_slot is None ==> chest_frame_step(d, f) == (d, ChestFrameOutcome {
            started_drag: false,
            icon_follows_cursor: false,
            despawn_icon: None,
            transfer: None,
        }),
{
}

/// The chest and inventory handlers see the same frame of mouse input.
pub open spec fn frames_agree(cf: ChestFrame, df: InventoryFrame) -> bool {
    &&& cf.inventory_open == df.inventory_open
    &&& cf.left_just_pressed == df.left_just_pressed
    &&& cf.left_just_released == df.left_just_released
    &&& cf.hovered_inv_slot == df.hovered_slot
    &&& df.hovering_chest == (cf.hovered_chest_slot is Some)
}

/// Releasing the mouse button with the inventory open ends any drag, once both
/// handlers have run in their order (chest first). The one exception: a drag
/// that started in a chest which is no longer available stays in progress.
pub proof fn lemma_release_ends_drag(d: DragState, cf: ChestFrame, df: InventoryFrame)
    requires
        frames_agree(cf, df),
        cf.inventory_open,
        cf.left_just_released,
        cf.chest_available || (!df.hovering_chest && !(d.dragging && d.from_chest)),
    ensures
        !drag_frame_step(chest_frame_step(d, cf).0, df).0.dragging,
{
}

/// Closing the inventory forgets any drag, whatever the frame holds.
pub proof fn lemma_closed_inventory_forgets_drag(d: DragState, df: InventoryFrame)
    requires
        !df.inventory_open,
    ensures
        drag_frame_step(d, df).0 == idle_drag(None),
        drag_frame_step(d, df).1.move_request is None,
{
}

/// Whether the inventory window is open.
#[derive(Clone, Copy, Debug, PartialEq, Eq, Structural)]
pub struct InventoryOpen(pub bool);

/// The inventory after one frame of the toggle keys, and the cursor mode to
/// apply (the last one wins when both keys act in the same frame).
pub open spec fn toggle_inventory_spec(open: bool, playing: bool, i_just_pressed: bool, escape_just_pressed: bool) -> (bool, Option<CursorGrab>) {
    if !playing {
        (open, None)
    } else {
        let open1 = if i_just_pressed { !open } else { open };
        let cursor1 = if i_just_pressed {
            Some(if open1 { CursorGrab::Free } else { CursorGrab::Locked })
        } else {
            None
        };
        if escape_just_pressed && open1 {
            (false, Some(CursorGrab::Locked))
        } else {
            (open1, cursor1)
        }
    }
}

/// The input flags with the inventory flag set to `open`.
pub open spec fn with_inventory_flag(f: InputFlags, open: bool) -> InputFlags {
    InputFlags { inventory_open: open, ..f }
}

/// Toggles the inventory with I and closes it with Escape, only while
/// playing; the input state's inventory flag follows each change. Returns
/// the cursor mode to apply, if any: free while the inventory is open,
/// locked again when it closes.
pub fn toggle_inventory(inventory_open: &mut InventoryOpen, input_state: &mut InputFlags, playing: bool, i_just_pressed: bool, escape_just_pressed: bool) -> (cursor: Option<CursorGrab>)
    ensures
        (final(inventory_open).0, cursor) == toggle_inventory_spec(old(inventory_open).0, playing, i_just_pressed, escape_just_pressed),
        playing && (i_just_pressed || (escape_just_pressed && old(inventory_open).0))
            ==> *final(input_state) == with_inventory_flag(*old(input_state), final(inventory_open).0),
        !(playing && (i_just_pressed || (escape_just_pressed && old(inventory_open).0)))
            ==> *final(input_state) == *old(input_state),
{
    if !playing {
        return None;
    }
    let mut cursor = None;
    let mut written = false;
    if i_just_pressed {
        inventory_open.0 = !inventory_open.0;
        written = true;
        cursor = Some(if inventory_open.0 { CursorGrab::Free } else { CursorGrab::Locked });
    }
    if escape_just_pressed && inventory_open.0 {
        inventory_open.0 = false;
        written = true;
        cursor = Some(CursorGrab::Locked);
    }
    if written {
        input_state.inventory_open = inventory_open.0;
    }
    cursor
}

/// Pressing I twice (without Escape) leaves the inventory as it was.
pub proof fn lemma_inventory_toggle_twice(open: bool)
    ensures
        toggle_inventory_spec(toggle_inventory_spec(open, true, true, false).0, true, true, false).0 == open,
{
}

/// Escape always leaves the inventory closed while playing.
pub proof fn lemma_escape_closes_inventory(open: bool, i_just_pressed: bool)
    ensures
        !toggle_inventory_spec(open, true, i_just_pressed, true).0,
{
}

/// Slot background.
#[derive(Clone, Copy, Debug, PartialEq, Eq, Structural)]
pub enum SlotBackground {
    Hovered,
    Filled,
    Empty,
}

/// Slot border highlight.
#[derive(Clone, Copy, Debug, PartialEq, Eq, Structural)]
pub enum SlotBorder {
    /// The selected hotbar slot.
    Active,
    /// The slot a drag started from.
    DragSource,
    /// A slot of the hotbar row.
    Hotbar,
    /// Any other inventory slot.
    Plain,
    /// A chest slot.
    Chest,
}

/// What one slot shows: background, border, icon item and quantity text.
#[derive(Debug)]
pub struct SlotVisual {
    pub background: SlotBackground,
    pub border: SlotBorder,
    pub icon: Option<ItemType>,
    pub quantity_text: String,
}

/// One slot as the UI sees it.
#[derive(Clone, Copy, Debug, PartialEq, Eq, Structural)]
pub struct SlotView {
    pub index: usize,
    pub contents: Option<ItemStack>,
    /// Hovered or pressed.
    pub hovered: bool,
}

/// The background a slot shows.
pub open spec fn slot_background_spec(v: SlotView) -> SlotBackground {
    if v.hovered {
        SlotBackground::Hovered
    } else if v.contents is Some {
        SlotBackground::Filled
    } else {
        SlotBackground::Empty
    }
}

/// The quantity text of a slot: its count, or nothing when empty.
pub open spec fn quantity_text_spec(c: Option<ItemStack>) -> Seq<char> {
    match c {
        Some(stack) => decimal_chars(stack.quantity as nat),
        None => Seq::<char>::empty(),
    }
}

fn slot_common(v: &SlotView) -> (r: (SlotBackground, Option<ItemType>, String))
    ensures
        r.0 == slot_background_spec(*v),
        r.1 == (match v.contents { Some(s) => Some(s.item_type), None => None::<ItemType> }),
        r.2@ == quantity_text_spec(v.contents),
{
    let bg = if v.hovered {
        SlotBackground::Hovered
    } else if v.contents.is_some() {
        SlotBackground::Filled
    } else {
        SlotBackground::Empty
    };
    match v.contents {
        Some(stack) => (bg, Some(stack.item_type), decimal_string(stack.quantity as u64)),
        None => (bg, None, String::new()),
    }
}

/// The border of an inventory slot: the active hotbar slot first, then the
/// slot being dragged from, then the hotbar row, else plain.
pub open spec fn inventory_border_spec(index: usize, active_hotbar: Option<usize>, drag: DragState, hotbar_slots: usize) -> SlotBorder {
    if active_hotbar == Some(index) {
        SlotBorder::Active
    } else if drag.dragging && drag.from_slot == Some(index) {
        SlotBorder::DragSource
    } else if index < hotbar_slots {
        SlotBorder::Hotbar
    } else {
        SlotBorder::Plain
    }
}

/// Computes what each inventory slot shows, in the order given.
pub fn update_inventory_slots(slots: &Vec<SlotView>, active_hotbar: Option<usize>, drag: &DragState, hotbar_slots: usize) -> (r: Vec<SlotVisual>)
    ensures
        r.len() == slots.len(),
        forall|i: int| 0 <= i < slots.len() ==> {
            &&& #[trigger] r[i].background == slot_background_spec(slots[i])
            &&& r[i].border == inventory_border_spec(slots[i].index, active_hotbar, *drag, hotbar_slots)
            &&& r[i].icon == (match slots[i].contents { Some(s) => Some(s.item_type), None => None::<ItemType> })
            &&& r[i].quantity_text@ == quantity_text_spec(slots[i].contents)
        },
{
    let mut r: Vec<SlotVisual> = Vec::new();
    let mut i: usize = 0;
    while i < slots.len()
        invariant
            0 <= i <= slots.len(),
            r.len() == i,
            forall|j: int| 0 <= j < i ==> {
                &&& #[trigger] r[j].background == slot_background_spec(slots[j])
                &&& r[j].border == inventory_border_spec(slots[j].index, active_hotbar, *drag, hotbar_slots)
                &&& r[j].icon == (match slots[j].contents { Some(s) => Some(s.item_type), None => None::<ItemType> })
                &&& r[j].quantity_text@ == quantity_text_spec(slots[j].contents)
            },
        decreases slots.len() - i,
    {
        let v = &slots[i];
        let (background, icon, quantity_text) = slot_common(v);
        let is_active = match active_hotbar { Some(a) => a == v.index, None => false };
        let is_drag_from = drag.dragging && match drag.from_slot { Some(f) => f == v.index, None => false };
        let border = if is_active {
            SlotBorder::Active
        } else if is_drag_from {
            SlotBorder::DragSource
        } else if v.index < hotbar_slots {
            SlotBorder::Hotbar
        } else {
            SlotBorder::Plain
        };
        r.push(SlotVisual { background, border, icon, quantity_text });
        i += 1;
    }
    r
}

/// The border of a chest slot: highlighted while a chest drag starts from it.
pub open spec fn chest_border_spec(index: usize, drag: DragState) -> SlotBorder {
    if drag.dragging && drag.from_chest && drag.from_slot == Some(index) {
        SlotBorder::DragSource
    } else {
        SlotBorder::Chest
    }
}

/// Computes what each chest slot shows, in the order given.
pub fn update_chest_slots(slots: &Vec<SlotView>, drag: &DragState) -> (r: Vec<SlotVisual>)
    ensures
        r.len() == slots.len(),
        forall|i: int| 0 <= i < slots.len() ==> {
            &&& #[trigger] r[i].background == slot_background_spec(slots[i])
            &&& r[i].border == chest_border_spec(slots[i].index, *drag)
            &&& r[i].icon == (match slots[i].contents { Some(s) => Some(s.item_type), None => None::<ItemType> })
            &&& r[i].quantity_text@ == quantity_text_spec(slots[i].contents)
        },
{
    let mut r: Vec<SlotVisual> = Vec::new();
    let mut i: usize = 0;
    while i < slots.len()
        invariant
            0 <= i <= slots.len(),
            r.len() == i,
            forall|j: int| 0 <= j < i ==> {
                &&& #[trigger] r[j].background == slot_background_spec(slots[j])
                &&& r[j].border == chest_border_spec(slots[j].index, *drag)
                &&& r[j].icon == (match slots[j].contents { Some(s) => Some(s.item_type), None => None::<ItemType> })
                &&& r[j].quantity_text@ == quantity_text_spec(slots[j].contents)
            },
        decreases slots.len() - i,
    {
        let v = &slots[i];
        let (background, icon, quantity_text) = slot_common(v);
        let is_drag_from = drag.dragging && drag.from_chest && match drag.from_slot { Some(f) => f == v.index, None => false };
        let border = if is_drag_from { SlotBorder::DragSource } else { SlotBorder::Chest };
        r.push(SlotVisual { background, border, icon, quantity_text });
        i += 1;
    }
    r
}

/// The slots a right click asks to drop: every hovered slot that holds items,
/// in the order given; nothing unless the inventory is open and the right
/// button was just pressed.
pub open spec fn drop_slots_spec(slots: Seq<SlotView>, open: bool, right_just_pressed: bool) -> Seq<usize>
    decreases slots.len(),
{
    if !open || !right_just_pressed || slots.len() == 0 {
        Seq::empty()
    } else {
        let rest = drop_slots_spec(slots.drop_last(), open, right_just_pressed);
        let v = slots.last();
        if v.hovered && v.contents is Some { rest.push(v.index) } else { rest }
    }
}

/// Right-click on an occupied slot asks the server to drop its items.
pub fn handle_slot_interactions(slots: &Vec<SlotView>, inventory_open: bool, right_just_pressed: bool) -> (drops: Vec<usize>)
    ensures
        drops@ == drop_slots_spec(slots@, inventory_open, right_just_pressed),
{
    let mut drops: Vec<usize> = Vec::new();
    if !inventory_open || !right_just_pressed {
        return drops;
    }
    let mut i: usize = 0;
    while i < slots.len()
        invariant
            0 <= i <= slots.len(),
            inventory_open && right_just_pressed,
            drops@ == drop_slots_spec(slots@.take(i as int), inventory_open, right_just_pressed),
        decreases slots.len() - i,
    {
        let v = &slots[i];
        assert(slots@.take(i + 1).drop_last() =~= slots@.take(i as int));
        if v.hovered && v.contents.is_some() {
            drops.push(v.index);
        }
        i += 1;
    }
    assert(slots@.take(slots.len() as int) =~= slots@);
    drops
}

/// A slot's look: a hovered slot is highlighted, otherwise an occupied slot
/// looks filled and an empty one empty; its text is its item count, empty
/// for an empty slot. The selected hotbar slot has the active border; the
/// slot a drag started from is marked as its source; other hotbar slots
/// have the hotbar border. A chest slot is marked only as the source of a
/// drag from the chest.
pub proof fn lemma_slot_looks(v: SlotView, index: usize, active: Option<usize>, drag: DragState, hotbar_slots: usize)
    ensures
        v.hovered ==> slot_background_spec(v) == SlotBackground::Hovered,
        !v.hovered && v.contents is Some ==> slot_background_spec(v) == SlotBackground::Filled,
        !v.hovered && v.contents is None ==> slot_background_spec(v) == SlotBackground::Empty,
        v.contents is None ==> quantity_text_spec(v.contents).len() == 0,
        v.contents matches Some(st) ==> quantity_text_spec(v.contents) == decimal_chars(st.quantity as nat),
        active == Some(index) ==> inventory_border_spec(index, active, drag, hotbar_slots) == SlotBorder::Active,
        active != Some(index) && drag.dragging && drag.from_slot == Some(index)
            ==> inventory_border_spec(index, active, drag, hotbar_slots) == SlotBorder::DragSource,
        active != Some(index) && !(drag.dragging && drag.from_slot == Some(index)) && index < hotbar_slots
            ==> inventory_border_spec(index, active, drag, hotbar_slots) == SlotBorder::Hotbar,
        active != Some(index) && !(drag.dragging && drag.from_slot == Some(index)) && index >= hotbar_slots
            ==> inventory_border_spec(index, active, drag, hotbar_slots) == SlotBorder::Plain,
        (chest_border_spec(index, drag) == SlotBorder::DragSource) == (drag.dragging && drag.from_chest && drag.from_slot == Some(index)),
{
}

/// A right click with the inventory open drops the items of exactly the
/// hovered occupied slots, in the order given; without it nothing drops.
pub proof fn lemma_right_click_drops_hovered_items(slots: Seq<SlotView>, open: bool, right_just_pressed: bool)
    ensures
        !open || !right_just_pressed ==> drop_slots_spec(slots, open, right_just_pressed).len() == 0,
        open && right_just_pressed ==> drop_slots_spec(slots, open, right_just_pressed)
            == slots.filter(|v: SlotView| v.hovered && v.contents is Some).map_values(|v: SlotView| v.index),
    decreases slots.len(),
{
    if open && right_just_pressed && slots.len() > 0 {
        let pred = |v: SlotView| v.hovered && v.contents is Some;
        lemma_right_click_drops_hovered_items(slots.drop_last(), open, right_just_pressed);
        assert(slots.drop_last().push(slots.last()) =~= slots);
        slots.drop_last().lemma_filter_push(slots.last(), pred);
        let f = slots.drop_last().filter(pred);
        assert(f.push(slots.last()).map_values(|v: SlotView| v.index) =~= f.map_values(|v: SlotView| v.index).push(slots.last().index));
    } else if open && right_just_pressed {
        assert(slots.filter(|v: SlotView| v.hovered && v.contents is Some) =~= Seq::<SlotView>::empty()) by {
            broadcast use vstd::seq_lib::group_filter_ensures;
        }
    }
}

/// While playing, I opens a closed inventory (freeing the cursor) and closes
/// an open one (locking it); without I or Escape nothing changes; outside
/// play the keys do nothing.
pub proof fn lemma_i_switches_inventory(open: bool, playing: bool, escape: bool)
    ensures
        toggle_inventory_spec(open, true, true, false) == (!open, Some(if !open { CursorGrab::Free } else { CursorGrab::Locked })),
        toggle_inventory_spec(open, true, false, false) == (open, None::<CursorGrab>),
        toggle_inventory_spec(open, false, true, escape) == (open, None::<CursorGrab>),
        toggle_inventory_spec(true, true, false, true) == (false, Some(CursorGrab::Locked)),
{
}

} // verus!
