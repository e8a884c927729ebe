//! Interaction state: trigger edges, hover and selection of node markers, and the panels
//! and cameras that follow them. Entities are identified by their `u64` bits.

use vstd::prelude::*;

verus! {

/// Trigger input state from the VR controller.
#[derive(Clone, Copy, Debug, PartialEq, Eq)]
pub struct TriggerInput {
    pub right_trigger_pressed: bool,
    pub right_trigger_just_pressed: bool,
    previous_pressed: bool,
}

impl TriggerInput {
    /// Whether the trigger was pressed at the previous update.
    pub closed spec fn was_pressed(&self) -> bool {
        self.previous_pressed
    }

    /// Whether the trigger is pressed (`right_trigger_pressed`).
    pub closed spec fn pressed(&self) -> bool {
        self.right_trigger_pressed
    }

    /// Whether the trigger went down at the last update (`right_trigger_just_pressed`).
    pub closed spec fn just_pressed(&self) -> bool {
        self.right_trigger_just_pressed
    }

    /// Whether the trigger is pressed.
    pub fn is_pressed(&self) -> (r: bool)
        ensures
            r == self.pressed(),
    {
        self.right_trigger_pressed
    }

    /// Whether the trigger went down at the last update.
    pub fn is_just_pressed(&self) -> (r: bool)
        ensures
            r == self.just_pressed(),
    {
        self.right_trigger_just_pressed
    }

    /// Nothing pressed yet.
    pub fn new() -> (t: TriggerInput)
        ensures
            !t.pressed(),
            !t.just_pressed(),
            !t.was_pressed(),
    {
        TriggerInput {
            right_trigger_pressed: false,
            right_trigger_just_pressed: false,
            previous_pressed: false,
        }
    }

    /// Records this frame's trigger state: "just pressed" exactly when it is pressed now and
    /// was not at the previous update.
    pub fn update(&mut self, current_pressed: bool)
        ensures
            final(self).pressed() == current_pressed,
            final(self).just_pressed() == (current_pressed && !old(self).was_pressed()),
            final(self).was_pressed() == current_pressed,
    {
        self.right_trigger_just_pressed = current_pressed && !self.previous_pressed;
        self.right_trigger_pressed = current_pressed;
        self.previous_pressed = current_pressed;
    }
}

impl Default for TriggerInput {
    /// Nothing pressed yet.
    fn default() -> (t: TriggerInput)
        ensures
            !t.pressed(),
            !t.just_pressed(),
            !t.was_pressed(),
    {
        TriggerInput::new()
    }
}

/// Which entity is hovered by the pointer ray.
#[derive(Clone, Copy, Debug, PartialEq, Eq, Default)]
pub struct HoverState {
    pub hovered_entity: Option<u64>,
    pub previous_hovered: Option<u64>,
}

/// What changes on the entities when the hover moves: which loses its `Hovered` marker and
/// which gains it.
#[derive(Clone, Copy, Debug, PartialEq, Eq)]
pub struct HoverChange {
    pub unhover: Option<u64>,
    pub hover: Option<u64>,
}

impl HoverState {
    /// Follows the ray hit: a hit node marker becomes hovered; anything else hovers
    /// nothing. The previous entity loses its marker unless it stays hovered, and a newly
    /// hovered entity gains it.
    pub fn update(&mut self, hit: Option<u64>, hit_is_marker: bool) -> (c: HoverChange)
        ensures
            final(self).previous_hovered == old(self).hovered_entity,
            final(self).hovered_entity == if hit is Some && hit_is_marker {
                hit
            } else {
                None
            },
            c.hover == if hit is Some && hit_is_marker && old(self).hovered_entity != hit {
                hit
            } else {
                None
            },
            c.unhover == if final(self).hovered_entity != old(self).hovered_entity {
                old(self).hovered_entity
            } else {
                None
            },
    {
        self.previous_hovered = self.hovered_entity;
        match hit {
            Some(entity) => {
                if hit_is_marker {
                    self.hovered_entity = Some(entity);
                    if self.previous_hovered != Some(entity) {
                        return HoverChange { unhover: self.previous_hovered, hover: Some(entity) };
                    }
                    HoverChange { unhover: None, hover: None }
                } else {
                    self.hovered_entity = None;
                    HoverChange { unhover: self.previous_hovered, hover: None }
                }
            },
            None => {
                self.hovered_entity = None;
                HoverChange { unhover: self.previous_hovered, hover: None }
            },
        }
    }
}

/// Which entity is selected.
#[derive(Clone, Copy, Debug, PartialEq, Eq, Default)]
pub struct SelectionState {
    pub selected_entity: Option<u64>,
}

/// What changes on the entities when the selection moves.
#[derive(Clone, Copy, Debug, PartialEq, Eq)]
pub struct SelectionChange {
    pub deselect: Option<u64>,
    pub select: Option<u64>,
}

impl SelectionState {
    /// A trigger press selects the hovered entity, and the previously selected one, if
    /// different, loses its marker. Without a press or a hovered entity nothing changes.
    pub fn update(&mut self, trigger_just_pressed: bool, hovered: Option<u64>) -> (c: SelectionChange)
        ensures
            (trigger_just_pressed && hovered is Some) ==> final(self).selected_entity == hovered
                && c.select == hovered && c.deselect == if old(self).selected_entity is Some
                && old(self).selected_entity != hovered {
                old(self).selected_entity
            } else {
                None
            },
            !(trigger_just_pressed && hovered is Some) ==> *final(self) == *old(self) && c.select
                is None && c.deselect is None,
    {
        if trigger_just_pressed {
            if let Some(h) = hovered {
                let deselect = match self.selected_entity {
                    Some(p) => if p != h {
                        Some(p)
                    } else {
                        None
                    },
                    None => None,
                };
                self.selected_entity = Some(h);
                return SelectionChange { deselect, select: Some(h) };
            }
        }
        SelectionChange { deselect: None, select: None }
    }
}

/// Which detail panels go and whether one is needed for the selected node.
#[derive(Clone, Debug)]
pub struct DetailPanelPlan {
    pub despawn: Vec<u64>,
    pub spawn_for: Option<u64>,
}

/// The panels (of `(panel, node)` pairs) that do not belong to the selected node.
pub open spec fn panels_to_despawn(panels: Seq<(u64, u64)>, selected: Option<u64>) -> Seq<u64>
    decreases panels.len(),
{
    if panels.len() == 0 {
        Seq::empty()
    } else {
        let rest = panels_to_despawn(panels.drop_last(), selected);
        if Some(panels.last().1) != selected {
            rest.push(panels.last().0)
        } else {
            rest
        }
    }
}

/// Some panel belongs to `node`.
pub open spec fn has_panel_for(panels: Seq<(u64, u64)>, node: u64) -> bool {
    exists|i: int| 0 <= i < panels.len() && (#[trigger] panels[i]).1 == node
}

/// Plans the detail panels after a selection change: every panel not for the selected
/// node goes, and a panel is wanted for the selected node when it has none yet.
pub fn plan_detail_panels(panels: &Vec<(u64, u64)>, selected: Option<u64>) -> (r: DetailPanelPlan)
    ensures
        r.despawn@ == panels_to_despawn(panels@, selected),
        r.spawn_for == match selected {
            Some(s) => if has_panel_for(panels@, s) {
                None
            } else {
                Some(s)
            },
            None => None,
        },
{
    let mut despawn: Vec<u64> = Vec::new();
    let mut already = false;
    let mut i: usize = 0;
    while i < panels.len()
        invariant
            i <= panels.len(),
            despawn@ == panels_to_despawn(panels@.take(i as int), selected),
            selected matches Some(s) ==> (already <==> has_panel_for(panels@.take(i as int), s)),
        decreases panels.len() - i,
    {
        let (panel, node) = panels[i];
        assert(panels@.take(i + 1).drop_last() == panels@.take(i as int));
        assert(panels@.take(i + 1).last() == panels@[i as int]);
        if Some(node) != selected {
            despawn.push(panel);
        } else {
            already = true;
            assert(panels@.take(i + 1)[i as int].1 == node);
        }
        proof {
            if let Some(s) = selected {
                if has_panel_for(panels@.take(i + 1), s) && !has_panel_for(panels@.take(i as int), s) {
                    let j = choose|j: int| 0 <= j < i + 1 && (#[trigger] panels@.take(i + 1)[j]).1 == s;
                    if j < i {
                        assert(panels@.take(i as int)[j] == panels@.take(i + 1)[j]);
                    }
                }
                if has_panel_for(panels@.take(i as int), s) {
                    let j = choose|j: int| 0 <= j < i && (#[trigger] panels@.take(i as int)[j]).1 == s;
                    assert(panels@.take(i as int)[j] == panels@.take(i + 1)[j]);
                }
            }
        }
        i += 1;
    }
    assert(panels@.take(panels.len() as int) == panels@);
    let spawn_for = match selected {
        Some(s) => if already {
            None
        } else {
            Some(s)
        },
        None => None,
    };
    DetailPanelPlan { despawn, spawn_for }
}

/// The cameras (of `(camera, panel)` pairs) whose panel is not among `panels`.
pub open spec fn orphaned(cameras: Seq<(u64, u64)>, panels: Seq<u64>) -> Seq<u64>
    decreases cameras.len(),
{
    if cameras.len() == 0 {
        Seq::empty()
    } else {
        let rest = orphaned(cameras.drop_last(), panels);
        if panels.contains(cameras.last().1) {
            rest
        } else {
            rest.push(cameras.last().0)
        }
    }
}

/// The UI cameras whose panel no longer exists, in order.
pub fn orphaned_ui_cameras(cameras: &Vec<(u64, u64)>, panels: &Vec<u64>) -> (r: Vec<u64>)
    ensures
        r@ == orphaned(cameras@, panels@),
{
    let mut out: Vec<u64> = Vec::new();
    let mut i: usize = 0;
    while i < cameras.len()
        invariant
            i <= cameras.len(),
            out@ == orphaned(cameras@.take(i as int), panels@),
        decreases cameras.len() - i,
    {
        let (camera, panel) = cameras[i];
        assert(cameras@.take(i + 1).drop_last() == cameras@.take(i as int));
        assert(cameras@.take(i + 1).last() == cameras@[i as int]);
        let mut found = false;
        let mut j: usize = 0;
        while j < panels.len()
            invariant
                j <= panels.len(),
                found <==> panels@.take(j as int).contains(panel),
            decreases panels.len() - j,
        {
            if panels[j] == panel {
                found = true;
                assert(panels@.take(j + 1)[j as int] == panel);
            }
            proof {
                assert(panels@.take(j + 1) == panels@.take(j as int).push(panels@[j as int]));
                if panels@.take(j as int).contains(panel) {
                    let k = choose|k: int| 0 <= k < j && #[trigger] panels@.take(j as int)[k] == panel;
                    assert(panels@.take(j + 1)[k] == panel);
                }
                if panels@.take(j + 1).contains(panel) && panels@[j as int] != panel {
                    let k = choose|k: int| 0 <= k < j + 1 && #[trigger] panels@.take(j + 1)[k] == panel;
                    assert(panels@.take(j as int)[k] == panel);
                }
            }
            j += 1;
        }
        assert(panels@.take(panels.len() as int) == panels@);
        if !found {
            out.push(camera);
        }
        i += 1;
    }
    assert(cameras@.take(cameras.len() as int) == cameras@);
    out
}

} // verus!

verus! {

/// Law: after a selection change, the detail panels that stay are exactly those of the
/// selected node: a panel goes if and only if it belongs to another node (or nothing is
/// selected).
pub proof fn law_detail_panels_follow_selection(panels: Seq<(u64, u64)>, selected: Option<u64>)
    ensures
        forall|i: int|
            0 <= i < panels.len() && Some((#[trigger] panels[i]).1) != selected
                ==> panels_to_despawn(panels, selected).contains(panels[i].0),
        forall|k: int|
            0 <= k < panels_to_despawn(panels, selected).len() ==> exists|i: int|
                0 <= i < panels.len() && (#[trigger] panels[i]).0 == #[trigger] panels_to_despawn(
                    panels,
                    selected,
                )[k] && Some(panels[i].1) != selected,
    decreases panels.len(),
{
    if panels.len() > 0 {
        let init = panels.drop_last();
        law_detail_panels_follow_selection(init, selected);
        let rest = panels_to_despawn(init, selected);
        let d = panels_to_despawn(panels, selected);
        assert forall|i: int|
            0 <= i < panels.len() && Some((#[trigger] panels[i]).1) != selected implies d.contains(
            panels[i].0) by {
            if i < panels.len() - 1 {
                assert(init[i] == panels[i]);
                let k = choose|k: int| 0 <= k < rest.len() && rest[k] == init[i].0;
                assert(d[k] == rest[k]);
            } else {
                assert(d[d.len() - 1] == panels[i].0);
            }
        }
        assert forall|k: int| 0 <= k < d.len() implies exists|i: int|
            0 <= i < panels.len() && (#[trigger] panels[i]).0 == #[trigger] d[k] && Some(panels[i].1)
                != selected by {
            if k < rest.len() {
                assert(d[k] == rest[k]);
                let i = choose|i: int|
                    0 <= i < init.len() && (#[trigger] init[i]).0 == rest[k] && Some(init[i].1)
                        != selected;
                assert(panels[i] == init[i]);
            } else {
                assert(panels[panels.len() - 1].0 == d[k]);
            }
        }
    }
}

} // verus!
