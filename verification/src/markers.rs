//! Node markers: which material and which pulse animation each health state gets.

use vstd::prelude::*;
use crate::health::NodeHealth;

verus! {

/// The pre-made marker materials.
#[derive(Clone, Copy, Debug, PartialEq, Eq, Structural)]
pub enum MarkerMaterial {
    Healthy,
    Warning,
    Critical,
    Hover,
}

/// The pulse animations of unhealthy markers.
#[derive(Clone, Copy, Debug, PartialEq, Eq, Structural)]
pub enum PulseKind {
    /// Slow pulse
    Warning,
    /// Fast, wider pulse
    Critical,
}

/// The material a marker of the given health shows when not hovered.
pub open spec fn material_of(health: NodeHealth) -> MarkerMaterial {
    match health {
        NodeHealth::Healthy => MarkerMaterial::Healthy,
        NodeHealth::Warning => MarkerMaterial::Warning,
        NodeHealth::Critical => MarkerMaterial::Critical,
    }
}

/// The pulse a marker of the given health carries: none when healthy.
pub open spec fn pulse_of(health: NodeHealth) -> Option<PulseKind> {
    match health {
        NodeHealth::Healthy => None,
        NodeHealth::Warning => Some(PulseKind::Warning),
        NodeHealth::Critical => Some(PulseKind::Critical),
    }
}

/// The material a marker of the given health shows when not hovered.
pub fn marker_material(health: NodeHealth) -> (m: MarkerMaterial)
    ensures
        m == material_of(health),
        m != MarkerMaterial::Hover,
{
    match health {
        NodeHealth::Healthy => MarkerMaterial::Healthy,
        NodeHealth::Warning => MarkerMaterial::Warning,
        NodeHealth::Critical => MarkerMaterial::Critical,
    }
}

/// The pulse a marker of the given health carries: none when healthy.
pub fn marker_pulse(health: NodeHealth) -> (p: Option<PulseKind>)
    ensures
        p == pulse_of(health),
        p is None <==> health == NodeHealth::Healthy,
{
    match health {
        NodeHealth::Healthy => None,
        NodeHealth::Warning => Some(PulseKind::Warning),
        NodeHealth::Critical => Some(PulseKind::Critical),
    }
}

} // verus!

verus! {

/// The index of the first marker with id `id`.
pub open spec fn first_marker(ids: Seq<Seq<char>>, id: Seq<char>) -> Option<int>
    decreases ids.len(),
{
    if ids.len() == 0 {
        None
    } else if ids.last() == id && first_marker(ids.drop_last(), id) is None {
        Some(ids.len() - 1)
    } else {
        first_marker(ids.drop_last(), id)
    }
}

/// The marker healths after the node updates, in order: each update sets the health of the
/// first marker with the node's id, if there is one.
pub open spec fn healths_after(
    ids: Seq<Seq<char>>,
    healths: Seq<NodeHealth>,
    updates: Seq<(Seq<char>, NodeHealth)>,
) -> Seq<NodeHealth>
    decreases updates.len(),
{
    if updates.len() == 0 {
        healths
    } else {
        let prev = healths_after(ids, healths, updates.drop_last());
        match first_marker(ids, updates.last().0) {
            Some(j) => prev.update(j, updates.last().1),
            None => prev,
        }
    }
}

/// The index of the first marker with id `id`.
pub fn find_marker(ids: &Vec<String>, id: &str) -> (r: Option<usize>)
    ensures
        match r {
            Some(j) => j < ids@.len() && first_marker(crate::health::strings_view(ids@), id@) == Some(
                j as int,
            ),
            None => first_marker(crate::health::strings_view(ids@), id@) is None,
        },
{
    let ghost iv = crate::health::strings_view(ids@);
    let k = crate::text::chars_of(id);
    let mut i: usize = 0;
    while i < ids.len()
        invariant
            i <= ids.len(),
            iv == crate::health::strings_view(ids@),
            k@ == id@,
            first_marker(iv.take(i as int), id@) is None,
        decreases ids.len() - i,
    {
        assert(iv.take(i + 1).drop_last() == iv.take(i as int));
        assert(iv.take(i + 1).last() == ids@[i as int]@);
        if crate::health::vec_chars_eq(&crate::text::chars_of(ids[i].as_str()), &k) {
            proof {
                lemma_first_marker_prefix(iv, id@, i + 1);
            }
            return Some(i);
        }
        i += 1;
    }
    assert(iv.take(ids.len() as int) == iv);
    None
}

proof fn lemma_first_marker_prefix(ids: Seq<Seq<char>>, id: Seq<char>, n: int)
    requires
        0 < n <= ids.len(),
        first_marker(ids.take(n), id) == Some(n - 1),
    ensures
        first_marker(ids, id) == Some(n - 1),
    decreases ids.len() - n,
{
    if n < ids.len() {
        assert(ids.drop_last().take(n) == ids.take(n));
        lemma_first_marker_prefix(ids.drop_last(), id, n);
    } else {
        assert(ids.take(n) == ids);
    }
}

/// Applies node health updates to the markers (`ids[i]` has health `healths[i]`): each
/// update sets the health of the first marker with the node's id.
pub fn apply_health_updates(
    ids: &Vec<String>,
    healths: &mut Vec<NodeHealth>,
    updates: &Vec<(String, NodeHealth)>,
)
    requires
        old(healths)@.len() == ids@.len(),
    ensures
        final(healths)@ == healths_after(
            crate::health::strings_view(ids@),
            old(healths)@,
            updates@.map_values(|u: (String, NodeHealth)| (u.0@, u.1)),
        ),
{
    let ghost uv = updates@.map_values(|u: (String, NodeHealth)| (u.0@, u.1));
    let ghost iv = crate::health::strings_view(ids@);
    let mut k: usize = 0;
    while k < updates.len()
        invariant
            k <= updates.len(),
            uv == updates@.map_values(|u: (String, NodeHealth)| (u.0@, u.1)),
            iv == crate::health::strings_view(ids@),
            healths@.len() == ids@.len(),
            healths@ == healths_after(iv, old(healths)@, uv.take(k as int)),
        decreases updates.len() - k,
    {
        assert(uv.take(k + 1).drop_last() == uv.take(k as int));
        assert(uv.take(k + 1).last() == uv[k as int]);
        match find_marker(ids, updates[k].0.as_str()) {
            Some(j) => {
                healths.set(j, updates[k].1);
            },
            None => {},
        }
        k += 1;
    }
    assert(uv.take(updates.len() as int) == uv);
}

} // verus!

verus! {

proof fn lemma_first_marker_absent(ids: Seq<Seq<char>>, id: Seq<char>)
    ensures
        first_marker(ids, id) is None <==> forall|k: int| 0 <= k < ids.len() ==> ids[k] != id,
    decreases ids.len(),
{
    if ids.len() > 0 {
        lemma_first_marker_absent(ids.drop_last(), id);
        if first_marker(ids, id) is None {
            assert forall|k: int| 0 <= k < ids.len() implies ids[k] != id by {
                if k < ids.len() - 1 {
                    assert(ids.drop_last()[k] == ids[k]);
                }
            }
        }
        if forall|k: int| 0 <= k < ids.len() ==> ids[k] != id {
            assert(ids[ids.len() - 1] != id);
            assert forall|k: int| 0 <= k < ids.drop_last().len() implies ids.drop_last()[k] != id by {
                assert(ids.drop_last()[k] == ids[k]);
            }
        }
    }
}

proof fn lemma_first_marker_at(ids: Seq<Seq<char>>, id: Seq<char>, j: int)
    requires
        0 <= j < ids.len(),
        ids[j] == id,
        forall|k: int| 0 <= k < j ==> ids[k] != id,
    ensures
        first_marker(ids, id) == Some(j),
    decreases ids.len(),
{
    let init = ids.drop_last();
    if j == ids.len() - 1 {
        assert forall|k: int| 0 <= k < init.len() implies init[k] != id by {
            assert(init[k] == ids[k]);
        }
        lemma_first_marker_absent(init, id);
    } else {
        assert forall|k: int| 0 <= k < j implies init[k] != id by {
            assert(init[k] == ids[k]);
        }
        assert(init[j] == id);
        lemma_first_marker_at(init, id, j);
    }
}

proof fn lemma_first_marker_in_range(ids: Seq<Seq<char>>, id: Seq<char>)
    ensures
        first_marker(ids, id) matches Some(j) ==> 0 <= j < ids.len(),
    decreases ids.len(),
{
    if ids.len() > 0 {
        lemma_first_marker_in_range(ids.drop_last(), id);
    }
}

proof fn lemma_healths_after_len(
    ids: Seq<Seq<char>>,
    healths: Seq<NodeHealth>,
    updates: Seq<(Seq<char>, NodeHealth)>,
)
    requires
        healths.len() == ids.len(),
    ensures
        healths_after(ids, healths, updates).len() == ids.len(),
    decreases updates.len(),
{
    if updates.len() > 0 {
        lemma_healths_after_len(ids, healths, updates.drop_last());
        lemma_first_marker_in_range(ids, updates.last().0);
    }
}

/// Law: an update for a node sets the health of the first marker with its id to exactly
/// the update's health, whatever that marker showed before (a node can recover as well
/// as fail), and leaves every other marker as it was.
pub proof fn law_update_sets_first_marker(
    ids: Seq<Seq<char>>,
    healths: Seq<NodeHealth>,
    updates: Seq<(Seq<char>, NodeHealth)>,
    id: Seq<char>,
    h: NodeHealth,
    j: int,
)
    requires
        healths.len() == ids.len(),
        0 <= j < ids.len(),
        ids[j] == id,
        forall|k: int| 0 <= k < j ==> ids[k] != id,
    ensures
        healths_after(ids, healths, updates.push((id, h))).len() == ids.len(),
        healths_after(ids, healths, updates.push((id, h)))[j] == h,
        forall|k: int|
            0 <= k < ids.len() && k != j ==> healths_after(ids, healths, updates.push((id, h)))[k]
                == healths_after(ids, healths, updates)[k],
{
    let all = updates.push((id, h));
    assert(all.drop_last() =~= updates);
    lemma_first_marker_at(ids, id, j);
    lemma_healths_after_len(ids, healths, updates);
    lemma_healths_after_len(ids, healths, all);
}

/// Law: an update for a node that no marker stands for changes nothing.
pub proof fn law_update_for_unknown_node(
    ids: Seq<Seq<char>>,
    healths: Seq<NodeHealth>,
    updates: Seq<(Seq<char>, NodeHealth)>,
    id: Seq<char>,
    h: NodeHealth,
)
    requires
        forall|k: int| 0 <= k < ids.len() ==> ids[k] != id,
    ensures
        healths_after(ids, healths, updates.push((id, h))) == healths_after(ids, healths, updates),
{
    assert(updates.push((id, h)).drop_last() =~= updates);
    lemma_first_marker_absent(ids, id);
}

} // verus!
