use crate::activity::{
    act125_open_spec, activity_row, activity_time_range, find_activity, is_open, is_open_spec, is_unlocked_by_default,
    time_range_spec, unlocked_by_default_spec, ActivityRow, OpenRow,
};
use crate::text::{contains_i32, filter_map};
use vstd::prelude::*;

verus! {

/// What the event catalog is built from.
#[derive(Clone, Debug)]
pub struct CatalogTables {
    /// The event table.
    pub activities: Vec<ActivityRow>,
    /// The feature-switch table.
    pub opens: Vec<OpenRow>,
    /// The events the server runs.
    pub active_catalog: Vec<i32>,
    /// The event of the battle pass that runs now, if any.
    pub current_bp: Option<i32>,
    /// The current version's window, when the version table gives one.
    pub version_range: Option<(u64, u64)>,
}

/// One event as the catalog lists it.
#[derive(Clone, Copy, Debug, PartialEq, Eq)]
pub struct ActivityInfo {
    pub id: i32,
    pub start_time: u64,
    pub end_time: u64,
    pub online: bool,
    pub is_new_stage: bool,
    pub current_stage: i32,
    pub is_unlock: bool,
    pub is_receive_all_bonus: bool,
}

/// An event is online: the server runs it (or it is the current battle
/// pass), and its switch is on when the table lists it.
pub open spec fn online_spec(t: CatalogTables, id: i32) -> bool {
    (t.active_catalog@.contains(id) || t.current_bp == Some(id)) && match activity_row(t.activities@, id) {
        Some(r) => is_open_spec(t.opens@, r.open_id),
        None => true,
    }
}

/// Whether an event is online; see `online_spec`.
pub fn is_activity_online(t: &CatalogTables, id: i32) -> (res: bool)
    ensures
        res == online_spec(*t, id),
{
    let runs = contains_i32(t.active_catalog.as_slice(), id) || t.current_bp == Some(id);
    if !runs {
        return false;
    }
    match find_activity(t.activities.as_slice(), id) {
        Some(r) => is_open(t.opens.as_slice(), r.open_id),
        None => true,
    }
}

/// An event as the catalog first lists it: its window (see
/// `time_range_spec`), whether it is online, and unlocked when it starts so;
/// no stage, nothing new and no bonus taken.
pub open spec fn info_spec(t: CatalogTables, id: i32) -> ActivityInfo {
    let range = time_range_spec(t.activities@, id, t.version_range);
    ActivityInfo {
        id,
        start_time: range.0,
        end_time: range.1,
        online: online_spec(t, id),
        is_new_stage: false,
        current_stage: 0,
        is_unlock: unlocked_by_default_spec(t.activities@, id),
        is_receive_all_bonus: false,
    }
}

/// An event as the catalog first lists it; see `info_spec`.
pub fn activity_info(t: &CatalogTables, id: i32) -> (res: ActivityInfo)
    ensures
        res == info_spec(*t, id),
{
    let (start_time, end_time) = activity_time_range(t.activities.as_slice(), id, t.version_range);
    ActivityInfo {
        id,
        start_time,
        end_time,
        online: is_activity_online(t, id),
        is_new_stage: false,
        current_stage: 0,
        is_unlock: is_unlocked_by_default(t.activities.as_slice(), id),
        is_receive_all_bonus: false,
    }
}

/// The catalog: every event of the table, in table order.
pub open spec fn catalog_spec(t: CatalogTables) -> Seq<ActivityInfo> {
    t.activities@.map_values(|r: ActivityRow| info_spec(t, r.id))
}

/// The catalog; see `catalog_spec`.
pub fn catalog_infos(t: &CatalogTables) -> (res: Vec<ActivityInfo>)
    ensures
        res@ == catalog_spec(*t),
{
    let mut out: Vec<ActivityInfo> = Vec::new();
    let mut i: usize = 0;
    while i < t.activities.len()
        invariant
            i <= t.activities@.len(),
            out@ == t.activities@.take(i as int).map_values(|r: ActivityRow| info_spec(*t, r.id)),
        decreases t.activities.len() - i,
    {
        let info = activity_info(t, t.activities[i].id);
        out.push(info);
        i = i + 1;
        assert(out@ =~= t.activities@.take(i as int).map_values(|r: ActivityRow| info_spec(*t, r.id)));
    }
    assert(t.activities@.take(t.activities@.len() as int) =~= t.activities@);
    out
}

/// The first listing of event `id`, if any.
pub open spec fn info_index(infos: Seq<ActivityInfo>, id: i32) -> Option<int>
    decreases infos.len(),
{
    if infos.len() == 0 {
        None
    } else {
        match info_index(infos.drop_last(), id) {
            Some(k) => Some(k),
            None => if infos.last().id == id { Some(infos.len() - 1) } else { None },
        }
    }
}

proof fn lemma_info_index(infos: Seq<ActivityInfo>, id: i32)
    ensures
        match info_index(infos, id) {
            Some(k) => 0 <= k < infos.len() && infos[k].id == id,
            None => forall|j: int| 0 <= j < infos.len() ==> infos[j].id != id,
        },
    decreases infos.len(),
{
    if infos.len() > 0 {
        let front = infos.drop_last();
        lemma_info_index(front, id);
        assert forall|j: int| 0 <= j < front.len() implies front[j] == infos[j] by {}
        if info_index(front, id) is None && infos.last().id != id {
            assert forall|j: int| 0 <= j < infos.len() implies infos[j].id != id by {
                if j < front.len() {
                    assert(front[j] == infos[j]);
                }
            }
        }
    }
}

fn find_info(infos: &Vec<ActivityInfo>, id: i32) -> (res: Option<usize>)
    ensures
        match res {
            Some(k) => info_index(infos@, id) == Some(k as int),
            None => info_index(infos@, id) is None,
        },
{
    let mut i: usize = 0;
    while i < infos.len()
        invariant
            i <= infos@.len(),
            info_index(infos@.take(i as int), id) is None,
        decreases infos.len() - i,
    {
        assert(infos@.take(i + 1).drop_last() =~= infos@.take(i as int));
        if infos[i].id == id {
            proof {
                lemma_prefix_index(infos@, id, i + 1);
            }
            return Some(i);
        }
        i = i + 1;
    }
    assert(infos@.take(infos@.len() as int) =~= infos@);
    None
}

proof fn lemma_prefix_index(infos: Seq<ActivityInfo>, id: i32, k: int)
    requires
        0 <= k <= infos.len(),
        info_index(infos.take(k), id) is Some,
    ensures
        info_index(infos, id) == info_index(infos.take(k), id),
    decreases infos.len() - k,
{
    if k < infos.len() {
        assert(infos.take(k + 1).drop_last() =~= infos.take(k));
        lemma_prefix_index(infos, id, k + 1);
    } else {
        assert(infos.take(k) =~= infos);
    }
}

/// The current battle pass's event in the catalog: when one runs with a
/// positive id, its listing is replaced by a fresh one (see `info_spec`), or
/// added at the end when the catalog lacks it.
pub open spec fn bp_applied(infos: Seq<ActivityInfo>, t: CatalogTables) -> Seq<ActivityInfo> {
    match t.current_bp {
        Some(b) => if b > 0 {
            match info_index(infos, b) {
                Some(k) => infos.update(k, info_spec(t, b)),
                None => infos.push(info_spec(t, b)),
            }
        } else {
            infos
        },
        None => infos,
    }
}

/// Puts the current battle pass's event in the catalog; see `bp_applied`.
pub fn apply_bp_activity(infos: &mut Vec<ActivityInfo>, t: &CatalogTables)
    ensures
        final(infos)@ == bp_applied(old(infos)@, *t),
{
    let b = match t.current_bp {
        Some(b) => b,
        None => {
            return;
        },
    };
    if b <= 0 {
        return;
    }
    let info = activity_info(t, b);
    proof {
        lemma_info_index(infos@, b);
    }
    match find_info(infos, b) {
        Some(k) => {
            infos.set(k, info);
        },
        None => {
            infos.push(info);
        },
    }
}

/// The shop events among `candidates` that are configured as such and open
/// (see `act125_open_spec`), in the order given.
pub open spec fn act125_ids_spec(candidates: Seq<i32>, t: CatalogTables) -> Seq<i32> {
    filter_map(candidates, act125_fn(t))
}

/// A candidate, when it is an open shop event.
pub open spec fn act125_fn(t: CatalogTables) -> spec_fn(i32) -> Option<i32> {
    |i: i32| if act125_open_spec(t.activities@, t.opens@, i) { Some(i) } else { None }
}

/// The shop events to list; see `act125_ids_spec`.
pub fn act125_activity_ids(candidates: &[i32], t: &CatalogTables) -> (res: Vec<i32>)
    ensures
        res@ == act125_ids_spec(candidates@, *t),
{
    let ghost f = act125_fn(*t);
    let mut out: Vec<i32> = Vec::new();
    let mut k: usize = 0;
    while k < candidates.len()
        invariant
            k <= candidates@.len(),
            f == act125_fn(*t),
            out@ == filter_map(candidates@.take(k as int), f),
        decreases candidates.len() - k,
    {
        assert(candidates@.take(k + 1).drop_last() =~= candidates@.take(k as int));
        let id = candidates[k];
        let open = match find_activity(t.activities.as_slice(), id) {
            Some(r) => r.type_id == 125 && is_open(t.opens.as_slice(), r.open_id),
            None => false,
        };
        if open {
            out.push(id);
        }
        k = k + 1;
    }
    assert(candidates@.take(candidates@.len() as int) =~= candidates@);
    out
}

/// The catalog with each of `ids` added at the end (a fresh listing, see
/// `info_spec`) unless already listed, in order.
pub open spec fn with_missing(infos: Seq<ActivityInfo>, ids: Seq<i32>, t: CatalogTables) -> Seq<ActivityInfo>
    decreases ids.len(),
{
    if ids.len() == 0 {
        infos
    } else {
        let front = with_missing(infos, ids.drop_last(), t);
        let id = ids.last();
        if info_index(front, id) is Some {
            front
        } else {
            front.push(info_spec(t, id))
        }
    }
}

/// Adds the shop events `act125_ids` that the catalog lacks; see `with_missing`.
pub fn apply_act125_activity(infos: &mut Vec<ActivityInfo>, act125_ids: &[i32], t: &CatalogTables)
    ensures
        final(infos)@ == with_missing(old(infos)@, act125_ids@, *t),
{
    let ghost start = infos@;
    let mut k: usize = 0;
    while k < act125_ids.len()
        invariant
            k <= act125_ids@.len(),
            infos@ == with_missing(start, act125_ids@.take(k as int), *t),
        decreases act125_ids.len() - k,
    {
        assert(act125_ids@.take(k + 1).drop_last() =~= act125_ids@.take(k as int));
        let id = act125_ids[k];
        if find_info(infos, id).is_none() {
            let info = activity_info(t, id);
            infos.push(info);
        }
        k = k + 1;
    }
    assert(act125_ids@.take(act125_ids@.len() as int) =~= act125_ids@);
}

/// A listing with the player's flags: new while its new-stage flag is set,
/// unlocked when it starts so or the player unlocked it.
pub open spec fn with_flags(info: ActivityInfo, new_stage: Seq<i32>, permanent_unlock: Seq<i32>, t: CatalogTables) -> ActivityInfo {
    ActivityInfo {
        is_new_stage: new_stage.contains(info.id),
        is_unlock: unlocked_by_default_spec(t.activities@, info.id) || permanent_unlock.contains(info.id),
        ..info
    }
}

/// Sets the player's flags on every listing; see `with_flags`. `new_stage` and
/// `permanent_unlock` list the events whose flag the player has.
pub fn apply_activity_state(infos: &mut Vec<ActivityInfo>, new_stage: &[i32], permanent_unlock: &[i32], t: &CatalogTables)
    ensures
        final(infos)@ == old(infos)@.map_values(|i: ActivityInfo| with_flags(i, new_stage@, permanent_unlock@, *t)),
{
    let ghost start = infos@;
    let mut k: usize = 0;
    while k < infos.len()
        invariant
            k <= infos@.len(),
            infos@.len() == start.len(),
            forall|j: int| 0 <= j < k ==> #[trigger] infos@[j] == with_flags(start[j], new_stage@, permanent_unlock@, *t),
            forall|j: int| k <= j < infos@.len() ==> #[trigger] infos@[j] == start[j],
        decreases infos.len() - k,
    {
        let info = infos[k];
        let id = info.id;
        let is_new_stage = contains_i32(new_stage, id);
        let is_unlock = is_unlocked_by_default(t.activities.as_slice(), id) || contains_i32(permanent_unlock, id);
        infos.set(k, ActivityInfo { is_new_stage, is_unlock, ..info });
        k = k + 1;
    }
    assert(infos@ =~= start.map_values(|i: ActivityInfo| with_flags(i, new_stage@, permanent_unlock@, *t)));
}

/// The listings a request asks for: all when it names none, else those of the
/// events it names, in catalog order.
pub open spec fn requested_spec(infos: Seq<ActivityInfo>, requested: Seq<i32>) -> Seq<ActivityInfo> {
    if requested.len() == 0 {
        infos
    } else {
        filter_map(infos, requested_fn(requested))
    }
}

/// A listing, when its event is among `requested`.
pub open spec fn requested_fn(requested: Seq<i32>) -> spec_fn(ActivityInfo) -> Option<ActivityInfo> {
    |i: ActivityInfo| if requested.contains(i.id) { Some(i) } else { None }
}

/// Keeps the listings a request asks for; see `requested_spec`.
pub fn retain_requested(infos: Vec<ActivityInfo>, requested: &[i32]) -> (res: Vec<ActivityInfo>)
    ensures
        res@ == requested_spec(infos@, requested@),
{
    if requested.len() == 0 {
        return infos;
    }
    let ghost f = requested_fn(requested@);
    let mut out: Vec<ActivityInfo> = Vec::new();
    let mut k: usize = 0;
    while k < infos.len()
        invariant
            k <= infos@.len(),
            requested@.len() > 0,
            f == requested_fn(requested@),
            out@ == filter_map(infos@.take(k as int), f),
        decreases infos.len() - k,
    {
        assert(infos@.take(k + 1).drop_last() =~= infos@.take(k as int));
        if contains_i32(requested, infos[k].id) {
            out.push(infos[k]);
        }
        k = k + 1;
    }
    assert(infos@.take(infos@.len() as int) =~= infos@);
    out
}

/// The event catalog a player sees: every event of the table, the current
/// battle pass (see `bp_applied`), the open shop events among
/// `act125_candidates` (see `act125_ids_spec`, `with_missing`), then the
/// player's flags (see `with_flags`).
pub fn activity_infos(t: &CatalogTables, act125_candidates: &[i32], new_stage: &[i32], permanent_unlock: &[i32]) -> (res: Vec<
    ActivityInfo,
>)
    ensures
        res@ == with_missing(bp_applied(catalog_spec(*t), *t), act125_ids_spec(act125_candidates@, *t), *t).map_values(
            |i: ActivityInfo| with_flags(i, new_stage@, permanent_unlock@, *t),
        ),
{
    let mut infos = catalog_infos(t);
    apply_bp_activity(&mut infos, t);
    let shop = act125_activity_ids(act125_candidates, t);
    apply_act125_activity(&mut infos, shop.as_slice(), t);
    apply_activity_state(&mut infos, new_stage, permanent_unlock, t);
    infos
}

/// The catalog for a request that names events: as `activity_infos`, but
/// keeping only the named events (see `requested_spec`) before the player's
/// flags are set.
pub fn activity_infos_with_param(
    t: &CatalogTables,
    requested: &[i32],
    act125_candidates: &[i32],
    new_stage: &[i32],
    permanent_unlock: &[i32],
) -> (res: Vec<ActivityInfo>)
    ensures
        res@ == requested_spec(
            with_missing(bp_applied(catalog_spec(*t), *t), act125_ids_spec(act125_candidates@, *t), *t),
            requested@,
        ).map_values(|i: ActivityInfo| with_flags(i, new_stage@, permanent_unlock@, *t)),
{
    let mut infos = catalog_infos(t);
    apply_bp_activity(&mut infos, t);
    let shop = act125_activity_ids(act125_candidates, t);
    apply_act125_activity(&mut infos, shop.as_slice(), t);
    let mut kept = retain_requested(infos, requested);
    apply_activity_state(&mut kept, new_stage, permanent_unlock, t);
    kept
}

/// The catalog lists every event of the table, in table order, each as
/// `info_spec` first lists it.
pub proof fn law_catalog_lists_every_event(t: CatalogTables)
    ensures
        catalog_spec(t).len() == t.activities@.len(),
        forall|i: int| 0 <= i < t.activities@.len() ==> #[trigger] catalog_spec(t)[i] == info_spec(t, t.activities@[i].id)
            && catalog_spec(t)[i].id == t.activities@[i].id,
{
}

proof fn lemma_index_kept(s: Seq<ActivityInfo>, x: ActivityInfo, id: i32)
    requires
        info_index(s, id) is Some,
    ensures
        info_index(s.push(x), id) == info_index(s, id),
{
    assert(s.push(x).drop_last() =~= s);
}

/// Adding the shop events keeps every earlier listing where it was and leaves
/// each shop event listed.
pub proof fn law_shop_events_are_listed(infos: Seq<ActivityInfo>, ids: Seq<i32>, t: CatalogTables)
    ensures
        with_missing(infos, ids, t).len() >= infos.len(),
        with_missing(infos, ids, t).take(infos.len() as int) == infos,
        forall|k: int| 0 <= k < ids.len() ==> info_index(with_missing(infos, ids, t), #[trigger] ids[k]) is Some,
    decreases ids.len(),
{
    if ids.len() > 0 {
        let front_ids = ids.drop_last();
        law_shop_events_are_listed(infos, front_ids, t);
        let front = with_missing(infos, front_ids, t);
        let id = ids.last();
        let out = with_missing(infos, ids, t);
        if info_index(front, id) is None {
            let x = info_spec(t, id);
            assert(out == front.push(x));
            assert(out.take(infos.len() as int) =~= front.take(infos.len() as int));
            assert(out.drop_last() =~= front);
            assert forall|k: int| 0 <= k < ids.len() implies info_index(out, #[trigger] ids[k]) is Some by {
                if k < ids.len() - 1 {
                    assert(front_ids[k] == ids[k]);
                    lemma_index_kept(front, x, ids[k]);
                }
            }
        } else {
            assert forall|k: int| 0 <= k < ids.len() implies info_index(out, #[trigger] ids[k]) is Some by {
                if k < ids.len() - 1 {
                    assert(front_ids[k] == ids[k]);
                }
            }
        }
    }
}

/// With a battle pass running under a positive id, the catalog lists its
/// event as `info_spec` gives it, and no listing is lost.
pub proof fn law_bp_event_is_listed(infos: Seq<ActivityInfo>, t: CatalogTables, b: i32)
    requires
        t.current_bp == Some(b),
        b > 0,
    ensures
        bp_applied(infos, t).len() >= infos.len(),
        exists|k: int| 0 <= k < bp_applied(infos, t).len() && bp_applied(infos, t)[k] == info_spec(t, b),
        forall|j: int| 0 <= j < infos.len() && infos[j].id != b ==> bp_applied(infos, t)[j] == infos[j],
{
    lemma_info_index(infos, b);
    match info_index(infos, b) {
        Some(k) => {
            assert(bp_applied(infos, t)[k] == info_spec(t, b));
        },
        None => {
            assert(bp_applied(infos, t)[infos.len() as int] == info_spec(t, b));
        },
    }
}

} // verus!
