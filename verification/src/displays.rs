//! The managed-display inventory of the window server, and the decisions
//! that the native desktop operations take from it. A native adapter reads
//! the inventory (display identifiers, current desktops, desktop lists) and
//! hands it here; nothing in this module touches the window server.
use vstd::prelude::*;
use crate::selection::{err_view, WindowTarget};
use crate::text::{decimal, i64_text, id_list, id_list_text, signed_decimal, u64_text, lemma_text_lt_irreflexive, lemma_text_lt_transitive, lemma_text_lt_trichotomy, str_eq, text_less, text_lt};

verus! {

/// One desktop of a display: its managed ID and its type (0 is an
/// ordinary desktop), each where the inventory reports one.
#[derive(Debug, Clone, Copy, PartialEq, Eq, Structural)]
pub struct ManagedSpace {
    pub id: Option<u64>,
    pub kind: Option<u64>,
}

/// One display: its identifier, its current desktop and its desktops.
pub struct ManagedDisplay {
    pub identifier: Option<String>,
    pub current_space: Option<u64>,
    pub spaces: Vec<ManagedSpace>,
}

pub open spec fn display_has(d: ManagedDisplay, id: u64) -> bool {
    exists|j: int| 0 <= j < d.spaces@.len() && (#[trigger] d.spaces@[j]).id == Some(id)
}

/// Some display lists the desktop.
pub open spec fn spec_contains_space(displays: Seq<ManagedDisplay>, id: u64) -> bool {
    exists|i: int| 0 <= i < displays.len() && display_has(#[trigger] displays[i], id)
}

/// Some display lists the desktop as an ordinary desktop.
pub open spec fn spec_ordinary(displays: Seq<ManagedDisplay>, id: u64) -> bool {
    exists|i: int, j: int|
        0 <= i < displays.len() && 0 <= j < displays[i].spaces@.len() && (#[trigger] displays[i].spaces@[j]).id
            == Some(id) && displays[i].spaces@[j].kind == Some(0u64)
}

/// Some display shows the desktop now.
pub open spec fn spec_active(displays: Seq<ManagedDisplay>, id: u64) -> bool {
    exists|i: int| 0 <= i < displays.len() && (#[trigger] displays[i]).current_space == Some(id)
}

fn display_contains(d: &ManagedDisplay, id: u64) -> (r: bool)
    ensures
        r == display_has(*d, id),
{
    for j in 0..d.spaces.len()
        invariant
            forall|k: int| 0 <= k < j ==> (#[trigger] d.spaces@[k]).id != Some(id),
    {
        if d.spaces[j].id == Some(id) {
            return true;
        }
    }
    false
}

/// Whether any display lists the desktop.
pub fn contains_space(displays: &[ManagedDisplay], id: u64) -> (r: bool)
    ensures
        r == spec_contains_space(displays@, id),
{
    for i in 0..displays.len()
        invariant
            forall|k: int| 0 <= k < i ==> !display_has(#[trigger] displays@[k], id),
    {
        if display_contains(&displays[i], id) {
            return true;
        }
    }
    false
}

/// Whether the desktop exists and whether a display shows it now.
pub fn space_state(displays: &[ManagedDisplay], space: u64) -> (r: (bool, bool))
    ensures
        r.0 == spec_contains_space(displays@, space),
        r.1 == spec_active(displays@, space),
{
    let exists = contains_space(displays, space);
    let mut active = false;
    for i in 0..displays.len()
        invariant
            active <==> exists|k: int| 0 <= k < i && (#[trigger] displays@[k]).current_space == Some(space),
    {
        if displays[i].current_space == Some(space) {
            active = true;
        }
    }
    (exists, active)
}

/// Whether some display lists the desktop as an ordinary desktop.
pub fn is_ordinary(displays: &[ManagedDisplay], id: u64) -> (r: bool)
    ensures
        r == spec_ordinary(displays@, id),
{
    for i in 0..displays.len()
        invariant
            forall|a: int, b: int|
                0 <= a < i && 0 <= b < displays@[a].spaces@.len() ==> !((#[trigger] displays@[a].spaces@[b]).id
                    == Some(id) && displays@[a].spaces@[b].kind == Some(0u64)),
    {
        let d = &displays[i];
        for j in 0..d.spaces.len()
            invariant
                i < displays@.len(),
                d == displays@[i as int],
                forall|a: int, b: int|
                    0 <= a < i && 0 <= b < displays@[a].spaces@.len() ==> !((#[trigger] displays@[a].spaces@[b]).id
                        == Some(id) && displays@[a].spaces@[b].kind == Some(0u64)),
                forall|b: int| 0 <= b < j ==> !((#[trigger] d.spaces@[b]).id == Some(id) && d.spaces@[b].kind == Some(0u64)),
        {
            if d.spaces[j].id == Some(id) && d.spaces[j].kind == Some(0) {
                assert(displays@[i as int].spaces@[j as int].id == Some(id));
                return true;
            }
        }
    }
    false
}

/// Movement is only between ordinary desktops: fullscreen and unavailable
/// desktops are neither source nor destination.
pub fn movement_allowed(displays: &[ManagedDisplay], space: u64, original: &Vec<u64>) -> (r: bool)
    ensures
        r == (spec_ordinary(displays@, space) && forall|i: int|
            0 <= i < original@.len() ==> spec_ordinary(displays@, #[trigger] original@[i])),
{
    if !is_ordinary(displays, space) {
        return false;
    }
    for i in 0..original.len()
        invariant
            forall|k: int| 0 <= k < i ==> spec_ordinary(displays@, #[trigger] original@[k]),
    {
        if !is_ordinary(displays, original[i]) {
            return false;
        }
    }
    true
}

/// Two readings show the same current desktop on every display, in the
/// same display order: a move switched nothing.
pub fn same_current_spaces(before: &[ManagedDisplay], after: &[ManagedDisplay]) -> (r: bool)
    ensures
        r == (before@.len() == after@.len() && forall|i: int|
            0 <= i < before@.len() ==> (#[trigger] before@[i]).current_space == after@[i].current_space),
{
    if before.len() != after.len() {
        return false;
    }
    for i in 0..before.len()
        invariant
            before@.len() == after@.len(),
            forall|k: int| 0 <= k < i ==> (#[trigger] before@[k]).current_space == after@[k].current_space,
    {
        if before[i].current_space != after[i].current_space {
            return false;
        }
    }
    true
}

/// The window's membership includes the desktop.
pub fn holds_space(ids: &Vec<u64>, space: u64) -> (r: bool)
    ensures
        r == ids@.contains(space),
{
    for i in 0..ids.len()
        invariant
            forall|k: int| 0 <= k < i ==> ids@[k] != space,
    {
        if ids[i] == space {
            return true;
        }
    }
    false
}

/// A move settled when the window is on the destination and nowhere else;
/// otherwise the partial membership is reported.
pub fn move_settled(observed: &Vec<u64>, target: u64) -> (r: Result<(), String>)
    ensures
        r is Ok <==> observed@ == seq![target],
        r is Err ==> err_view(r) == "workspace_move_incomplete: observed membership "@ + id_list_text(observed@),
{
    if crate::selection::is_only(observed, target) {
        Ok(())
    } else {
        Err(move_incomplete_error(observed))
    }
}

/// Two readings of the active desktops are the same.
pub fn same_active(before: &Vec<(String, u64)>, after: &Vec<(String, u64)>) -> (r: bool)
    ensures
        r == (pair_views(before@) == pair_views(after@)),
{
    if before.len() != after.len() {
        assert(pair_views(before@).len() != pair_views(after@).len());
        return false;
    }
    for i in 0..before.len()
        invariant
            before@.len() == after@.len(),
            forall|k: int| 0 <= k < i ==> pair_views(before@)[k] == pair_views(after@)[k],
    {
        if before[i].1 != after[i].1 || !str_eq(before[i].0.as_str(), after[i].0.as_str()) {
            proof {
                assert(pair_views(before@)[i as int] != pair_views(after@)[i as int]);
            }
            return false;
        }
    }
    assert(pair_views(before@) =~= pair_views(after@));
    true
}

/// The launched process must belong to the recipe's application.
pub fn launched_bundle_matches(found: Option<String>, expected: &str) -> (r: Result<(), String>)
    ensures
        r is Ok <==> (found matches Some(b) && b@ == expected@),
        r is Err ==> err_view(r) == "workspace_launch_failed: launched bundle identity does not match trusted recipe"@,
{
    match found {
        Some(b) => if str_eq(b.as_str(), expected) {
            return Ok(());
        },
        None => {},
    }
    Err("workspace_launch_failed: launched bundle identity does not match trusted recipe".to_owned())
}

pub open spec fn identified_as(d: ManagedDisplay, uuid: Seq<char>) -> bool {
    match d.identifier {
        Some(s) => s@ == uuid,
        None => false,
    }
}

/// The first display whose identifier is `uuid`.
pub fn display_row(displays: &[ManagedDisplay], uuid: &str) -> (r: Option<usize>)
    ensures
        match r {
            Some(i) => i < displays@.len() && identified_as(displays@[i as int], uuid@) && forall|k: int|
                0 <= k < i ==> !identified_as(#[trigger] displays@[k], uuid@),
            None => forall|k: int| 0 <= k < displays@.len() ==> !identified_as(#[trigger] displays@[k], uuid@),
        },
{
    for i in 0..displays.len()
        invariant
            forall|k: int| 0 <= k < i ==> !identified_as(#[trigger] displays@[k], uuid@),
    {
        match &displays[i].identifier {
            Some(s) => {
                if str_eq(s.as_str(), uuid) {
                    return Some(i);
                }
            },
            None => {},
        }
    }
    None
}

/// A window-server connection ID is usable only when it is not zero.
pub fn connection(main_connection_id: Option<u32>) -> (r: Result<u32, String>)
    ensures
        match main_connection_id {
            Some(id) => id != 0 ==> r == Ok::<u32, String>(id),
            None => true,
        },
        r is Err <==> (main_connection_id is None || main_connection_id == Some(0u32)),
        r is Err ==> err_view(r) == "workspace_operation_unsupported: no WindowServer connection"@,
{
    match main_connection_id {
        Some(id) => {
            if id != 0 {
                return Ok(id);
            }
        },
        None => {},
    }
    Err("workspace_operation_unsupported: no WindowServer connection".to_owned())
}

/// A window's desktops, where the window server could report them.
pub fn membership(window_space_ids: Option<Vec<u64>>) -> (r: Result<Vec<u64>, String>)
    ensures
        match window_space_ids {
            Some(ids) => r == Ok::<Vec<u64>, String>(ids),
            None => r is Err && err_view(r) == "workspace_state_unavailable: window membership is unknown"@,
        },
{
    match window_space_ids {
        Some(ids) => Ok(ids),
        None => Err("workspace_state_unavailable: window membership is unknown".to_owned()),
    }
}

/// What moving a window to a desktop should do.
pub enum MovePlan {
    /// The window is already only on the destination.
    AlreadyThere,
    /// Move the window from its single current desktop.
    Move(u64),
}

/// The checks before a native move: the destination must exist, and the
/// window must be on exactly one desktop.
pub fn move_precheck(displays: &[ManagedDisplay], old: &Vec<u64>, target: u64) -> (r: Result<MovePlan, String>)
    ensures
        !spec_contains_space(displays@, target) ==> r is Err && err_view(r)
            == "workspace_space_deleted: destination no longer exists"@,
        spec_contains_space(displays@, target) && old@ == seq![target] ==> r matches Ok(MovePlan::AlreadyThere),
        spec_contains_space(displays@, target) && old@ != seq![target] && old@.len() != 1 ==> r is Err
            && err_view(r) == "workspace_operation_unsupported: ambiguous or sticky window membership"@,
        spec_contains_space(displays@, target) && old@ != seq![target] && old@.len() == 1 ==> r
            == Ok::<MovePlan, String>(MovePlan::Move(old@[0])),
{
    if !contains_space(displays, target) {
        return Err("workspace_space_deleted: destination no longer exists".to_owned());
    }
    if crate::selection::is_only(old, target) {
        return Ok(MovePlan::AlreadyThere);
    }
    if old.len() != 1 {
        return Err("workspace_operation_unsupported: ambiguous or sticky window membership".to_owned());
    }
    Ok(MovePlan::Move(old[0]))
}

/// After a native creation call returned `id`: the desktop counts as created
/// only when it is newly listed; otherwise a desktop that was not listed
/// before is the only one eligible for rollback.
pub enum CreatedSpace {
    Verified,
    RollBack,
    Unverified,
}

pub fn created_space_outcome(before: &[ManagedDisplay], after: Option<&[ManagedDisplay]>, id: u64) -> (r: CreatedSpace)
    ensures
        (r is Verified) <==> (after matches Some(a) && spec_contains_space(a@, id) && !spec_contains_space(
            before@,
            id,
        )),
        (r is RollBack) <==> (!(r is Verified) && !spec_contains_space(before@, id)),
{
    let newly_listed = match after {
        Some(a) => contains_space(a, id),
        None => false,
    };
    let listed_before = contains_space(before, id);
    if newly_listed && !listed_before {
        CreatedSpace::Verified
    } else if !listed_before {
        CreatedSpace::RollBack
    } else {
        CreatedSpace::Unverified
    }
}

pub open spec fn cannot_delete_msg() -> Seq<char> {
    "workspace_operation_unsupported: cannot delete fullscreen or the last desktop"@
}

/// What an explicit switch or deletion does on the display that shows `space`.
pub enum SpacePlan {
    /// Revealing a desktop that is already active needs nothing.
    AlreadyActive,
    /// Act on the desktop at this position of the display's list.
    Act(usize),
}

pub open spec fn ordinary_count(spaces: Seq<ManagedSpace>) -> nat
    decreases spaces.len(),
{
    if spaces.len() == 0 {
        0
    } else {
        ordinary_count(spaces.drop_last()) + if spaces.last().kind == Some(0u64) {
            1nat
        } else {
            0nat
        }
    }
}

/// The checks before an explicit switch (`delete` false) or deletion
/// (`delete` true): an active desktop cannot be deleted; the desktop must be
/// listed; only an ordinary desktop that is not the display's last may go.
pub fn plan_space_operation(row: &ManagedDisplay, space: u64, delete: bool) -> (r: Result<SpacePlan, String>)
    ensures
        row.current_space == Some(space) ==> if delete {
            r is Err && err_view(r) == "workspace_active: explicit deletion requires an inactive desktop"@
        } else {
            r matches Ok(SpacePlan::AlreadyActive)
        },
        row.current_space != Some(space) && !display_has(*row, space) ==> r is Err && err_view(r)
            == "workspace_space_deleted"@,
        r matches Ok(SpacePlan::Act(i)) ==> {
            &&& row.current_space != Some(space)
            &&& i < row.spaces@.len()
            &&& row.spaces@[i as int].id == Some(space)
            &&& forall|k: int| 0 <= k < i ==> (#[trigger] row.spaces@[k]).id != Some(space)
            &&& delete ==> row.spaces@[i as int].kind == Some(0u64) && ordinary_count(row.spaces@) >= 2
        },
        row.current_space != Some(space) && display_has(*row, space) && !delete ==> r matches Ok(SpacePlan::Act(_)),
        delete && row.current_space != Some(space) && display_has(*row, space) ==> (r is Ok || err_view(r)
            == cannot_delete_msg()),
        delete && row.current_space != Some(space) && ordinary_count(row.spaces@) >= 2 && (exists|i: int|
            0 <= i < row.spaces@.len() && (#[trigger] row.spaces@[i]).id == Some(space) && row.spaces@[i].kind
                == Some(0u64) && forall|k: int| 0 <= k < i ==> row.spaces@[k].id != Some(space)) ==> r matches Ok(
            SpacePlan::Act(_),
        ),
{
    if row.current_space == Some(space) {
        if delete {
            return Err("workspace_active: explicit deletion requires an inactive desktop".to_owned());
        }
        return Ok(SpacePlan::AlreadyActive);
    }
    let mut index: Option<usize> = None;
    let n = row.spaces.len();
    for j in 0..n
        invariant
            n == row.spaces@.len(),
            match index {
                Some(i) => i < j && row.spaces@[i as int].id == Some(space) && forall|k: int| 0 <= k < i ==> (#[trigger] row.spaces@[k]).id != Some(space),
                None => forall|k: int| 0 <= k < j ==> (#[trigger] row.spaces@[k]).id != Some(space),
            },
    {
        if index.is_none() && row.spaces[j].id == Some(space) {
            index = Some(j);
        }
    }
    let index = match index {
        Some(i) => i,
        None => return Err("workspace_space_deleted".to_owned()),
    };
    if delete {
        let mut ordinary: usize = 0;
        for j in 0..n
            invariant
                n == row.spaces@.len(),
                ordinary == ordinary_count(row.spaces@.subrange(0, j as int)),
                ordinary <= j,
        {
            proof {
                assert(row.spaces@.subrange(0, j + 1).drop_last() =~= row.spaces@.subrange(0, j as int));
            }
            if row.spaces[j].kind == Some(0) {
                ordinary = ordinary + 1;
            }
        }
        proof {
            assert(row.spaces@.subrange(0, n as int) =~= row.spaces@);
        }
        if row.spaces[index].kind != Some(0) || ordinary < 2 {
            return Err(
                "workspace_operation_unsupported: cannot delete fullscreen or the last desktop".to_owned(),
            );
        }
    }
    Ok(SpacePlan::Act(index))
}

/// Deletion is only for a desktop that holds nothing but its background:
/// `windows` are the desktop's windows, and `is_background` asks the window
/// server whether one of them is the desktop background. The first answer
/// that is not a plain yes ends the check.
pub fn ensure_empty<F: Fn(u64) -> Result<bool, String>>(windows: &Vec<u64>, is_background: F) -> (r: Result<(), String>)
    requires
        forall|i: int| 0 <= i < windows@.len() ==> call_requires(is_background, (#[trigger] windows@[i],)),
    ensures
        r is Ok ==> forall|i: int|
            0 <= i < windows@.len() ==> #[trigger] call_ensures(is_background, (windows@[i],), Ok::<bool, String>(true)),
        r matches Err(e) ==> exists|i: int|
            #![trigger windows@[i]]
            0 <= i < windows@.len() && {
                ||| (call_ensures(is_background, (windows@[i],), Ok::<bool, String>(false))
                    && e@ == "workspace_not_empty: restore or move windows before explicit deletion"@)
                ||| call_ensures(is_background, (windows@[i],), Err::<bool, String>(e))
            },
{
    for i in 0..windows.len()
        invariant
            forall|k: int| 0 <= k < windows@.len() ==> call_requires(is_background, (#[trigger] windows@[k],)),
            forall|k: int| 0 <= k < i ==> #[trigger] call_ensures(is_background, (windows@[k],), Ok::<bool, String>(true)),
    {
        let answer = is_background(windows[i]);
        match answer {
            Ok(true) => {},
            Ok(false) => {
                assert(call_ensures(is_background, (windows@[i as int],), Ok::<bool, String>(false)));
                return Err("workspace_not_empty: restore or move windows before explicit deletion".to_owned());
            },
            Err(e) => {
                assert(call_ensures(is_background, (windows@[i as int],), Err::<bool, String>(e)));
                return Err(e);
            },
        }
    }
    Ok(())
}

/// Order of (display identifier, desktop) pairs: by identifier, then desktop.
pub open spec fn pair_lt(a: (Seq<char>, u64), b: (Seq<char>, u64)) -> bool {
    text_lt(a.0, b.0) || (a.0 == b.0 && a.1 < b.1)
}

pub open spec fn pairs_sorted(s: Seq<(Seq<char>, u64)>) -> bool {
    forall|i: int, j: int| 0 <= i < j < s.len() ==> !pair_lt(s[j], s[i])
}

pub open spec fn pair_views(v: Seq<(String, u64)>) -> Seq<(Seq<char>, u64)> {
    v.map_values(|e: (String, u64)| (e.0@, e.1))
}

/// Each display's identifier and current desktop, in display order; none
/// when a display lacks either.
pub open spec fn active_entries(displays: Seq<ManagedDisplay>) -> Option<Seq<(Seq<char>, u64)>>
    decreases displays.len(),
{
    if displays.len() == 0 {
        Some(Seq::empty())
    } else {
        match active_entries(displays.drop_last()) {
            None => None,
            Some(prev) => match (displays.last().identifier, displays.last().current_space) {
                (Some(id), Some(space)) => Some(prev.push((id@, space))),
                _ => None,
            },
        }
    }
}

proof fn lemma_pair_lt_asymmetric(a: (Seq<char>, u64), b: (Seq<char>, u64))
    ensures
        !(pair_lt(a, b) && pair_lt(b, a)),
{
    lemma_text_lt_trichotomy(a.0, b.0);
    lemma_text_lt_irreflexive(a.0);
}

proof fn lemma_pair_lt_transitive(a: (Seq<char>, u64), b: (Seq<char>, u64), c: (Seq<char>, u64))
    requires
        pair_lt(a, b),
        pair_lt(b, c),
    ensures
        pair_lt(a, c),
{
    if text_lt(a.0, b.0) && text_lt(b.0, c.0) {
        lemma_text_lt_transitive(a.0, b.0, c.0);
    }
}

fn pair_less(a: &(String, u64), b: &(String, u64)) -> (r: bool)
    ensures
        r == pair_lt((a.0@, a.1), (b.0@, b.1)),
{
    text_less(a.0.as_str(), b.0.as_str()) || (a.0 == b.0 && a.1 < b.1)
}

/// Inserts keeping the list ordered.
fn insert_sorted(v: &mut Vec<(String, u64)>, x: (String, u64))
    requires
        pairs_sorted(pair_views(old(v)@)),
    ensures
        pairs_sorted(pair_views(final(v)@)),
        pair_views(final(v)@).to_multiset() == pair_views(old(v)@).to_multiset().insert((x.0@, x.1)),
{
    let ghost s = pair_views(v@);
    let ghost xv = (x.0@, x.1);
    let n = v.len();
    let mut p: usize = 0;
    while p < n
        invariant
            p <= n,
            n == v@.len(),
            s == pair_views(v@),
            xv == (x.0@, x.1),
            forall|i: int| 0 <= i < p ==> !pair_lt(xv, s[i]),
        ensures
            p <= n,
            forall|i: int| 0 <= i < p ==> !pair_lt(xv, s[i]),
            p < n ==> pair_lt(xv, s[p as int]),
        decreases n - p,
    {
        let less = pair_less(&x, &v[p]);
        proof {
            assert(s[p as int] == (v@[p as int].0@, v@[p as int].1));
        }
        if less {
            break;
        }
        p = p + 1;
    }
    proof {
        let t = s.insert(p as int, xv);
        assert forall|i: int, j: int| 0 <= i < j < t.len() implies !pair_lt(t[j], t[i]) by {
            if j < p {
                assert(t[i] == s[i] && t[j] == s[j]);
            } else if j == p {
                assert(t[i] == s[i] && t[j] == xv);
            } else if i < p {
                assert(t[i] == s[i] && t[j] == s[j - 1]);
            } else if i == p {
                assert(t[i] == xv && t[j] == s[j - 1]);
                assert(pair_lt(xv, s[p as int]));
                if pair_lt(s[j - 1], xv) {
                    if j - 1 == p {
                        lemma_pair_lt_asymmetric(xv, s[p as int]);
                    } else {
                        lemma_pair_lt_transitive(s[j - 1], xv, s[p as int]);
                    }
                }
            } else {
                assert(t[i] == s[i - 1] && t[j] == s[j - 1]);
            }
        }
        vstd::seq_lib::to_multiset_insert(s, p as int, xv);
    }
    v.insert(p, x);
    proof {
        assert(pair_views(v@) =~= s.insert(p as int, xv));
    }
}

/// A display reading names both the display and its current desktop.
pub open spec fn reading_complete(d: ManagedDisplay) -> bool {
    d.identifier is Some && d.current_space is Some
}

/// Why a display reading is incomplete.
pub open spec fn missing_reading_msg(d: ManagedDisplay) -> Seq<char> {
    if d.identifier is None {
        "workspace_launch_failed: display identity unavailable"@
    } else {
        "workspace_launch_failed: active Space unavailable"@
    }
}

/// The (display identifier, current desktop) pairs in order, so that two
/// readings compare equal exactly when every display shows the same desktop.
pub fn active_spaces(displays: &[ManagedDisplay]) -> (r: Result<Vec<(String, u64)>, String>)
    ensures
        match active_entries(displays@) {
            None => r is Err,
            Some(e) => r matches Ok(v) && pairs_sorted(pair_views(v@)) && pair_views(v@).to_multiset()
                == e.to_multiset(),
        },
        r matches Err(e) ==> exists|i: int|
            0 <= i < displays@.len() && !reading_complete(#[trigger] displays@[i]) && (forall|k: int|
                0 <= k < i ==> reading_complete(displays@[k])) && e@ == missing_reading_msg(displays@[i]),
{
    let mut active: Vec<(String, u64)> = Vec::new();
    let ghost mut collected: Seq<(Seq<char>, u64)> = Seq::empty();
    proof {
        assert(displays@.subrange(0, 0) =~= Seq::<ManagedDisplay>::empty());
        assert(pair_views(active@) =~= Seq::<(Seq<char>, u64)>::empty());
    }
    for i in 0..displays.len()
        invariant
            active_entries(displays@.subrange(0, i as int)) == Some(collected),
            pairs_sorted(pair_views(active@)),
            pair_views(active@).to_multiset() == collected.to_multiset(),
            forall|k: int| 0 <= k < i ==> reading_complete(#[trigger] displays@[k]),
    {
        proof {
            assert(displays@.subrange(0, i + 1).drop_last() =~= displays@.subrange(0, i as int));
            assert(displays@.subrange(0, i + 1).last() == displays@[i as int]);
        }
        let id = match &displays[i].identifier {
            Some(id) => id.clone(),
            None => {
                proof {
                    lemma_active_entries_prefix_none(displays@, i as int + 1);
                }
                return Err("workspace_launch_failed: display identity unavailable".to_owned());
            },
        };
        let space = match displays[i].current_space {
            Some(space) => space,
            None => {
                proof {
                    lemma_active_entries_prefix_none(displays@, i as int + 1);
                }
                return Err("workspace_launch_failed: active Space unavailable".to_owned());
            },
        };
        proof {
            vstd::seq_lib::to_multiset_build(collected, (id@, space));
            collected = collected.push((id@, space));
        }
        insert_sorted(&mut active, (id, space));
    }
    proof {
        assert(displays@.subrange(0, displays@.len() as int) =~= displays@);
    }
    Ok(active)
}

proof fn lemma_active_entries_prefix_none(displays: Seq<ManagedDisplay>, k: int)
    requires
        0 <= k <= displays.len(),
        active_entries(displays.subrange(0, k)) is None,
    ensures
        active_entries(displays) is None,
    decreases displays.len() - k,
{
    if k < displays.len() {
        assert(displays.subrange(0, k + 1).drop_last() =~= displays.subrange(0, k));
        lemma_active_entries_prefix_none(displays, k + 1);
    } else {
        assert(displays.subrange(0, k) =~= displays);
    }
}

/// The ordinary desktops of `spaces`, in order, that `before` does not list.
pub open spec fn spaces_added(before: Seq<ManagedDisplay>, spaces: Seq<ManagedSpace>) -> Seq<u64>
    decreases spaces.len(),
{
    if spaces.len() == 0 {
        Seq::empty()
    } else {
        let rest = spaces_added(before, spaces.drop_last());
        let s = spaces.last();
        match s.id {
            Some(id) => if s.kind == Some(0u64) && !spec_contains_space(before, id) {
                rest.push(id)
            } else {
                rest
            },
            None => rest,
        }
    }
}

/// The ordinary desktops of `after`, in display order, that `before` does not list.
pub open spec fn desktops_added(before: Seq<ManagedDisplay>, after: Seq<ManagedDisplay>) -> Seq<u64>
    decreases after.len(),
{
    if after.len() == 0 {
        Seq::empty()
    } else {
        desktops_added(before, after.drop_last()) + spaces_added(before, after.last().spaces@)
    }
}

/// The ordinary desktops that appeared between two readings.
pub fn added_desktops(before: &[ManagedDisplay], after: &[ManagedDisplay]) -> (r: Vec<u64>)
    ensures
        r@ == desktops_added(before@, after@),
{
    let mut out: Vec<u64> = Vec::new();
    proof {
        assert(after@.subrange(0, 0) =~= Seq::<ManagedDisplay>::empty());
    }
    for i in 0..after.len()
        invariant
            out@ == desktops_added(before@, after@.subrange(0, i as int)),
    {
        let d = &after[i];
        let ghost base = out@;
        proof {
            assert(d.spaces@.subrange(0, 0) =~= Seq::<ManagedSpace>::empty());
            assert(base + spaces_added(before@, d.spaces@.subrange(0, 0)) =~= base);
        }
        for j in 0..d.spaces.len()
            invariant
                d == after@[i as int],
                i < after@.len(),
                out@ == base + spaces_added(before@, d.spaces@.subrange(0, j as int)),
        {
            proof {
                assert(d.spaces@.subrange(0, j + 1).drop_last() =~= d.spaces@.subrange(0, j as int));
                assert(d.spaces@.subrange(0, j + 1).last() == d.spaces@[j as int]);
            }
            let s = d.spaces[j];
            match s.id {
                Some(id) => {
                    if s.kind == Some(0) && !contains_space(before, id) {
                        out.push(id);
                        proof {
                            assert(out@ =~= base + spaces_added(before@, d.spaces@.subrange(0, j + 1)));
                        }
                    }
                },
                None => {},
            }
        }
        proof {
            assert(d.spaces@.subrange(0, d.spaces@.len() as int) =~= d.spaces@);
            assert(after@.subrange(0, i + 1).drop_last() =~= after@.subrange(0, i as int));
            assert(after@.subrange(0, i + 1).last() == after@[i as int]);
        }
    }
    proof {
        assert(after@.subrange(0, after@.len() as int) =~= after@);
    }
    out
}

pub open spec fn on_display(after: Seq<ManagedDisplay>, row: Option<usize>, id: u64) -> bool {
    match row {
        Some(i) => display_has(after[i as int], id),
        None => false,
    }
}

/// One poll of visible desktop creation.
pub enum CreateStep {
    /// Exactly one ordinary desktop appeared, on the requested display.
    Created(u64),
    /// Nothing appeared yet.
    Pending,
    /// The outcome is ambiguous; no ownership is assumed.
    Refused(String),
}

/// Decides one poll of visible desktop creation: `added` are the desktops
/// that appeared, `row` the requested display in the new reading.
pub fn create_step(after: &[ManagedDisplay], row: Option<usize>, added: &Vec<u64>) -> (r: CreateStep)
    requires
        row matches Some(i) ==> i < after@.len(),
    ensures
        added@.len() == 0 ==> r is Pending,
        added@.len() == 1 ==> match r {
            CreateStep::Created(id) => id == added@[0] && on_display(after@, row, id),
            CreateStep::Refused(e) => !on_display(after@, row, added@[0]) && e@
                == "workspace_create_ambiguous: desktop appeared on another display; no ownership assumed; space_id="@
                + decimal(added@[0] as nat),
            CreateStep::Pending => false,
        },
        added@.len() > 1 ==> match r {
            CreateStep::Refused(e) => e@
                == "workspace_create_ambiguous: multiple desktops appeared; no ownership assumed; space_ids="@
                + id_list_text(added@),
            _ => false,
        },
{
    if added.len() == 1 {
        let on_display = match row {
            Some(i) => display_contains(&after[i], added[0]),
            None => false,
        };
        if on_display {
            return CreateStep::Created(added[0]);
        }
        let mut message = "workspace_create_ambiguous: desktop appeared on another display; no ownership assumed; space_id=".to_owned();
        let digits = u64_text(added[0]);
        message.append(digits.as_str());
        return CreateStep::Refused(message);
    }
    if added.len() > 1 {
        let mut message = "workspace_create_ambiguous: multiple desktops appeared; no ownership assumed; space_ids=".to_owned();
        let list = id_list(added);
        message.append(list.as_str());
        return CreateStep::Refused(message);
    }
    CreateStep::Pending
}

/// The error reported when a native creation call did not yield a managed desktop.
pub fn space_create_error(id: u64) -> (r: String)
    ensures
        r@ == "workspace_operation_unsupported: SLSSpaceCreate did not create a managed Mission Control Space; raw_server_space_id="@
            + decimal(id as nat) + "; rollback requested; cleanup is unverified"@,
{
    let mut message = "workspace_operation_unsupported: SLSSpaceCreate did not create a managed Mission Control Space; raw_server_space_id=".to_owned();
    let digits = u64_text(id);
    message.append(digits.as_str());
    message.append("; rollback requested; cleanup is unverified");
    message
}

/// The error reported when a move left the window elsewhere.
pub fn move_incomplete_error(observed: &Vec<u64>) -> (r: String)
    ensures
        r@ == "workspace_move_incomplete: observed membership "@ + id_list_text(observed@),
{
    let mut message = "workspace_move_incomplete: observed membership ".to_owned();
    let list = id_list(observed);
    message.append(list.as_str());
    message
}

/// The screen's identifier names this display.
pub open spec fn screen_is(screen: (u32, Option<String>), d: ManagedDisplay) -> bool {
    match screen.1 {
        Some(u) => identified_as(d, u@),
        None => false,
    }
}

/// `row` is the first display that the screen's identifier names.
pub open spec fn screen_row(displays: Seq<ManagedDisplay>, screen: (u32, Option<String>), row: int) -> bool {
    &&& 0 <= row < displays.len()
    &&& screen_is(screen, displays[row])
    &&& forall|m: int| 0 <= m < row ==> !screen_is(screen, #[trigger] displays[m])
}

/// The first active display (in the given order, with its identifier where
/// known) whose desktop list holds `space`, with its position in `displays`.
pub fn locate_space(displays: &[ManagedDisplay], screens: &[(u32, Option<String>)], space: u64) -> (r: Option<(u32, usize)>)
    ensures
        match r {
            Some((id, row)) => row < displays@.len() && display_has(displays@[row as int], space) && exists|k: int|
                0 <= k < screens@.len() && (#[trigger] screens@[k]).0 == id && screen_row(displays@, screens@[k], row as int),
            None => forall|k: int, row: int|
                0 <= k < screens@.len() && #[trigger] screen_row(displays@, screens@[k], row) ==> !display_has(displays@[row], space),
        },
{
    for k in 0..screens.len()
        invariant
            forall|a: int, row: int|
                0 <= a < k && #[trigger] screen_row(displays@, screens@[a], row) ==> !display_has(displays@[row], space),
    {
        match &screens[k].1 {
            Some(uuid) => {
                match display_row(displays, uuid.as_str()) {
                    Some(row) => {
                        if display_contains(&displays[row], space) {
                            return Some((screens[k].0, row));
                        }
                    },
                    None => {},
                }
            },
            None => {},
        }
    }
    None
}

/// The desktop lists of two readings of one display are the same.
pub fn same_desktop_list(a: &ManagedDisplay, b: &ManagedDisplay) -> (r: bool)
    ensures
        r == (a.spaces@ == b.spaces@),
{
    if a.spaces.len() != b.spaces.len() {
        return false;
    }
    for i in 0..a.spaces.len()
        invariant
            a.spaces@.len() == b.spaces@.len(),
            forall|k: int| 0 <= k < i ==> a.spaces@[k] == b.spaces@[k],
    {
        if a.spaces[i] != b.spaces[i] {
            return false;
        }
    }
    assert(a.spaces@ =~= b.spaces@);
    true
}

/// Whether an explicit switch or deletion has visibly completed: a deleted
/// desktop is listed nowhere; a revealed desktop is its display's current one.
pub fn operation_verified(after: &[ManagedDisplay], row: Option<usize>, space: u64, delete: bool) -> (r: bool)
    requires
        row matches Some(i) ==> i < after@.len(),
    ensures
        r == if delete {
            !spec_contains_space(after@, space)
        } else {
            row matches Some(i) && after@[i as int].current_space == Some(space)
        },
{
    if delete {
        !contains_space(after, space)
    } else {
        match row {
            Some(i) => after[i].current_space == Some(space),
            None => false,
        }
    }
}

/// A launch must create a new process: a PID that existed before the
/// launch reused an existing process and grants nothing.
pub fn launch_isolated(before: &[i32], pid: i32) -> (r: Result<(), String>)
    ensures
        r is Ok <==> !before@.contains(pid),
        r is Err ==> err_view(r) == "workspace_launch_not_isolated: app reused an existing process; no access granted"@,
{
    for i in 0..before.len()
        invariant
            forall|k: int| 0 <= k < i ==> before@[k] != pid,
    {
        if before[i] == pid {
            return Err(
                "workspace_launch_not_isolated: app reused an existing process; no access granted".to_owned(),
            );
        }
    }
    Ok(())
}

/// The launch left the user's foreground and every display's desktop as
/// they were; otherwise the created process is left untouched and unauthorized.
pub fn launch_stayed_in_background(frontmost_unchanged: bool, active_unchanged: bool, pid: i32) -> (r: Result<(), String>)
    ensures
        r is Ok <==> (frontmost_unchanged && active_unchanged),
        r is Err ==> err_view(r)
            == "workspace_launch_background_failed: foreground changed during launch; created pid "@
            + signed_decimal(pid as int) + " left untouched and unauthorized"@,
{
    if frontmost_unchanged && active_unchanged {
        return Ok(());
    }
    let mut message = "workspace_launch_background_failed: foreground changed during launch; created pid ".to_owned();
    let digits = i64_text(pid as i64);
    message.append(digits.as_str());
    message.append(" left untouched and unauthorized");
    Err(message)
}

/// The only window a recipe without a single document may admit: the new
/// process must have exactly one top-level window.
pub fn single_launch_window(pid: i32, windows: &Vec<u32>) -> (r: Result<WindowTarget, String>)
    ensures
        windows@.len() == 1 ==> r == Ok::<WindowTarget, String>(
            WindowTarget { pid: pid as i64, window_id: windows@[0] as u64 },
        ),
        windows@.len() != 1 ==> r is Err && err_view(r) == "workspace_launch_ambiguous: created pid "@
            + signed_decimal(pid as int) + " has "@ + decimal(windows@.len()) + " top-level windows; no windows approved"@,
{
    if windows.len() == 1 {
        return Ok(WindowTarget { pid: pid as i64, window_id: windows[0] as u64 });
    }
    let mut message = "workspace_launch_ambiguous: created pid ".to_owned();
    let digits = i64_text(pid as i64);
    message.append(digits.as_str());
    message.append(" has ");
    let count = u64_text(windows.len() as u64);
    message.append(count.as_str());
    message.append(" top-level windows; no windows approved");
    Err(message)
}

/// A document recipe admits only the one window showing its document.
pub fn single_document_window(pid: i32, matches: usize) -> (r: Result<(), String>)
    ensures
        r is Ok <==> matches == 1,
        r is Err ==> err_view(r) == "workspace_launch_ambiguous: created pid "@ + signed_decimal(pid as int)
            + " has no unique exact document window; no windows approved"@,
{
    if matches == 1 {
        return Ok(());
    }
    let mut message = "workspace_launch_ambiguous: created pid ".to_owned();
    let digits = i64_text(pid as i64);
    message.append(digits.as_str());
    message.append(" has no unique exact document window; no windows approved");
    Err(message)
}

} // verus!
