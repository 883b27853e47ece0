//! The divider-positioning resolver: from the user's target arguments and a
//! menu-bar snapshot to the matched items, and from their saved positions to
//! the new saved position of the divider.
//!
//! Positions are the menu bar's saved "preferred positions", in tenths of a
//! point; a lower value stands further right.

use vstd::prelude::*;
use crate::error::Error;
use crate::menubar::{MenuBarItem, ItemView, views, is_own, is_own_item, owners_where, names_view};
use crate::text::same_text;
use crate::text::{lower_of, lowercase, has_substring, contains_text, parsed_usize, parse_index};

verus! {

/// How far left of the rightmost target the divider lands, in tenths of a point.
pub const DIVIDER_MARGIN: i64 = 200;

/// The lowest divider position that is ever written, in tenths of a point.
pub const MIN_DIVIDER_POSITION: i64 = 10;

/// How far left of the divider the pusher is placed, in tenths of a point.
pub const PUSHER_OFFSET: i64 = 20;

/// The name under which the window server lists this program's own items.
pub open spec fn own_name() -> Seq<char> {
    "nanobar"@
}

/// The views of a sequence of strings.
pub open spec fn texts(v: Seq<String>) -> Seq<Seq<char>> {
    v.map_values(|s: String| s@)
}

/// The name a target argument stands for: a 1-based index into the snapshot
/// stands for that item's owner name; anything else stands for itself.
pub open spec fn resolved_name(arg: Seq<char>, items: Seq<ItemView>) -> Seq<char> {
    match parsed_usize(arg) {
        Some(n) => if 1 <= n <= items.len() {
            items[n - 1].owner_name
        } else {
            arg
        },
        None => arg,
    }
}

/// The name a target argument stands for.
pub fn resolve_target(arg: &String, items: &Vec<MenuBarItem>) -> (r: String)
    ensures
        r@ == resolved_name(arg@, views(items@)),
{
    match parse_index(arg.as_str()) {
        Some(n) => {
            if n >= 1 && n <= items.len() {
                items[n - 1].owner_name.clone()
            } else {
                arg.clone()
            }
        },
        None => arg.clone(),
    }
}

/// The names that the target arguments stand for, one for each argument.
pub fn resolve_targets(args: &Vec<String>, items: &Vec<MenuBarItem>) -> (r: Vec<String>)
    ensures
        r@.len() == args@.len(),
        forall|k: int| 0 <= k < args@.len() ==> #[trigger] r@[k]@ == resolved_name(args@[k]@, views(items@)),
{
    let mut out: Vec<String> = Vec::new();
    let mut i: usize = 0;
    while i < args.len()
        invariant
            i <= args@.len(),
            out@.len() == i,
            forall|k: int| 0 <= k < i ==> #[trigger] out@[k]@ == resolved_name(args@[k]@, views(items@)),
        decreases args@.len() - i,
    {
        let name = resolve_target(&args[i], items);
        out.push(name);
        i = i + 1;
    }
    out
}

/// Whether an item's owner matches a target name: the lowercase owner name
/// contains the lowercase target name, and the item is not one of this program's own.
pub open spec fn is_match(owner: Seq<char>, owner_lower: Seq<char>, name_lower: Seq<char>) -> bool {
    has_substring(owner_lower, name_lower) && owner != own_name()
}

/// Whether an item matches a target name, given both in lowercase.
pub fn owner_matches(owner: &str, owner_lower: &str, name_lower: &str) -> (r: bool)
    ensures
        r == is_match(owner@, owner_lower@, name_lower@),
{
    contains_text(owner_lower, name_lower) && !same_text(owner, "nanobar")
}

/// Whether an item matches a target name.
pub open spec fn item_matches(it: ItemView, name: Seq<char>) -> bool {
    is_match(it.owner_name, lower_of(it.owner_name), lower_of(name))
}

/// The indices, among the first `n` items, of the items that match a target name.
pub open spec fn matching_indices(items: Seq<ItemView>, name: Seq<char>, n: int) -> Seq<usize>
    decreases n,
{
    if n <= 0 {
        Seq::empty()
    } else {
        let p = matching_indices(items, name, n - 1);
        if item_matches(items[n - 1], name) {
            p.push((n - 1) as usize)
        } else {
            p
        }
    }
}

/// The indices of the snapshot's items that match a target name, in snapshot order.
pub fn match_target(name: &str, items: &Vec<MenuBarItem>) -> (r: Vec<usize>)
    ensures
        r@ == matching_indices(views(items@), name@, items@.len() as int),
{
    let name_lower = lowercase(name);
    let mut out: Vec<usize> = Vec::new();
    let mut i: usize = 0;
    while i < items.len()
        invariant
            i <= items@.len(),
            name_lower@ == lower_of(name@),
            out@ == matching_indices(views(items@), name@, i as int),
        decreases items@.len() - i,
    {
        let owner = items[i].owner_name.as_str();
        let owner_lower = lowercase(owner);
        if owner_matches(owner, owner_lower.as_str(), name_lower.as_str()) {
            out.push(i);
        }
        i = i + 1;
    }
    out
}

/// What the matching of several target names gives: the indices of the
/// matched items, name after name, and the names that matched nothing.
pub struct TargetMatches {
    pub matched: Vec<usize>,
    pub not_found: Vec<String>,
}

/// The matched item indices of several target names, name after name.
pub open spec fn matched_of(names: Seq<Seq<char>>, items: Seq<ItemView>) -> Seq<usize>
    decreases names.len(),
{
    if names.len() == 0 {
        Seq::empty()
    } else {
        matched_of(names.drop_last(), items) + matching_indices(items, names.last(), items.len() as int)
    }
}

/// The target names that match no item, in their order.
pub open spec fn not_found_of(names: Seq<Seq<char>>, items: Seq<ItemView>) -> Seq<Seq<char>>
    decreases names.len(),
{
    if names.len() == 0 {
        Seq::empty()
    } else {
        let p = not_found_of(names.drop_last(), items);
        if matching_indices(items, names.last(), items.len() as int).len() == 0 {
            p.push(names.last())
        } else {
            p
        }
    }
}

/// Matches each target name against the snapshot. A name that matches nothing
/// is set aside as not found; the others go on.
pub fn match_targets(names: &Vec<String>, items: &Vec<MenuBarItem>) -> (r: TargetMatches)
    ensures
        r.matched@ == matched_of(texts(names@), views(items@)),
        texts(r.not_found@) == not_found_of(texts(names@), views(items@)),
{
    let mut matched: Vec<usize> = Vec::new();
    let mut not_found: Vec<String> = Vec::new();
    let mut i: usize = 0;
    proof {
        assert(texts(names@).take(0) =~= Seq::<Seq<char>>::empty());
        assert(texts(not_found@) =~= Seq::<Seq<char>>::empty());
    }
    while i < names.len()
        invariant
            i <= names@.len(),
            matched@ == matched_of(texts(names@).take(i as int), views(items@)),
            texts(not_found@) == not_found_of(texts(names@).take(i as int), views(items@)),
        decreases names@.len() - i,
    {
        let ghost before = not_found@;
        assert(texts(names@).take(i + 1).drop_last() =~= texts(names@).take(i as int));
        let mut m = match_target(names[i].as_str(), items);
        if m.len() == 0 {
            not_found.push(names[i].clone());
            assert(texts(not_found@) =~= texts(before).push(names@[i as int]@));
        }
        matched.append(&mut m);
        i = i + 1;
    }
    assert(texts(names@).take(names@.len() as int) =~= texts(names@));
    TargetMatches { matched, not_found }
}

/// A target name that matches no item, wherever it stands among the names, is
/// reported as not found and takes nothing away: the items matched by the
/// other names are matched just as without it.
pub proof fn unmatched_name_is_only_reported(
    names: Seq<Seq<char>>,
    k: int,
    missing: Seq<char>,
    items: Seq<ItemView>,
)
    requires
        0 <= k <= names.len(),
        matching_indices(items, missing, items.len() as int).len() == 0,
    ensures
        matched_of(names.insert(k, missing), items) == matched_of(names, items),
        not_found_of(names.insert(k, missing), items).contains(missing),
    decreases names.len(),
{
    let with = names.insert(k, missing);
    if k == names.len() {
        assert(with.drop_last() =~= names);
        assert(matching_indices(items, missing, items.len() as int) =~= Seq::<usize>::empty());
        assert(matched_of(with, items) =~= matched_of(names, items));
        assert(not_found_of(with, items) == not_found_of(names, items).push(missing));
        assert(not_found_of(with, items).last() == missing);
    } else {
        unmatched_name_is_only_reported(names.drop_last(), k, missing, items);
        assert(with.drop_last() =~= names.drop_last().insert(k, missing));
        assert(with.last() == names.last());
        let p = not_found_of(with.drop_last(), items);
        let j = choose|j: int| 0 <= j < p.len() && p[j] == missing;
        assert(not_found_of(with, items)[j] == missing);
    }
}

/// Whether a sequence of looked-up positions holds at least one position.
pub open spec fn any_position(ps: Seq<Option<i64>>) -> bool {
    exists|k: int| 0 <= k < ps.len() && #[trigger] ps[k] is Some
}

/// Whether `m` is the least of the positions that were found.
pub open spec fn is_least_position(ps: Seq<Option<i64>>, m: i64) -> bool {
    &&& exists|k: int| 0 <= k < ps.len() && #[trigger] ps[k] == Some(m)
    &&& forall|k: int| 0 <= k < ps.len() && #[trigger] ps[k] is Some ==> m <= ps[k]->0
}

/// The least of the positions that were found (the rightmost target), if any
/// was found; items without a saved position are left out.
pub fn target_position(ps: &Vec<Option<i64>>) -> (r: Option<i64>)
    ensures
        r is None <==> !any_position(ps@),
        r matches Some(m) ==> is_least_position(ps@, m),
{
    let mut best: Option<i64> = None;
    let mut i: usize = 0;
    while i < ps.len()
        invariant
            i <= ps@.len(),
            best is None <==> !any_position(ps@.take(i as int)),
            best matches Some(m) ==> is_least_position(ps@.take(i as int), m),
        decreases ps@.len() - i,
    {
        let ghost pre = ps@.take(i as int);
        let ghost cur = ps@.take(i + 1);
        assert(cur =~= pre.push(ps@[i as int]));
        assert(forall|k: int| 0 <= k < i ==> #[trigger] cur[k] == pre[k]);
        match ps[i] {
            Some(p) => {
                match best {
                    Some(b) => {
                        if p < b {
                            best = Some(p);
                        }
                    },
                    None => {
                        best = Some(p);
                    },
                }
                assert(cur[i as int] == Some(p));
            },
            None => {
                proof {
                    if best is None {
                        assert forall|k: int| 0 <= k < cur.len() implies !(#[trigger] cur[k] is Some) by {
                            if k < i {
                                assert(!(pre[k] is Some));
                            }
                        }
                    }
                }
            },
        }
        i = i + 1;
    }
    assert(ps@.take(ps@.len() as int) =~= ps@);
    best
}

/// The divider position for a target position: the margin to its right, but
/// never below the lowest position.
pub open spec fn divider_of(target: int) -> int {
    if target - DIVIDER_MARGIN < MIN_DIVIDER_POSITION {
        MIN_DIVIDER_POSITION as int
    } else {
        target - DIVIDER_MARGIN
    }
}

/// The divider position that places the divider just right of a target position.
pub fn divider_position(target: i64) -> (r: i64)
    ensures
        r == divider_of(target as int),
{
    if target < MIN_DIVIDER_POSITION + DIVIDER_MARGIN {
        MIN_DIVIDER_POSITION
    } else {
        target - DIVIDER_MARGIN
    }
}

/// The new divider position from the looked-up positions of the matched items:
/// it fails exactly when no position was found, and otherwise places the
/// divider just right of the least one.
pub fn plan_divider(ps: &Vec<Option<i64>>) -> (r: Result<i64, Error>)
    ensures
        r is Err <==> !any_position(ps@),
        r matches Err(e) ==> e == Error::ResolutionFailed,
        r matches Ok(d) ==> exists|m: i64| is_least_position(ps@, m) && d == divider_of(m as int),
{
    match target_position(ps) {
        Some(m) => Ok(divider_position(m)),
        None => Err(Error::ResolutionFailed),
    }
}

/// Where the pusher goes for a given divider position: just left of it.
pub fn pusher_position(divider: i64) -> (r: i64)
    requires
        divider <= i64::MAX - PUSHER_OFFSET,
    ensures
        r == divider + PUSHER_OFFSET,
{
    divider + PUSHER_OFFSET
}

/// The owner names of the matched items whose position was found, in order.
pub open spec fn located_of(items: Seq<ItemView>, matched: Seq<usize>, ps: Seq<Option<i64>>) -> Seq<Seq<char>>
    decreases matched.len(),
{
    if matched.len() == 0 || ps.len() != matched.len() {
        Seq::empty()
    } else {
        let p = located_of(items, matched.drop_last(), ps.drop_last());
        if ps.last() is Some {
            p.push(items[matched.last() as int].owner_name)
        } else {
            p
        }
    }
}

/// The owner names of the matched items whose position was found; `ps[k]` is
/// the position looked up for the item at index `matched[k]`.
pub fn located_names(items: &Vec<MenuBarItem>, matched: &Vec<usize>, ps: &Vec<Option<i64>>) -> (r: Vec<String>)
    requires
        ps@.len() == matched@.len(),
        forall|k: int| 0 <= k < matched@.len() ==> #[trigger] matched@[k] < items@.len(),
    ensures
        names_view(r@) == located_of(views(items@), matched@, ps@),
{
    let mut out: Vec<String> = Vec::new();
    let mut i: usize = 0;
    proof {
        assert(matched@.take(0) =~= Seq::<usize>::empty());
        assert(names_view(out@) =~= Seq::<Seq<char>>::empty());
    }
    while i < matched.len()
        invariant
            i <= matched@.len(),
            ps@.len() == matched@.len(),
            forall|k: int| 0 <= k < matched@.len() ==> #[trigger] matched@[k] < items@.len(),
            names_view(out@) == located_of(views(items@), matched@.take(i as int), ps@.take(i as int)),
        decreases matched@.len() - i,
    {
        let ghost o0 = out@;
        assert(matched@.take(i + 1).drop_last() =~= matched@.take(i as int));
        assert(ps@.take(i + 1).drop_last() =~= ps@.take(i as int));
        if ps[i].is_some() {
            let k = matched[i];
            out.push(items[k].owner_name.clone());
            assert(names_view(out@) =~= names_view(o0).push(items@[k as int].owner_name@));
        }
        i = i + 1;
    }
    assert(matched@.take(matched@.len() as int) =~= matched@);
    assert(ps@.take(ps@.len() as int) =~= ps@);
    out
}

/// The index of the first item among the first `n` that `name` owns.
pub open spec fn first_owned(items: Seq<ItemView>, name: Seq<char>, n: int) -> Option<int>
    decreases n,
{
    if n <= 0 {
        None
    } else {
        match first_owned(items, name, n - 1) {
            Some(k) => Some(k),
            None => if items[n - 1].owner_name == name {
                Some(n - 1)
            } else {
                None
            },
        }
    }
}

/// The right edge of an item.
pub open spec fn right_edge(it: ItemView) -> int {
    it.x + it.width
}

/// The rightmost right edge among the first items owned by each name, if
/// any name owns an item.
pub open spec fn cut_of(items: Seq<ItemView>, names: Seq<Seq<char>>) -> Option<int>
    decreases names.len(),
{
    if names.len() == 0 {
        None
    } else {
        let p = cut_of(items, names.drop_last());
        match first_owned(items, names.last(), items.len() as int) {
            None => p,
            Some(k) => {
                let e = right_edge(items[k]);
                match p {
                    None => Some(e),
                    Some(c) => Some(if c < e { e } else { c }),
                }
            },
        }
    }
}

/// The index of the first item that `name` owns.
fn first_owned_index(items: &Vec<MenuBarItem>, name: &str) -> (r: Option<usize>)
    ensures
        r matches Some(k) ==> k < items@.len() && first_owned(views(items@), name@, items@.len() as int) == Some(k as int),
        r is None ==> first_owned(views(items@), name@, items@.len() as int) is None,
{
    let mut i: usize = 0;
    while i < items.len()
        invariant
            i <= items@.len(),
            first_owned(views(items@), name@, i as int) is None,
        decreases items@.len() - i,
    {
        if same_text(items[i].owner_name.as_str(), name) {
            assert(first_owned(views(items@), name@, i + 1) == Some(i as int));
            proof {
                first_owned_stays(views(items@), name@, i + 1, items@.len() as int);
            }
            return Some(i);
        }
        i = i + 1;
    }
    None
}

/// Once an item is found among the first `n`, looking further finds the same one.
proof fn first_owned_stays(items: Seq<ItemView>, name: Seq<char>, n: int, m: int)
    requires
        n <= m,
        first_owned(items, name, n) is Some,
    ensures
        first_owned(items, name, m) == first_owned(items, name, n),
    decreases m - n,
{
    if n < m {
        first_owned_stays(items, name, n, m - 1);
    }
}

/// The rightmost right edge among the items owned by the named targets.
fn rightmost_edge(items: &Vec<MenuBarItem>, names: &Vec<String>) -> (r: Option<i128>)
    ensures
        r matches Some(c) ==> cut_of(views(items@), names_view(names@)) == Some(c as int),
        r is None ==> cut_of(views(items@), names_view(names@)) is None,
{
    let mut best: Option<i128> = None;
    let mut i: usize = 0;
    proof {
        assert(names_view(names@).take(0) =~= Seq::<Seq<char>>::empty());
    }
    while i < names.len()
        invariant
            i <= names@.len(),
            best matches Some(c) ==> cut_of(views(items@), names_view(names@).take(i as int)) == Some(c as int),
            best is None ==> cut_of(views(items@), names_view(names@).take(i as int)) is None,
        decreases names@.len() - i,
    {
        assert(names_view(names@).take(i + 1).drop_last() =~= names_view(names@).take(i as int));
        match first_owned_index(items, names[i].as_str()) {
            Some(k) => {
                let e = items[k].x as i128 + items[k].width as i128;
                match best {
                    Some(c) => {
                        if c < e {
                            best = Some(e);
                        }
                    },
                    None => {
                        best = Some(e);
                    },
                }
            },
            None => {},
        }
        i = i + 1;
    }
    assert(names_view(names@).take(names@.len() as int) =~= names_view(names@));
    best
}

/// Whether a list of names holds a given name.
pub fn names_contain(names: &Vec<String>, name: &str) -> (r: bool)
    ensures
        r == names_view(names@).contains(name@),
{
    let mut i: usize = 0;
    while i < names.len()
        invariant
            i <= names@.len(),
            forall|k: int| 0 <= k < i ==> #[trigger] names@[k]@ != name@,
        decreases names@.len() - i,
    {
        if same_text(names[i].as_str(), name) {
            assert(names_view(names@)[i as int] == name@);
            return true;
        }
        i = i + 1;
    }
    proof {
        if names_view(names@).contains(name@) {
            let k = choose|k: int| 0 <= k < names_view(names@).len() && names_view(names@)[k] == name@;
            assert(names@[k]@ == name@);
        }
    }
    false
}

/// Items hidden along with the targets: left of the targets' rightmost edge,
/// neither this program's own nor owned by a target.
pub open spec fn hidden_along(cut: int, targets: Seq<Seq<char>>) -> spec_fn(ItemView) -> bool {
    |it: ItemView| it.x < cut && !is_own(it) && !targets.contains(it.owner_name)
}

/// The owners of the items that a hide will hide along with the target
/// items: those left of the rightmost edge of the targets' items.
pub fn also_hidden(items: &Vec<MenuBarItem>, targets: &Vec<String>) -> (r: Vec<String>)
    ensures
        names_view(r@) == match cut_of(views(items@), names_view(targets@)) {
            Some(c) => owners_where(views(items@), hidden_along(c, names_view(targets@))),
            None => Seq::<Seq<char>>::empty(),
        },
{
    let mut out: Vec<String> = Vec::new();
    let cut = match rightmost_edge(items, targets) {
        Some(c) => c,
        None => {
            assert(names_view(out@) =~= Seq::<Seq<char>>::empty());
            return out;
        },
    };
    let ghost keep = hidden_along(cut as int, names_view(targets@));
    let mut i: usize = 0;
    proof {
        assert(views(items@).take(0) =~= Seq::<ItemView>::empty());
        assert(names_view(out@) =~= Seq::<Seq<char>>::empty());
    }
    while i < items.len()
        invariant
            i <= items@.len(),
            keep == hidden_along(cut as int, names_view(targets@)),
            names_view(out@) == owners_where(views(items@).take(i as int), keep),
        decreases items@.len() - i,
    {
        let ghost o0 = out@;
        assert(views(items@).take(i + 1).drop_last() =~= views(items@).take(i as int));
        assert(views(items@).take(i + 1).last() == items@[i as int]@);
        let it = &items[i];
        if (it.x as i128) < cut && !is_own_item(it) && !names_contain(targets, it.owner_name.as_str()) {
            out.push(it.owner_name.clone());
            assert(names_view(out@) =~= names_view(o0).push(it.owner_name@));
        }
        i = i + 1;
    }
    assert(views(items@).take(items@.len() as int) =~= views(items@));
    out
}

} // verus!
