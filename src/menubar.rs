//! Menu-bar items as the window server reports them, and the snapshot that the
//! rest of the program reads: menu-bar windows only, ordered left to right.
//!
//! Coordinates are held in tenths of a point.

use vstd::prelude::*;
use vstd::seq_lib::to_multiset_insert;

verus! {

/// The window layer on which the menu bar's status items live.
pub const MENUBAR_LAYER: i64 = 25;

/// One window as the window server describes it; each field is absent when
/// the description lacks it.
pub struct WindowRecord {
    pub layer: Option<i64>,
    pub window_id: Option<u32>,
    pub owner_name: Option<String>,
    pub owner_pid: Option<i32>,
    pub x: Option<i64>,
    pub width: Option<i64>,
}

/// One status item of the menu bar.
pub struct MenuBarItem {
    pub window_id: u32,
    pub owner_name: String,
    pub owner_pid: i32,
    /// Left edge, in tenths of a point.
    pub x: i64,
    /// Width, in tenths of a point.
    pub width: i64,
}

/// A menu-bar item as plain values.
pub struct ItemView {
    pub window_id: u32,
    pub owner_name: Seq<char>,
    pub owner_pid: i32,
    pub x: i64,
    pub width: i64,
}

impl View for MenuBarItem {
    type V = ItemView;

    open spec fn view(&self) -> ItemView {
        ItemView {
            window_id: self.window_id,
            owner_name: self.owner_name@,
            owner_pid: self.owner_pid,
            x: self.x,
            width: self.width,
        }
    }
}

/// The views of a sequence of items.
pub open spec fn views(s: Seq<MenuBarItem>) -> Seq<ItemView> {
    s.map_values(|i: MenuBarItem| i@)
}

/// The item a window record gives, with zero or empty for each absent field.
pub open spec fn item_of(r: WindowRecord) -> ItemView {
    ItemView {
        window_id: match r.window_id { Some(v) => v, None => 0 },
        owner_name: match r.owner_name { Some(v) => v@, None => Seq::empty() },
        owner_pid: match r.owner_pid { Some(v) => v, None => 0 },
        x: match r.x { Some(v) => v, None => 0 },
        width: match r.width { Some(v) => v, None => 0 },
    }
}

/// Whether a record is a status item that is placed: on the menu-bar layer and
/// not at x = 0, where detached items sit (items pushed off screen have x < 0).
pub open spec fn is_placed_item(r: WindowRecord) -> bool {
    r.layer == Some(MENUBAR_LAYER) && item_of(r).x != 0
}

/// The items of the placed records, in the records' order.
pub open spec fn placed_items(rs: Seq<WindowRecord>) -> Seq<ItemView>
    decreases rs.len(),
{
    if rs.len() == 0 {
        Seq::empty()
    } else {
        let p = placed_items(rs.drop_last());
        if is_placed_item(rs.last()) {
            p.push(item_of(rs.last()))
        } else {
            p
        }
    }
}

/// Whether items are ordered by ascending x.
pub open spec fn sorted_by_x(s: Seq<ItemView>) -> bool {
    forall|i: int, j: int| 0 <= i < j < s.len() ==> s[i].x <= s[j].x
}

/// The item a record gives.
fn record_item(r: &WindowRecord) -> (it: MenuBarItem)
    ensures
        it@ == item_of(*r),
{
    let owner_name = match &r.owner_name {
        Some(v) => v.clone(),
        None => String::new(),
    };
    MenuBarItem {
        window_id: match r.window_id { Some(v) => v, None => 0 },
        owner_name,
        owner_pid: match r.owner_pid { Some(v) => v, None => 0 },
        x: match r.x { Some(v) => v, None => 0 },
        width: match r.width { Some(v) => v, None => 0 },
    }
}

/// The menu-bar snapshot: the placed status items of the window list, ordered
/// by ascending x; items with equal x keep the window list's order.
pub fn menubar_items(records: &Vec<WindowRecord>) -> (r: Vec<MenuBarItem>)
    ensures
        sorted_by_x(views(r@)),
        views(r@).to_multiset() == placed_items(records@).to_multiset(),
{
    let mut out: Vec<MenuBarItem> = Vec::new();
    let mut i: usize = 0;
    proof {
        assert(records@.take(0) =~= Seq::<WindowRecord>::empty());
        assert(views(out@) =~= Seq::<ItemView>::empty());
    }
    while i < records.len()
        invariant
            i <= records@.len(),
            sorted_by_x(views(out@)),
            views(out@).to_multiset() == placed_items(records@.take(i as int)).to_multiset(),
        decreases records@.len() - i,
    {
        let rec = &records[i];
        assert(records@.take(i + 1).drop_last() == records@.take(i as int));
        let placed = match rec.layer {
            Some(l) => l == MENUBAR_LAYER,
            None => false,
        };
        let item = record_item(rec);
        if placed && item.x != 0 {
            let mut j: usize = 0;
            while j < out.len() && out[j].x <= item.x
                invariant
                    j <= out@.len(),
                    forall|k: int| 0 <= k < j ==> out@[k].x <= item.x,
                decreases out@.len() - j,
            {
                j = j + 1;
            }
            let ghost before = out@;
            let ghost iv = item@;
            out.insert(j, item);
            proof {
                let vb = views(before);
                assert(views(out@) =~= vb.insert(j as int, iv));
                assert(forall|k: int| 0 <= k < vb.len() ==> #[trigger] vb[k].x == before[k].x);
                assert forall|k: int| j <= k < vb.len() implies iv.x < #[trigger] vb[k].x by {
                    assert(vb[j as int].x <= vb[k].x);
                }
                assert(sorted_by_x(views(out@)));
                to_multiset_insert(views(before), j as int, iv);
                vstd::seq_lib::lemma_multiset_commutative(
                    placed_items(records@.take(i as int)),
                    seq![iv],
                );
                assert(placed_items(records@.take(i + 1)) == placed_items(records@.take(i as int)) + seq![iv]);
                assert(views(before).to_multiset().insert(iv) =~= placed_items(records@.take(i as int)).to_multiset().add(seq![iv].to_multiset())) by {
                    broadcast use vstd::seq_lib::group_to_multiset_ensures;
                    assert(seq![iv] == Seq::<ItemView>::empty().push(iv));
                }
            }
        }
        i = i + 1;
    }
    assert(records@.take(records@.len() as int) == records@);
    out
}

/// The number of double quotes in a string.
pub open spec fn quote_count(s: Seq<char>) -> nat
    decreases s.len(),
{
    if s.len() == 0 {
        0
    } else {
        quote_count(s.drop_last()) + if s.last() == '"' { 1nat } else { 0nat }
    }
}

/// Whether `s[a..b]` is the fourth field of `s` split at double quotes: it
/// starts right after the third quote and ends at the fourth quote or at the end.
pub open spec fn is_fourth_field(s: Seq<char>, a: int, b: int) -> bool {
    &&& 1 <= a <= b <= s.len()
    &&& s[a - 1] == '"'
    &&& quote_count(s.take(a)) == 3
    &&& quote_count(s.take(b)) == 3
    &&& (b == s.len() || s[b] == '"')
}

/// A prefix never holds more quotes than the whole string.
proof fn quote_count_grows(s: Seq<char>, k: int)
    requires
        0 <= k <= s.len(),
    ensures
        quote_count(s.take(k)) <= quote_count(s),
    decreases s.len() - k,
{
    if k < s.len() {
        quote_count_grows(s, k + 1);
        assert(s.take(k + 1).drop_last() =~= s.take(k));
    } else {
        assert(s.take(k) =~= s);
    }
}

/// The bundle identifier in what `lsappinfo info -only bundleid` prints
/// (`"CFBundleIdentifier"="com.example.App"`): the fourth field when the text
/// is split at double quotes, if the text has that many fields.
pub fn bundle_id_from_info(info: &str) -> (r: Option<String>)
    ensures
        r is Some <==> quote_count(info@) >= 3,
        r matches Some(v) ==> exists|a: int, b: int| is_fourth_field(info@, a, b) && v@ == info@.subrange(a, b),
{
    let cs = crate::text::chars_of(info);
    let n = cs.len();
    let mut count: usize = 0;
    let mut start: usize = 0;
    let mut i: usize = 0;
    proof {
        assert(cs@.take(0) =~= Seq::<char>::empty());
    }
    while i < n
        invariant
            cs@ == info@,
            n == cs@.len(),
            i <= n,
            count <= 3,
            count == quote_count(cs@.take(i as int)),
            count == 3 ==> 1 <= start <= i && cs@[start - 1] == '"' && quote_count(cs@.take(start as int)) == 3,
        decreases n - i,
    {
        assert(cs@.take(i + 1).drop_last() =~= cs@.take(i as int));
        if cs[i] == '"' {
            if count == 3 {
                proof {
                    quote_count_grows(cs@, i + 1);
                }
                let field = info.substring_char(start, i);
                assert(is_fourth_field(info@, start as int, i as int));
                return Some(String::from_str(field));
            }
            count = count + 1;
            if count == 3 {
                start = i + 1;
            }
        }
        i = i + 1;
    }
    assert(cs@.take(n as int) =~= cs@);
    if count == 3 {
        let field = info.substring_char(start, n);
        assert(is_fourth_field(info@, start as int, n as int));
        Some(String::from_str(field))
    } else {
        None
    }
}

/// Whether an item is this program's own divider.
pub open spec fn is_own(it: ItemView) -> bool {
    it.owner_name == "nanobar"@
}

/// Whether an item is this program's own divider.
pub fn is_own_item(it: &MenuBarItem) -> (r: bool)
    ensures
        r == is_own(it@),
{
    crate::text::same_text(it.owner_name.as_str(), "nanobar")
}

/// The index of the divider in a snapshot: the first of this program's own items.
pub fn divider_index(items: &Vec<MenuBarItem>) -> (r: Option<usize>)
    ensures
        r matches Some(k) ==> k < items@.len() && is_own(items@[k as int]@)
            && forall|j: int| 0 <= j < k ==> !is_own(#[trigger] items@[j]@),
        r is None ==> forall|j: int| 0 <= j < items@.len() ==> !is_own(#[trigger] items@[j]@),
{
    let mut i: usize = 0;
    while i < items.len()
        invariant
            i <= items@.len(),
            forall|j: int| 0 <= j < i ==> !is_own(#[trigger] items@[j]@),
        decreases items@.len() - i,
    {
        if is_own_item(&items[i]) {
            return Some(i);
        }
        i = i + 1;
    }
    None
}

/// The width, in tenths of a point, above which the divider counts as expanded.
pub const EXPANDED_WIDTH: i64 = 1000;

/// How an item is marked in the item listing.
#[derive(Clone, Copy, Debug, PartialEq, Eq, Structural)]
pub enum ListMarker {
    /// Nothing to say about the item.
    Plain,
    /// The item is the divider.
    Divider,
    /// The item has been pushed off the left edge of the screen.
    Hidden,
    /// The item is left of the divider and will be hidden by the next hide.
    WillHide,
}

/// The marker of an item in the listing, given the divider if there is one.
pub open spec fn marker_of(it: ItemView, divider: Option<ItemView>) -> ListMarker {
    if is_own(it) {
        ListMarker::Divider
    } else if it.x < 0 {
        ListMarker::Hidden
    } else {
        match divider {
            Some(d) => if d.width <= EXPANDED_WIDTH && it.x < d.x {
                ListMarker::WillHide
            } else {
                ListMarker::Plain
            },
            None => ListMarker::Plain,
        }
    }
}

/// The marker of an item in the listing.
pub fn list_marker(it: &MenuBarItem, divider: Option<&MenuBarItem>) -> (r: ListMarker)
    ensures
        r == marker_of(it@, match divider { Some(d) => Some(d@), None => None }),
{
    if is_own_item(it) {
        ListMarker::Divider
    } else if it.x < 0 {
        ListMarker::Hidden
    } else {
        match divider {
            Some(d) => {
                if d.width <= EXPANDED_WIDTH && it.x < d.x {
                    ListMarker::WillHide
                } else {
                    ListMarker::Plain
                }
            },
            None => ListMarker::Plain,
        }
    }
}

/// The owner names of the items that satisfy `keep`, in snapshot order.
pub open spec fn owners_where(items: Seq<ItemView>, keep: spec_fn(ItemView) -> bool) -> Seq<Seq<char>>
    decreases items.len(),
{
    if items.len() == 0 {
        Seq::empty()
    } else {
        let p = owners_where(items.drop_last(), keep);
        if keep(items.last()) {
            p.push(items.last().owner_name)
        } else {
            p
        }
    }
}

/// Items left of the divider at `dx`, this program's own left out.
pub open spec fn left_of(dx: i64) -> spec_fn(ItemView) -> bool {
    |it: ItemView| it.x < dx && !is_own(it)
}

/// Items right of the divider at `dx`, this program's own left out.
pub open spec fn right_of(dx: i64) -> spec_fn(ItemView) -> bool {
    |it: ItemView| it.x > dx && !is_own(it)
}

/// The views of a sequence of strings.
pub open spec fn names_view(v: Seq<String>) -> Seq<Seq<char>> {
    v.map_values(|s: String| s@)
}

/// The owners of the items on each side of the divider at `divider_x`, this
/// program's own items left out: first those left of it (hidden by a hide),
/// then those right of it (always visible).
pub fn split_at_divider(items: &Vec<MenuBarItem>, divider_x: i64) -> (r: (Vec<String>, Vec<String>))
    ensures
        names_view(r.0@) == owners_where(views(items@), left_of(divider_x)),
        names_view(r.1@) == owners_where(views(items@), right_of(divider_x)),
{
    let mut hidden: Vec<String> = Vec::new();
    let mut visible: Vec<String> = Vec::new();
    let mut i: usize = 0;
    proof {
        assert(views(items@).take(0) =~= Seq::<ItemView>::empty());
        assert(names_view(hidden@) =~= Seq::<Seq<char>>::empty());
        assert(names_view(visible@) =~= Seq::<Seq<char>>::empty());
    }
    while i < items.len()
        invariant
            i <= items@.len(),
            names_view(hidden@) == owners_where(views(items@).take(i as int), left_of(divider_x)),
            names_view(visible@) == owners_where(views(items@).take(i as int), right_of(divider_x)),
        decreases items@.len() - i,
    {
        let ghost h0 = hidden@;
        let ghost v0 = visible@;
        assert(views(items@).take(i + 1).drop_last() =~= views(items@).take(i as int));
        assert(views(items@).take(i + 1).last() == items@[i as int]@);
        let it = &items[i];
        let own = is_own_item(it);
        if it.x < divider_x && !own {
            hidden.push(it.owner_name.clone());
            assert(names_view(hidden@) =~= names_view(h0).push(it.owner_name@));
        }
        if it.x > divider_x && !own {
            visible.push(it.owner_name.clone());
            assert(names_view(visible@) =~= names_view(v0).push(it.owner_name@));
        }
        i = i + 1;
    }
    assert(views(items@).take(items@.len() as int) =~= views(items@));
    (hidden, visible)
}

} // verus!
