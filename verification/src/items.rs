//! The known tray items, and the events that tell of changes to them.

use vstd::prelude::*;

use crate::item::{ItemId, TrayItem, TrayItemView};
use crate::text;

verus! {

/// What happened to the tray.
#[derive(Debug, Clone, PartialEq, Eq)]
pub enum TrayEvent {
    ItemAdded(ItemId),
    ItemChanged(ItemId),
    ItemRemoved(ItemId),
    MenuChanged(ItemId),
    MenuActivationRequested(ItemId),
    HostShutdown,
}

/// What a [`TrayEvent`] says.
pub enum TrayEventView {
    ItemAdded(Seq<char>),
    ItemChanged(Seq<char>),
    ItemRemoved(Seq<char>),
    MenuChanged(Seq<char>),
    MenuActivationRequested(Seq<char>),
    HostShutdown,
}

impl View for TrayEvent {
    type V = TrayEventView;

    open spec fn view(&self) -> TrayEventView {
        match self {
            TrayEvent::ItemAdded(id) => TrayEventView::ItemAdded(id@),
            TrayEvent::ItemChanged(id) => TrayEventView::ItemChanged(id@),
            TrayEvent::ItemRemoved(id) => TrayEventView::ItemRemoved(id@),
            TrayEvent::MenuChanged(id) => TrayEventView::MenuChanged(id@),
            TrayEvent::MenuActivationRequested(id) => TrayEventView::MenuActivationRequested(id@),
            TrayEvent::HostShutdown => TrayEventView::HostShutdown,
        }
    }
}

/// The contents of a row of events.
pub open spec fn event_views(events: Seq<TrayEvent>) -> Seq<TrayEventView> {
    Seq::new(events.len(), |i: int| events[i]@)
}

/// The contents of a row of identifiers.
pub open spec fn id_views(ids: Seq<ItemId>) -> Seq<Seq<char>> {
    Seq::new(ids.len(), |i: int| ids[i]@)
}

/// The known tray items, in the order in which they became known. Each identifier stands for
/// one item at most.
#[derive(Debug)]
pub struct Items {
    list: Vec<TrayItem>,
}

impl View for Items {
    type V = Seq<TrayItemView>;

    closed spec fn view(&self) -> Seq<TrayItemView> {
        Seq::new(self.list@.len(), |i: int| self.list@[i]@)
    }
}

/// No identifier occurs twice.
pub open spec fn ids_distinct(items: Seq<TrayItemView>) -> bool {
    forall|i: int, j: int|
        0 <= i < j < items.len() ==> (#[trigger] items[i]).id != (#[trigger] items[j]).id
}

/// There is an item with that identifier.
pub open spec fn has_id(items: Seq<TrayItemView>, id: Seq<char>) -> bool {
    exists|i: int| 0 <= i < items.len() && (#[trigger] items[i]).id == id
}

/// The position of the first item with that identifier, or the number of items.
pub open spec fn position(items: Seq<TrayItemView>, id: Seq<char>) -> int
    decreases items.len(),
{
    if items.len() == 0 {
        0
    } else if items[0].id == id {
        0
    } else {
        1 + position(items.drop_first(), id)
    }
}

/// The items with `item` in the place of the one with the same identifier, or at the end.
pub open spec fn inserted(items: Seq<TrayItemView>, item: TrayItemView) -> Seq<TrayItemView> {
    if has_id(items, item.id) {
        items.update(position(items, item.id), item)
    } else {
        items.push(item)
    }
}

/// The items without the one with that identifier.
pub open spec fn removed(items: Seq<TrayItemView>, id: Seq<char>) -> Seq<TrayItemView> {
    if has_id(items, id) {
        items.remove(position(items, id))
    } else {
        items
    }
}

/// The item with that identifier.
pub open spec fn found(items: Seq<TrayItemView>, id: Seq<char>) -> Option<TrayItemView> {
    if has_id(items, id) {
        Some(items[position(items, id)])
    } else {
        None
    }
}

/// The identifiers of all items.
pub open spec fn all_ids(items: Seq<TrayItemView>) -> Seq<Seq<char>> {
    Seq::new(items.len(), |i: int| items[i].id)
}

/// The identifiers of the items that live on a bus name, in their order.
pub open spec fn ids_on_bus(items: Seq<TrayItemView>, bus_name: Seq<char>) -> Seq<Seq<char>>
    decreases items.len(),
{
    if items.len() == 0 {
        seq![]
    } else {
        let before = ids_on_bus(items.drop_last(), bus_name);
        if items.last().bus_name == bus_name {
            before.push(items.last().id)
        } else {
            before
        }
    }
}

/// Some item lives on the bus name.
pub open spec fn bus_known(items: Seq<TrayItemView>, bus_name: Seq<char>) -> bool {
    exists|i: int| 0 <= i < items.len() && (#[trigger] items[i]).bus_name == bus_name
}

/// The position of the first item that lives on the bus name, or the number of items.
pub open spec fn bus_position(items: Seq<TrayItemView>, bus_name: Seq<char>) -> int
    decreases items.len(),
{
    if items.len() == 0 {
        0
    } else if items[0].bus_name == bus_name {
        0
    } else {
        1 + bus_position(items.drop_first(), bus_name)
    }
}

/// Some item calls itself `name`; the empty name does not count.
pub open spec fn name_taken(items: Seq<TrayItemView>, name: Seq<char>) -> bool {
    exists|i: int|
        0 <= i < items.len() && (#[trigger] items[i]).item_id == name && items[i].item_id.len() > 0
}

/// The position of an identifier is where it occurs first.
pub proof fn lemma_position(items: Seq<TrayItemView>, id: Seq<char>)
    ensures
        has_id(items, id) ==> {
            &&& 0 <= position(items, id) < items.len()
            &&& items[position(items, id)].id == id
            &&& forall|i: int| 0 <= i < position(items, id) ==> (#[trigger] items[i]).id != id
        },
        !has_id(items, id) ==> position(items, id) == items.len(),
    decreases items.len(),
{
    if items.len() > 0 && items[0].id != id {
        let rest = items.drop_first();
        lemma_position(rest, id);
        if has_id(items, id) {
            let i = choose|i: int| 0 <= i < items.len() && (#[trigger] items[i]).id == id;
            assert(rest[i - 1] == items[i]);
            assert(has_id(rest, id));
            let at = position(rest, id);
            assert(items[at + 1] == rest[at]);
            assert forall|k: int| 0 <= k < at + 1 implies (#[trigger] items[k]).id != id by {
                if k > 0 {
                    assert(rest[k - 1] == items[k]);
                }
            }
        } else {
            assert forall|k: int| 0 <= k < rest.len() implies (#[trigger] rest[k]).id != id by {
                assert(items[k + 1] == rest[k]);
            }
        }
    }
}

/// An identifier occurs first where nothing before has it.
proof fn lemma_position_is(items: Seq<TrayItemView>, id: Seq<char>, at: int)
    requires
        0 <= at < items.len(),
        items[at].id == id,
        forall|i: int| 0 <= i < at ==> (#[trigger] items[i]).id != id,
    ensures
        has_id(items, id),
        position(items, id) == at,
{
    lemma_position(items, id);
}

/// The first item on a bus name is where nothing before lives on it.
pub proof fn lemma_bus_position(items: Seq<TrayItemView>, bus_name: Seq<char>, at: int)
    requires
        0 <= at < items.len(),
        items[at].bus_name == bus_name,
        forall|i: int| 0 <= i < at ==> (#[trigger] items[i]).bus_name != bus_name,
    ensures
        bus_position(items, bus_name) == at,
    decreases items.len(),
{
    if at > 0 {
        let rest = items.drop_first();
        assert(items[0].bus_name != bus_name);
        assert forall|i: int| 0 <= i < at - 1 implies (#[trigger] rest[i]).bus_name != bus_name by {
            assert(rest[i] == items[i + 1]);
        }
        assert(rest[at - 1] == items[at]);
        lemma_bus_position(rest, bus_name, at - 1);
    }
}

impl Items {
    /// No items.
    pub fn new() -> (res: Items)
        ensures
            res@ == Seq::<TrayItemView>::empty(),
            ids_distinct(res@),
    {
        let res = Items { list: Vec::new() };
        assert(res@ =~= seq![]);
        res
    }

    /// The number of items.
    pub fn len(&self) -> (res: usize)
        ensures
            res == self@.len(),
    {
        self.list.len()
    }

    /// The item at a position.
    pub fn at(&self, i: usize) -> (res: &TrayItem)
        requires
            i < self@.len(),
        ensures
            res@ == self@[i as int],
    {
        &self.list[i]
    }

    /// All items, in the order in which they became known.
    pub fn values(&self) -> (res: &Vec<TrayItem>)
        ensures
            self@ == Seq::new(res@.len(), |i: int| res@[i]@),
    {
        &self.list
    }

    /// The position of the item with the given identifier.
    fn find(&self, id: &str) -> (res: Option<usize>)
        ensures
            match res {
                Some(i) => has_id(self@, id@) && i == position(self@, id@) && i < self@.len(),
                None => !has_id(self@, id@),
            },
    {
        let mut i: usize = 0;
        while i < self.list.len()
            invariant
                i <= self.list@.len(),
                forall|k: int| 0 <= k < i ==> (#[trigger] self@[k]).id != id@,
            decreases self.list@.len() - i,
        {
            if text::same(self.list[i].id.0.as_str(), id) {
                proof {
                    assert(self@[i as int].id == id@);
                    lemma_position_is(self@, id@, i as int);
                }
                return Some(i);
            }
            assert(self@[i as int].id != id@);
            i = i + 1;
        }
        None
    }

    /// The item with the given identifier.
    pub fn get(&self, id: &ItemId) -> (res: Option<&TrayItem>)
        ensures
            match res {
                Some(item) => found(self@, id@) == Some(item@),
                None => found(self@, id@) is None,
            },
            match res {
                Some(item) => item@.id == id@ && exists|i: int|
                    0 <= i < self@.len() && #[trigger] self@[i] == item@,
                None => forall|i: int| 0 <= i < self@.len() ==> (#[trigger] self@[i]).id != id@,
            },
    {
        proof {
            lemma_position(self@, id@);
        }
        match self.find(id.0.as_str()) {
            Some(i) => Some(&self.list[i]),
            None => None,
        }
    }

    /// Whether there is an item with the given identifier.
    pub fn contains_key(&self, id: &ItemId) -> (res: bool)
        ensures
            res == has_id(self@, id@),
            res == exists|i: int| 0 <= i < self@.len() && (#[trigger] self@[i]).id == id@,
    {
        self.find(id.0.as_str()).is_some()
    }

    /// The position of the first item on the bus name.
    pub fn find_on_bus(&self, bus_name: &str) -> (res: Option<usize>)
        ensures
            match res {
                Some(i) => {
                    &&& bus_known(self@, bus_name@)
                    &&& i == bus_position(self@, bus_name@)
                    &&& i < self@.len()
                },
                None => !bus_known(self@, bus_name@),
            },
    {
        let mut i: usize = 0;
        while i < self.list.len()
            invariant
                i <= self.list@.len(),
                forall|k: int| 0 <= k < i ==> (#[trigger] self@[k]).bus_name != bus_name@,
            decreases self.list@.len() - i,
        {
            if text::same(self.list[i].bus_name.as_str(), bus_name) {
                proof {
                    assert(self@[i as int].bus_name == bus_name@);
                    lemma_bus_position(self@, bus_name@, i as int);
                }
                return Some(i);
            }
            assert(self@[i as int].bus_name != bus_name@);
            i = i + 1;
        }
        None
    }

    /// Whether some item calls itself `name`. The empty name does not count.
    pub fn knows_name(&self, name: &str) -> (res: bool)
        ensures
            res == name_taken(self@, name@),
    {
        let mut i: usize = 0;
        while i < self.list.len()
            invariant
                i <= self.list@.len(),
                forall|k: int|
                    0 <= k < i ==> !((#[trigger] self@[k]).item_id == name@
                        && self@[k].item_id.len() > 0),
            decreases self.list@.len() - i,
        {
            let known: &str = self.list[i].item_id.as_str();
            assert(self@[i as int].item_id == known@);
            if !known.is_empty() && text::same(known, name) {
                return true;
            }
            i = i + 1;
        }
        false
    }

    /// The identifiers of all items.
    pub fn keys(&self) -> (res: Vec<&str>)
        ensures
            crate::wire::str_views(res@) == all_ids(self@),
    {
        let mut out: Vec<&str> = Vec::new();
        let mut i: usize = 0;
        while i < self.list.len()
            invariant
                i <= self.list@.len(),
                out@.len() == i,
                forall|k: int| 0 <= k < i ==> (#[trigger] out@[k])@ == self@[k].id,
            decreases self.list@.len() - i,
        {
            out.push(self.list[i].id.0.as_str());
            i = i + 1;
        }
        assert(crate::wire::str_views(out@) =~= all_ids(self@));
        out
    }

    /// The identifiers of the items that live on a bus name, in their order.
    pub fn on_bus(&self, bus_name: &str) -> (res: Vec<ItemId>)
        ensures
            id_views(res@) == ids_on_bus(self@, bus_name@),
    {
        let mut out: Vec<ItemId> = Vec::new();
        let mut i: usize = 0;
        assert(id_views(out@) =~= ids_on_bus(self@.take(0), bus_name@));
        while i < self.list.len()
            invariant
                i <= self.list@.len(),
                id_views(out@) == ids_on_bus(self@.take(i as int), bus_name@),
            decreases self.list@.len() - i,
        {
            let ghost before = out@;
            proof {
                assert(self@.take(i + 1).drop_last() =~= self@.take(i as int));
                assert(self@.take(i + 1).last() == self.list@[i as int]@);
            }
            if text::same(self.list[i].bus_name.as_str(), bus_name) {
                let id: ItemId = self.list[i].id.clone();
                out.push(id);
                assert(id_views(out@) =~= id_views(before).push(self.list@[i as int]@.id));
            }
            i = i + 1;
        }
        assert(self@.take(i as int) =~= self@);
        out
    }

    /// Put an item in the place of the one with the same identifier, or at the end.
    pub fn insert(&mut self, item: TrayItem)
        ensures
            final(self)@ == inserted(old(self)@, item@),
            ids_distinct(old(self)@) ==> ids_distinct(final(self)@),
    {
        match self.find(item.id.0.as_str()) {
            Some(i) => {
                self.list.set(i, item);
            },
            None => {
                self.list.push(item);
            },
        }
        proof {
            assert(self@ =~= inserted(old(self)@, item@));
            if ids_distinct(old(self)@) {
                law_insert(old(self)@, item@, item@.id);
            }
        }
    }

    /// Take out the item with the given identifier.
    pub fn remove(&mut self, id: &ItemId)
        ensures
            final(self)@ == removed(old(self)@, id@),
            ids_distinct(old(self)@) ==> ids_distinct(final(self)@),
    {
        if let Some(i) = self.find(id.0.as_str()) {
            self.list.remove(i);
        }
        proof {
            assert(self@ =~= removed(old(self)@, id@));
            if ids_distinct(old(self)@) {
                law_remove(old(self)@, id@, id@);
            }
        }
    }
}

// ---------------------------------------------------------------------------
// Laws

/// Inserting an item keeps the identifiers distinct. The item is then found under its
/// identifier, and every other item as before.
pub proof fn law_insert(items: Seq<TrayItemView>, item: TrayItemView, other: Seq<char>)
    requires
        ids_distinct(items),
    ensures
        ids_distinct(inserted(items, item)),
        found(inserted(items, item), item.id) == Some(item),
        other != item.id ==> found(inserted(items, item), other) == found(items, other),
{
    let now = inserted(items, item);
    lemma_position(items, item.id);
    lemma_position(now, item.id);
    let at = position(items, item.id);
    assert(now[at] == item);
    assert(has_id(now, item.id));
    assert forall|i: int, j: int| 0 <= i < j < now.len() implies (#[trigger] now[i]).id != (
    #[trigger] now[j]).id by {
        if i != at && j != at {
            assert(items[i] == now[i] && items[j] == now[j]);
        } else if i == at && j < items.len() {
            assert(now[j] == items[j]);
        } else if j == at {
            assert(now[i] == items[i]);
        }
    }
    assert(position(now, item.id) == at) by {
        let p = position(now, item.id);
        if p < at {
            assert(now[p].id != now[at].id);
        }
    }
    if other != item.id {
        lemma_position(items, other);
        lemma_position(now, other);
        if has_id(items, other) {
            let p = position(items, other);
            assert(now[p] == items[p]);
            assert(has_id(now, other));
            lemma_only_one(now, p, position(now, other));
        } else if has_id(now, other) {
            let p = position(now, other);
            assert(p != at);
            assert(now[p] == items[p]);
        }
    }
}

/// Where identifiers are distinct, two positions with the same one are the same.
proof fn lemma_only_one(items: Seq<TrayItemView>, i: int, j: int)
    requires
        ids_distinct(items),
        0 <= i < items.len(),
        0 <= j < items.len(),
        items[i].id == items[j].id,
    ensures
        i == j,
{
}

/// Removing an identifier keeps the identifiers distinct. It is then unknown, and every other
/// item is found as before.
pub proof fn law_remove(items: Seq<TrayItemView>, id: Seq<char>, other: Seq<char>)
    requires
        ids_distinct(items),
    ensures
        ids_distinct(removed(items, id)),
        found(removed(items, id), id) is None,
        other != id ==> found(removed(items, id), other) == found(items, other),
{
    let now = removed(items, id);
    lemma_position(items, id);
    let at = position(items, id);
    if has_id(items, id) {
        assert forall|i: int| 0 <= i < now.len() implies #[trigger] now[i] == items[if i < at {
            i
        } else {
            i + 1
        }] by {}
        assert forall|i: int, j: int| 0 <= i < j < now.len() implies (#[trigger] now[i]).id != (
        #[trigger] now[j]).id by {
            let a = if i < at { i } else { i + 1 };
            let b = if j < at { j } else { j + 1 };
            assert(items[a].id != items[b].id);
        }
        assert forall|i: int| 0 <= i < now.len() implies (#[trigger] now[i]).id != id by {
            let a = if i < at { i } else { i + 1 };
            if a < at {
                assert(items[a].id != items[at].id);
            } else {
                assert(items[at].id != items[a].id);
            }
        }
        if other != id {
            lemma_position(items, other);
            lemma_position(now, other);
            if has_id(items, other) {
                let p = position(items, other);
                let q = if p < at { p } else { p - 1 };
                assert(now[q] == items[p]);
                assert(has_id(now, other));
                lemma_only_one(now, q, position(now, other));
            } else if has_id(now, other) {
                let q = position(now, other);
                let p = if q < at { q } else { q + 1 };
                assert(now[q] == items[p]);
            }
        }
    }
}

/// The item under an identifier is the one that has it, and there is none where no item has it.
pub proof fn law_found_has_the_identifier(items: Seq<TrayItemView>, id: Seq<char>, at: int)
    requires
        forall|i: int, j: int|
            0 <= i < j < items.len() ==> (#[trigger] items[i]).id != (#[trigger] items[j]).id,
    ensures
        0 <= at < items.len() && items[at].id == id ==> found(items, id) == Some(items[at]),
        (forall|i: int| 0 <= i < items.len() ==> (#[trigger] items[i]).id != id) ==> found(
            items,
            id,
        ) is None,
        found(items, id) matches Some(item) ==> item.id == id && items.contains(item),
{
    lemma_position(items, id);
    if 0 <= at < items.len() && items[at].id == id {
        assert(has_id(items, id));
        lemma_only_one(items, at, position(items, id));
    }
    if let Some(item) = found(items, id) {
        assert(items[position(items, id)] == item);
    }
}

/// An item with a new identifier goes to the end. An item with a known one takes the place of
/// the item that had it. Nothing else changes.
pub proof fn law_insert_changes_one_place(items: Seq<TrayItemView>, item: TrayItemView, at: int)
    requires
        forall|i: int, j: int|
            0 <= i < j < items.len() ==> (#[trigger] items[i]).id != (#[trigger] items[j]).id,
    ensures
        0 <= at < items.len() && items[at].id == item.id ==> inserted(items, item) == items.update(
            at,
            item,
        ),
        (forall|i: int| 0 <= i < items.len() ==> (#[trigger] items[i]).id != item.id) ==> inserted(
            items,
            item,
        ) == items.push(item),
{
    lemma_position(items, item.id);
    if 0 <= at < items.len() && items[at].id == item.id {
        assert(has_id(items, item.id));
        lemma_only_one(items, at, position(items, item.id));
    }
}

/// Removing an identifier takes out the item that has it and closes the gap. Nothing else
/// changes.
pub proof fn law_remove_takes_out_one(items: Seq<TrayItemView>, id: Seq<char>, at: int)
    requires
        forall|i: int, j: int|
            0 <= i < j < items.len() ==> (#[trigger] items[i]).id != (#[trigger] items[j]).id,
    ensures
        0 <= at < items.len() && items[at].id == id ==> removed(items, id) == items.remove(at),
        (forall|i: int| 0 <= i < items.len() ==> (#[trigger] items[i]).id != id) ==> removed(
            items,
            id,
        ) == items,
{
    lemma_position(items, id);
    if 0 <= at < items.len() && items[at].id == id {
        assert(has_id(items, id));
        lemma_only_one(items, at, position(items, id));
    }
}

/// The identifiers on a bus name are those of the items that live on it, in their order: two rows
/// of items give what each gives, and a single item gives its identifier where it lives there.
pub proof fn law_ids_on_bus_name_those_on_it(
    first: Seq<TrayItemView>,
    second: Seq<TrayItemView>,
    item: TrayItemView,
    bus_name: Seq<char>,
)
    ensures
        ids_on_bus(first + second, bus_name) == ids_on_bus(first, bus_name) + ids_on_bus(
            second,
            bus_name,
        ),
        item.bus_name == bus_name ==> ids_on_bus(seq![item], bus_name) == seq![item.id],
        item.bus_name != bus_name ==> ids_on_bus(seq![item], bus_name).len() == 0,
    decreases second.len(),
{
    if second.len() == 0 {
        assert(first + second =~= first);
        assert(ids_on_bus(first, bus_name) + ids_on_bus(second, bus_name) =~= ids_on_bus(
            first,
            bus_name,
        ));
    } else {
        assert((first + second).drop_last() =~= first + second.drop_last());
        law_ids_on_bus_name_those_on_it(first, second.drop_last(), item, bus_name);
        assert(ids_on_bus(first + second, bus_name) =~= ids_on_bus(first, bus_name) + ids_on_bus(
            second,
            bus_name,
        ));
    }
    let row = seq![item];
    assert(row.drop_last() =~= seq![]);
    assert(ids_on_bus(row.drop_last(), bus_name) =~= seq![]);
    if item.bus_name == bus_name {
        assert(ids_on_bus(row, bus_name) =~= seq![item.id]);
    }
}

/// An identifier is on a bus name exactly where an item with it lives there.
pub proof fn law_ids_on_bus_are_all_of_them(
    items: Seq<TrayItemView>,
    bus_name: Seq<char>,
    id: Seq<char>,
)
    ensures
        ids_on_bus(items, bus_name).contains(id) <==> exists|i: int|
            0 <= i < items.len() && (#[trigger] items[i]).bus_name == bus_name && items[i].id == id,
    decreases items.len(),
{
    let all = ids_on_bus(items, bus_name);
    if items.len() > 0 {
        let rest = items.drop_last();
        let before = ids_on_bus(rest, bus_name);
        let last = items.len() - 1;
        law_ids_on_bus_are_all_of_them(rest, bus_name, id);
        if all.contains(id) {
            let k = choose|k: int| 0 <= k < all.len() && all[k] == id;
            if k < before.len() {
                assert(before[k] == id);
                let i = choose|i: int|
                    0 <= i < rest.len() && (#[trigger] rest[i]).bus_name == bus_name && rest[i].id
                        == id;
                assert(items[i] == rest[i]);
            } else {
                assert(items[last].bus_name == bus_name && items[last].id == id);
            }
        }
        if exists|i: int|
            0 <= i < items.len() && (#[trigger] items[i]).bus_name == bus_name && items[i].id
                == id {
            let i = choose|i: int|
                0 <= i < items.len() && (#[trigger] items[i]).bus_name == bus_name && items[i].id
                    == id;
            if i < rest.len() {
                assert(rest[i] == items[i]);
                let k = choose|k: int| 0 <= k < before.len() && before[k] == id;
                assert(all[k] == id);
            } else {
                assert(all[all.len() - 1] == id);
            }
        }
    }
}

/// What is stated of an event is stated of its own identifier.
pub proof fn law_event_view_shows_the_event(id: ItemId)
    ensures
        TrayEvent::ItemAdded(id)@ == TrayEventView::ItemAdded(id@),
        TrayEvent::ItemChanged(id)@ == TrayEventView::ItemChanged(id@),
        TrayEvent::ItemRemoved(id)@ == TrayEventView::ItemRemoved(id@),
        TrayEvent::MenuChanged(id)@ == TrayEventView::MenuChanged(id@),
        TrayEvent::MenuActivationRequested(id)@ == TrayEventView::MenuActivationRequested(id@),
        TrayEvent::HostShutdown@ == TrayEventView::HostShutdown,
        id@ == id.0@,
{
}

/// The contents of a row of events are the contents of each, in their order.
pub proof fn law_event_views_show_each(events: Seq<TrayEvent>)
    ensures
        event_views(events).len() == events.len(),
        forall|i: int|
            0 <= i < events.len() ==> (#[trigger] event_views(events)[i]) == events[i]@,
{
}

/// The identifiers of a row of items are those of each, in their order.
pub proof fn law_all_ids_show_each(items: Seq<TrayItemView>)
    ensures
        all_ids(items).len() == items.len(),
        forall|i: int| 0 <= i < items.len() ==> (#[trigger] all_ids(items)[i]) == items[i].id,
{
}

} // verus!
