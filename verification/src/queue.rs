//! The play queue: an ordered list of `(key, title)` tracks with a cursor
//! that marks the currently-playing item.
//!
//! Every mutator returns a [`QueueAction`] telling the owner of the queue
//! which side effect to perform (start playing a key, stop playback, or
//! nothing).  The queue itself is pure data: no I/O happens here.
//!
//! Each mutator is specified against an abstract transition function on
//! [`QueueView`]; the laws at the end of the module are proved over those
//! transitions.

use vstd::prelude::*;
use crate::dec::{dec_seq, usize_to_dec};

verus! {

/// The side effect that the owner of the queue must perform after a
/// mutation: start playing `Next(key)`, `Stop` playback, do nothing
/// (`Pass`), or report that the referenced entry does not exist.
pub enum QueueAction {
    Next(String),
    Stop,
    Pass,
    NotFound,
}

/// One queued track: the blob key and the display title.
pub struct QueueItem {
    pub key: String,
    pub title: String,
}

/// Abstract state of a play queue: the items as pairs of character
/// sequences `(key, title)`, and the cursor as a mathematical integer.
#[verifier::ext_equal]
pub struct QueueView {
    pub items: Seq<(Seq<char>, Seq<char>)>,
    pub cursor: int,
}

/// Abstract counterpart of [`QueueAction`].
pub enum ActionView {
    Next(Seq<char>),
    Stop,
    Pass,
    NotFound,
}

/// Result of one abstract queue transition: the new state and the action
/// the owner must perform.
pub struct QueueStep {
    pub q: QueueView,
    pub act: ActionView,
}

/// An exec action agrees with its abstract counterpart.
pub open spec fn action_is(r: QueueAction, a: ActionView) -> bool {
    match (r, a) {
        (QueueAction::Next(s), ActionView::Next(v)) => s@ == v,
        (QueueAction::Stop, ActionView::Stop) => true,
        (QueueAction::Pass, ActionView::Pass) => true,
        (QueueAction::NotFound, ActionView::NotFound) => true,
        _ => false,
    }
}

impl QueueView {
    /// The cursor invariant: inside the list when the list is non-empty,
    /// pinned to zero when the list is empty.  Equivalently,
    /// `cursor < max(1, len)` and `0 <= cursor`.
    pub open spec fn wf(self) -> bool {
        &&& self.items.len() == 0 ==> self.cursor == 0
        &&& self.items.len() > 0 ==> 0 <= self.cursor < self.items.len()
    }

    /// Whether some item carries the key `k`.
    pub open spec fn has_key(self, k: Seq<char>) -> bool {
        exists|i: int| 0 <= i < self.items.len() && self.items[i].0 == k
    }
}

/// Items that survive a removal of key `k`.
pub open spec fn keeps(k: Seq<char>) -> spec_fn((Seq<char>, Seq<char>)) -> bool {
    |p: (Seq<char>, Seq<char>)| p.0 != k
}

/// How many items strictly before the cursor survive a removal of `k`.
pub open spec fn survivors_before_cursor(v: QueueView, k: Seq<char>) -> int {
    v.items.subrange(0, v.cursor).filter(keeps(k)).len() as int
}

/// Appending `(k, t)`: the cursor moves to the new sole item when the
/// queue was empty (and that key must start playing), otherwise nothing
/// else changes.
pub open spec fn spec_add(v: QueueView, k: Seq<char>, t: Seq<char>) -> QueueStep {
    if v.items.len() == 0 {
        QueueStep {
            q: QueueView { items: v.items.push((k, t)), cursor: 0 },
            act: ActionView::Next(k),
        }
    } else {
        QueueStep {
            q: QueueView { items: v.items.push((k, t)), cursor: v.cursor },
            act: ActionView::Pass,
        }
    }
}

/// Removing the item at index `i`: out-of-range indices are rejected; an
/// index before the cursor shifts the cursor left; removing the item
/// under the cursor plays the item that now holds the cursor's index
/// (clamped to the new end), or stops when the queue empties.
pub open spec fn spec_remove_by_id(v: QueueView, i: int) -> QueueStep {
    if i >= v.items.len() {
        QueueStep { q: v, act: ActionView::NotFound }
    } else {
        let items2 = v.items.remove(i);
        if i < v.cursor {
            QueueStep { q: QueueView { items: items2, cursor: v.cursor - 1 }, act: ActionView::Pass }
        } else if i == v.cursor {
            if items2.len() == 0 {
                QueueStep { q: QueueView { items: items2, cursor: 0 }, act: ActionView::Stop }
            } else {
                let c2 = if v.cursor >= items2.len() { items2.len() - 1 } else { v.cursor };
                QueueStep {
                    q: QueueView { items: items2, cursor: c2 },
                    act: ActionView::Next(items2[c2].0),
                }
            }
        } else {
            QueueStep { q: QueueView { items: items2, cursor: v.cursor }, act: ActionView::Pass }
        }
    }
}

/// Removing every item whose key is `k`: the survivors keep their order;
/// the cursor keeps pointing at the same item when that item survives,
/// stops when the queue empties, and otherwise the item now under the
/// (clamped) cursor starts playing.
pub open spec fn spec_remove_by_key(v: QueueView, k: Seq<char>) -> QueueStep {
    let kept = v.items.filter(keeps(k));
    let touched = v.items.len() > 0 && v.items[v.cursor].0 == k;
    if touched {
        if kept.len() == 0 {
            QueueStep { q: QueueView { items: kept, cursor: 0 }, act: ActionView::Stop }
        } else {
            let c = survivors_before_cursor(v, k);
            let c2 = if c >= kept.len() { kept.len() - 1 } else { c };
            QueueStep {
                q: QueueView { items: kept, cursor: c2 },
                act: ActionView::Next(kept[c2].0),
            }
        }
    } else {
        QueueStep {
            q: QueueView { items: kept, cursor: survivors_before_cursor(v, k) },
            act: ActionView::Pass,
        }
    }
}

/// Where the cursor lands when the item at `oi` moves to `ni`: it follows
/// a moved current item and otherwise keeps pointing at the same item.
pub open spec fn reorder_cursor(c: int, oi: int, ni: int) -> int {
    if oi == c {
        ni
    } else if ni == c {
        if oi > c {
            c + 1
        } else {
            c - 1
        }
    } else if oi < c && ni > c {
        c - 1
    } else if oi > c && ni <= c {
        c + 1
    } else {
        c
    }
}

/// Moving the item at `oi` to position `ni` (positions after the removal
/// shift): out-of-range indices are rejected, otherwise the move always
/// passes.
pub open spec fn spec_reorder(v: QueueView, oi: int, ni: int) -> QueueStep {
    if oi < 0 || oi >= v.items.len() || ni < 0 || ni >= v.items.len() {
        QueueStep { q: v, act: ActionView::NotFound }
    } else {
        QueueStep {
            q: QueueView {
                items: v.items.remove(oi).insert(ni, v.items[oi]),
                cursor: reorder_cursor(v.cursor, oi, ni),
            },
            act: ActionView::Pass,
        }
    }
}

/// The cursor after advancing once, wrapping from the end to the start.
pub open spec fn next_cursor(len: int, c: int) -> int {
    if c == len - 1 {
        0
    } else {
        c + 1
    }
}

/// The cursor after retreating once, wrapping from the start to the end.
pub open spec fn prev_cursor(len: int, c: int) -> int {
    if c == 0 {
        len - 1
    } else {
        c - 1
    }
}

/// Advancing the cursor leaves the items alone; an empty queue is inert.
pub open spec fn spec_next(v: QueueView) -> QueueView {
    if v.items.len() == 0 {
        v
    } else {
        QueueView { items: v.items, cursor: next_cursor(v.items.len() as int, v.cursor) }
    }
}

/// Retreating the cursor leaves the items alone; an empty queue is inert.
pub open spec fn spec_prev(v: QueueView) -> QueueView {
    if v.items.len() == 0 {
        v
    } else {
        QueueView { items: v.items, cursor: prev_cursor(v.items.len() as int, v.cursor) }
    }
}

/// The ordered sequence of `(key, title)` views of the stored items.
pub open spec fn items_view(s: Seq<QueueItem>) -> Seq<(Seq<char>, Seq<char>)> {
    s.map_values(|it: QueueItem| (it.key@, it.title@))
}

pub struct PlayQueue {
    items: Vec<QueueItem>,
    curr_index: usize,
}

impl View for PlayQueue {
    type V = QueueView;

    closed spec fn view(&self) -> QueueView {
        QueueView { items: items_view(self.items@), cursor: self.curr_index as int }
    }
}

proof fn lemma_filter_prefix_len<A>(s: Seq<A>, pred: spec_fn(A) -> bool, m: int)
    requires
        0 <= m <= s.len(),
    ensures
        s.subrange(0, m).filter(pred).len() <= s.filter(pred).len(),
    decreases s.len() - m,
{
    reveal(Seq::filter);
    if m == s.len() {
        assert(s.subrange(0, m) =~= s);
    } else {
        let ext = s.subrange(0, m + 1);
        assert(ext.drop_last() =~= s.subrange(0, m));
        assert(ext.last() == s[m]);
        lemma_filter_prefix_len(s, pred, m + 1);
    }
}

proof fn lemma_filter_all_kept<A>(s: Seq<A>, pred: spec_fn(A) -> bool)
    requires
        forall|i: int| 0 <= i < s.len() ==> pred(#[trigger] s[i]),
    ensures
        s.filter(pred) == s,
    decreases s.len(),
{
    reveal(Seq::filter);
    if s.len() > 0 {
        assert(forall|i: int|
            0 <= i < s.drop_last().len() ==> pred(#[trigger] s.drop_last()[i])) by {
            assert(forall|i: int| 0 <= i < s.len() - 1 ==> s.drop_last()[i] == s[i]);
        }
        lemma_filter_all_kept(s.drop_last(), pred);
        assert(pred(s.last()));
        assert(s.drop_last().push(s.last()) =~= s);
    } else {
        assert(s.filter(pred) =~= s);
    }
}

proof fn lemma_items_view_remove(s: Seq<QueueItem>, i: int)
    requires
        0 <= i < s.len(),
    ensures
        items_view(s.remove(i)) == items_view(s).remove(i),
{
    assert(items_view(s.remove(i)) =~= items_view(s).remove(i));
}

proof fn lemma_items_view_insert(s: Seq<QueueItem>, i: int, it: QueueItem)
    requires
        0 <= i <= s.len(),
    ensures
        items_view(s.insert(i, it)) == items_view(s).insert(i, (it.key@, it.title@)),
{
    assert(items_view(s.insert(i, it)) =~= items_view(s).insert(i, (it.key@, it.title@)));
}

impl PlayQueue {
    pub fn new() -> (q: Self)
        ensures
            q@.items == Seq::<(Seq<char>, Seq<char>)>::empty(),
            q@.cursor == 0,
            q@.wf(),
    {
        let q = Self { items: Vec::new(), curr_index: 0 };
        proof {
            assert(q@.items =~= Seq::<(Seq<char>, Seq<char>)>::empty());
        }
        q
    }

    pub fn is_empty(&self) -> (r: bool)
        ensures
            r == (self@.items.len() == 0),
    {
        self.items.len() == 0
    }

    /// The items as `[key, title]` pairs of strings, in queue order.
    pub fn get_all(&self) -> (r: Vec<Vec<String>>)
        ensures
            r@.len() == self@.items.len(),
            forall|i: int| 0 <= i < r@.len() ==> (#[trigger] r@[i])@.len() == 2,
            forall|i: int| 0 <= i < r@.len() ==> (#[trigger] r@[i])@[0]@ == self@.items[i].0,
            forall|i: int| 0 <= i < r@.len() ==> (#[trigger] r@[i])@[1]@ == self@.items[i].1,
    {
        let mut r: Vec<Vec<String>> = Vec::new();
        let mut i: usize = 0;
        while i < self.items.len()
            invariant
                i <= self.items.len(),
                r@.len() == i,
                forall|j: int| 0 <= j < i ==> (#[trigger] r@[j])@.len() == 2,
                forall|j: int| 0 <= j < i ==> (#[trigger] r@[j])@[0]@ == self@.items[j].0,
                forall|j: int| 0 <= j < i ==> (#[trigger] r@[j])@[1]@ == self@.items[j].1,
            decreases self.items.len() - i,
        {
            let k = self.items[i].key.clone();
            let t = self.items[i].title.clone();
            let mut pair: Vec<String> = Vec::new();
            pair.push(k);
            pair.push(t);
            r.push(pair);
            proof {
                assert(r@[i as int] == pair);
                assert(pair@[0] == k);
                assert(pair@[1] == t);
                assert(r@[i as int]@.len() == 2);
                assert(r@[i as int]@[0]@ == self@.items[i as int].0);
                assert(r@[i as int]@[1]@ == self@.items[i as int].1);
            }
            i += 1;
        }
        r
    }

    pub fn add(&mut self, key: String, title: String) -> (r: QueueAction)
        requires
            old(self)@.wf(),
        ensures
            final(self)@.wf(),
            final(self)@ == spec_add(old(self)@, key@, title@).q,
            action_is(r, spec_add(old(self)@, key@, title@).act),
    {
        let was_empty = self.items.len() == 0;
        let key_copy = key.clone();
        self.items.push(QueueItem { key, title });
        proof {
            assert(self@.items =~= old(self)@.items.push((key@, title@)));
        }
        if was_empty {
            self.curr_index = 0;
            QueueAction::Next(key_copy)
        } else {
            QueueAction::Pass
        }
    }

    pub fn remove_by_id(&mut self, index: usize) -> (r: QueueAction)
        requires
            old(self)@.wf(),
        ensures
            final(self)@.wf(),
            final(self)@ == spec_remove_by_id(old(self)@, index as int).q,
            action_is(r, spec_remove_by_id(old(self)@, index as int).act),
    {
        if index >= self.items.len() {
            return QueueAction::NotFound;
        }
        proof {
            lemma_items_view_remove(self.items@, index as int);
        }
        if index < self.curr_index {
            self.curr_index -= 1;
            self.items.remove(index);
            return QueueAction::Pass;
        }
        if index == self.curr_index {
            self.items.remove(index);
            if self.items.len() == 0 {
                self.curr_index = 0;
                return QueueAction::Stop;
            }
            if self.curr_index == self.items.len() {
                self.curr_index -= 1;
            }
            return QueueAction::Next(self.items[self.curr_index].key.clone());
        }
        self.items.remove(index);
        QueueAction::Pass
    }

    pub fn remove_by_key(&mut self, key: String) -> (r: QueueAction)
        requires
            old(self)@.wf(),
        ensures
            final(self)@.wf(),
            final(self)@ == spec_remove_by_key(old(self)@, key@).q,
            action_is(r, spec_remove_by_key(old(self)@, key@).act),
    {
        let ghost orig = self@;
        let ghost k = key@;
        let ghost olen = orig.items.len() as int;

        let touched = if self.items.len() > 0 {
            self.items[self.curr_index].key == key
        } else {
            false
        };

        let mut kept: Vec<QueueItem> = Vec::new();
        let mut count: usize = 0;
        let mut j: usize = 0;
        proof {
            reveal(Seq::filter);
            assert(orig.items.subrange(0, 0).filter(keeps(k)).len() == 0);
            assert(items_view(kept@) =~= orig.items.subrange(0, 0).filter(keeps(k)));
        }
        while j < self.items.len()
            invariant
                orig.wf(),
                k == key@,
                orig == old(self)@,
                olen == orig.items.len() as int,
                self@ == orig,
                j <= olen,
                count <= j,
                items_view(kept@) =~= orig.items.subrange(0, j as int).filter(keeps(k)),
                count as int == orig.items.subrange(
                    0,
                    if j as int <= orig.cursor {
                        j as int
                    } else {
                        orig.cursor
                    },
                ).filter(keeps(k)).len(),
            decreases olen - j,
        {
            proof {
                reveal(Seq::filter);
                let ext = orig.items.subrange(0, j as int + 1);
                assert(ext.drop_last() =~= orig.items.subrange(0, j as int));
                assert(ext.last() == orig.items[j as int]);
                if j as int + 1 <= orig.cursor {
                    let ext2 = orig.items.subrange(0, j as int + 1);
                    assert(ext2.drop_last() =~= orig.items.subrange(0, j as int));
                }
            }
            if self.items[j].key != key {
                let item = QueueItem {
                    key: self.items[j].key.clone(),
                    title: self.items[j].title.clone(),
                };
                kept.push(item);
                proof {
                    assert(items_view(kept@) =~= orig.items.subrange(0, j as int + 1).filter(
                        keeps(k),
                    ));
                }
                if j < self.curr_index {
                    count += 1;
                }
            }
            j += 1;
        }
        proof {
            reveal(Seq::filter);
            assert(orig.items.subrange(0, olen) =~= orig.items);
            assert(orig.items.subrange(0, orig.cursor).filter(keeps(k)).len()
                == survivors_before_cursor(orig, k));
            // when the item under the cursor survives, the survivors before it
            // are a strict prefix of all survivors
            if !touched && orig.items.len() > 0 {
                let c = orig.cursor;
                let ext = orig.items.subrange(0, c + 1);
                assert(ext.drop_last() =~= orig.items.subrange(0, c));
                assert(ext.last() == orig.items[c]);
                lemma_filter_prefix_len(orig.items, keeps(k), c + 1);
            }
        }
        self.items = kept;
        self.curr_index = count;
        if touched {
            if self.items.len() == 0 {
                self.curr_index = 0;
                return QueueAction::Stop;
            }
            if self.curr_index >= self.items.len() {
                self.curr_index = self.items.len() - 1;
            }
            return QueueAction::Next(self.items[self.curr_index].key.clone());
        }
        QueueAction::Pass
    }

    pub fn reorder(&mut self, old_index: usize, new_index: usize) -> (r: QueueAction)
        requires
            old(self)@.wf(),
        ensures
            final(self)@.wf(),
            final(self)@ == spec_reorder(old(self)@, old_index as int, new_index as int).q,
            action_is(r, spec_reorder(old(self)@, old_index as int, new_index as int).act),
    {
        if old_index >= self.items.len() || new_index >= self.items.len() {
            return QueueAction::NotFound;
        }
        proof {
            lemma_items_view_remove(self.items@, old_index as int);
        }
        let it = self.items.remove(old_index);
        proof {
            lemma_items_view_insert(self.items@, new_index as int, it);
        }
        self.items.insert(new_index, it);

        if old_index == self.curr_index {
            self.curr_index = new_index;
        } else if new_index == self.curr_index {
            if old_index > self.curr_index {
                self.curr_index += 1;
            } else {
                self.curr_index -= 1;
            }
        } else if old_index < self.curr_index && new_index > self.curr_index {
            self.curr_index -= 1;
        } else if old_index > self.curr_index && new_index <= self.curr_index {
            self.curr_index += 1;
        }
        QueueAction::Pass
    }

    /// Advances the cursor (wrapping) and returns the key now under it,
    /// or the empty string on an empty queue.
    pub fn next(&mut self) -> (r: String)
        requires
            old(self)@.wf(),
        ensures
            final(self)@.wf(),
            final(self)@ == spec_next(old(self)@),
            old(self)@.items.len() == 0 ==> r@ == Seq::<char>::empty(),
            old(self)@.items.len() > 0 ==> r@ == final(self)@.items[final(self)@.cursor].0,
    {
        if self.items.len() == 0 {
            return String::new();
        }
        if self.curr_index == self.items.len() - 1 {
            self.curr_index = 0;
        } else {
            self.curr_index += 1;
        }
        self.items[self.curr_index].key.clone()
    }

    /// Retreats the cursor (wrapping) and returns the key now under it,
    /// or the empty string on an empty queue.
    pub fn prev(&mut self) -> (r: String)
        requires
            old(self)@.wf(),
        ensures
            final(self)@.wf(),
            final(self)@ == spec_prev(old(self)@),
            old(self)@.items.len() == 0 ==> r@ == Seq::<char>::empty(),
            old(self)@.items.len() > 0 ==> r@ == final(self)@.items[final(self)@.cursor].0,
    {
        if self.items.len() == 0 {
            return String::new();
        }
        if self.curr_index == 0 {
            self.curr_index = self.items.len() - 1;
        } else {
            self.curr_index -= 1;
        }
        self.items[self.curr_index].key.clone()
    }

    /// The cursor printed in decimal, as published on the event bus.
    pub fn get_id(&self) -> (r: String)
        ensures
            r@ == dec_seq(self@.cursor as nat),
    {
        usize_to_dec(self.curr_index)
    }

    pub fn has_key(&self, key: String) -> (r: bool)
        ensures
            r == self@.has_key(key@),
    {
        let mut i: usize = 0;
        while i < self.items.len()
            invariant
                i <= self.items.len(),
                forall|j: int| 0 <= j < i ==> #[trigger] self@.items[j].0 != key@,
            decreases self.items.len() - i,
        {
            if self.items[i].key == key {
                proof {
                    assert(self@.items[i as int].0 == key@);
                }
                return true;
            }
            i += 1;
        }
        false
    }

    /// The title at `index`, or the empty string when out of range.
    pub fn get_title(&self, index: usize) -> (r: String)
        ensures
            index < self@.items.len() ==> r@ == self@.items[index as int].1,
            index >= self@.items.len() ==> r@ == Seq::<char>::empty(),
    {
        if index >= self.items.len() {
            return String::new();
        }
        self.items[index].title.clone()
    }
}

/// Law: the cursor invariant says exactly that after any mutation
/// `cursor < max(1, len)`, that the cursor is non-negative, and that an
/// empty queue has `cursor == 0`.
pub proof fn lemma_wf_cursor_bounds(v: QueueView)
    requires
        v.wf(),
    ensures
        v.cursor < if v.items.len() < 1 {
            1int
        } else {
            v.items.len() as int
        },
        0 <= v.cursor,
        v.items.len() == 0 ==> v.cursor == 0,
{
}

/// Law: adding a key that is absent from the queue and then removing
/// that key by value restores the items exactly.
pub proof fn lemma_add_then_remove_key_identity(v: QueueView, k: Seq<char>, t: Seq<char>)
    requires
        v.wf(),
        !v.has_key(k),
    ensures
        spec_remove_by_key(spec_add(v, k, t).q, k).q.items == v.items,
{
    reveal(Seq::filter);
    let pushed = v.items.push((k, t));
    let v2 = spec_add(v, k, t).q;
    assert(v2.items == pushed);
    assert(pushed.drop_last() =~= v.items);
    assert(pushed.last() == (k, t));
    assert forall|i: int| 0 <= i < v.items.len() implies keeps(k)(#[trigger] v.items[i]) by {
        assert(!(0 <= i < v.items.len() && v.items[i].0 == k));
    }
    lemma_filter_all_kept(v.items, keeps(k));
    assert(pushed.filter(keeps(k)) == v.items);
    assert(spec_remove_by_key(v2, k).q.items == v2.items.filter(keeps(k)));
}

/// Law: moving an item onto its own position changes nothing and passes.
pub proof fn lemma_reorder_same_index_identity(v: QueueView, i: int)
    requires
        v.wf(),
        0 <= i < v.items.len(),
    ensures
        spec_reorder(v, i, i).q == v,
        spec_reorder(v, i, i).act is Pass,
{
    assert(v.items.remove(i).insert(i, v.items[i]) =~= v.items);
    assert(reorder_cursor(v.cursor, i, i) == v.cursor);
}

/// Law: on a non-empty queue, advancing and then retreating the cursor
/// returns it to its prior value (and the items never move).
pub proof fn lemma_next_then_prev_restores(v: QueueView)
    requires
        v.wf(),
        v.items.len() >= 1,
    ensures
        spec_prev(spec_next(v)) == v,
{
    assert(prev_cursor(v.items.len() as int, next_cursor(v.items.len() as int, v.cursor))
        == v.cursor);
}

/// Law: removing the item under the cursor from a queue of length one
/// stops playback and leaves an empty queue with the cursor at zero.
pub proof fn lemma_remove_only_item_stops(v: QueueView)
    requires
        v.wf(),
        v.items.len() == 1,
    ensures
        spec_remove_by_id(v, v.cursor).act is Stop,
        spec_remove_by_id(v, v.cursor).q.items.len() == 0,
        spec_remove_by_id(v, v.cursor).q.cursor == 0,
{
    assert(v.items.remove(0).len() == 0);
}

} // verus!
