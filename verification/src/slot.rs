//! A frame-indexed list of snapshots published by a single producer
//! ([`SlotSender`]) and read by any number of consumers ([`Slot`]).
//!
//! The list lives in a `tokio::sync::watch` channel. What a consumer reads
//! is whatever the producer last published, so the contracts of the reading
//! methods speak of the list as it was at the moment of the read; the
//! operations on the list itself are the verified functions `snapshot_*` and
//! `apply_set` / `apply_clear`, which the channel runs under its lock.
use tokio::sync::watch::{Receiver, Sender};
use vstd::prelude::*;

verus! {

#[verifier::external_type_specification]
#[verifier::external_body]
#[verifier::reject_recursive_types(T)]
pub struct ExWatchSender<T>(Sender<T>);

#[verifier::external_type_specification]
#[verifier::external_body]
#[verifier::reject_recursive_types(T)]
pub struct ExWatchReceiver<T>(Receiver<T>);

/// `Receiver::clone`: another receiver of the same channel. Nothing is
/// stated of it.
pub assume_specification<T>[ <Receiver<T> as Clone>::clone ](rx: &Receiver<T>) -> Receiver<T>;

/// `tokio::sync::watch::channel`: a connected sender / receiver pair whose
/// shared value starts as `init`. What the channel holds is not named, so
/// nothing is stated of the pair.
#[verifier::external_body]
fn watch_channel<T>(init: Vec<T>) -> (Sender<Vec<T>>, Receiver<Vec<T>>) {
    tokio::sync::watch::channel(init)
}

/// `Receiver::borrow`, with `f` run on the borrowed value. The contract
/// claims that `f` is called exactly once, on some list (the one the channel
/// held at that moment), and that its result is handed back.
#[verifier::external_body]
fn read_list<T, R, F: FnOnce(&Vec<T>) -> R>(rx: &Receiver<Vec<T>>, f: F) -> (r: R)
    requires
        forall|v: &Vec<T>| #[trigger] f.requires((v,)),
    ensures
        exists|v: &Vec<T>| #[trigger] f.ensures((v,), r),
{
    f(&rx.borrow())
}

/// `Sender::send_if_modified`: runs `f` on the channel's list under the
/// write lock, notifies the receivers when `f` returns `true`, and returns
/// what `f` returned. The contract claims that `f` runs exactly once, on some
/// list, and that its result is handed back.
#[verifier::external_body]
fn modify_list<T, F: FnOnce(&mut Vec<T>) -> bool>(tx: &Sender<Vec<T>>, f: F) -> (r: bool)
    requires
        forall|v: &mut Vec<T>| #[trigger] f.requires((v,)),
    ensures
        exists|v: &mut Vec<T>| #[trigger] f.ensures((v,), r),
{
    tx.send_if_modified(f)
}

/// What reading entry `index` of `contents` gives: a clone of the entry when
/// it exists, `None` past the end.
pub open spec fn get_result<T: Clone>(contents: Seq<T>, index: int, r: Option<T>) -> bool {
    if 0 <= index < contents.len() {
        r is Some && cloned(contents[index], r->0)
    } else {
        r is None
    }
}

/// What reading the last entry of `contents` gives.
pub open spec fn latest_result<T: Clone>(contents: Seq<T>, r: Option<T>) -> bool {
    get_result(contents, contents.len() - 1, r)
}

/// The list after `set(index, value)`: entry `index` replaced when it exists,
/// `value` appended when `index` is the length, unchanged past the end.
pub open spec fn set_result<T>(contents: Seq<T>, index: int, value: T) -> Seq<T> {
    if 0 <= index < contents.len() {
        contents.update(index, value)
    } else if index == contents.len() {
        contents.push(value)
    } else {
        contents
    }
}

/// Setting an existing entry and reading it back gives the value written;
/// no other entry changes and the length stays.
pub proof fn law_set_then_get<T>(contents: Seq<T>, index: int, value: T)
    requires
        0 <= index < contents.len(),
    ensures
        set_result(contents, index, value).len() == contents.len(),
        set_result(contents, index, value)[index] == value,
        forall|k: int|
            0 <= k < contents.len() && k != index ==> #[trigger] set_result(contents, index, value)[k]
                == contents[k],
{
}

/// Setting at the length appends: the value becomes the latest entry and
/// the earlier entries stay.
pub proof fn law_set_at_end_appends<T>(contents: Seq<T>, value: T)
    ensures
        set_result(contents, contents.len() as int, value).len() == contents.len() + 1,
        set_result(contents, contents.len() as int, value).last() == value,
        forall|k: int|
            0 <= k < contents.len() ==> #[trigger] set_result(contents, contents.len() as int, value)[k]
                == contents[k],
{
}

/// Setting past the end changes nothing.
pub proof fn law_set_past_end_unchanged<T>(contents: Seq<T>, index: int, value: T)
    requires
        index > contents.len(),
    ensures
        set_result(contents, index, value) == contents,
{
}

/// Entry `index` of the list, cloned.
pub fn snapshot_get<T: Clone>(list: &Vec<T>, index: usize) -> (r: Option<T>)
    ensures
        get_result(list@, index as int, r),
{
    if index < list.len() {
        Some(list[index].clone())
    } else {
        None
    }
}

/// The last entry of the list, cloned.
pub fn snapshot_latest<T: Clone>(list: &Vec<T>) -> (r: Option<T>)
    ensures
        latest_result(list@, r),
{
    if list.len() == 0 {
        None
    } else {
        Some(list[list.len() - 1].clone())
    }
}

/// Replaces entry `index`, or appends when `index` is the length. Past the
/// end the list is left as it is and `false` comes back.
pub fn apply_set<T>(list: &mut Vec<T>, index: usize, value: T) -> (applied: bool)
    ensures
        applied == (index <= old(list).len()),
        final(list)@ == set_result(old(list)@, index as int, value),
{
    if index < list.len() {
        list.set(index, value);
        true
    } else if index == list.len() {
        list.push(value);
        true
    } else {
        false
    }
}

/// Empties the list.
pub fn apply_clear<T>(list: &mut Vec<T>) -> (changed: bool)
    ensures
        changed,
        final(list)@ == Seq::<T>::empty(),
{
    list.clear();
    true
}

/// Read-only frame-indexed view of the snapshots published into a
/// [`SlotSender`].
#[derive(Clone)]
#[verifier::reject_recursive_types(T)]
pub struct Slot<T> {
    rx: Receiver<Vec<T>>,
}

impl<T: Clone + Send + Sync + 'static> Slot<T> {
    /// A slot that no producer will ever update: it reads as the empty list.
    pub fn empty() -> (slot: Self) {
        let (_tx, rx) = watch_channel(Vec::new());
        Slot { rx }
    }

    /// The snapshot at `index`, if the published list is that long.
    pub fn get(&self, index: usize) -> (r: Option<T>)
        ensures
            exists|contents: Seq<T>| #[trigger] get_result(contents, index as int, r),
    {
        let f = move |list: &Vec<T>| -> (r: Option<T>)
            ensures
                get_result(list@, index as int, r),
            { snapshot_get(list, index) };
        let r = read_list(&self.rx, f);
        proof {
            let list = choose|list: &Vec<T>| #[trigger] f.ensures((list,), r);
            assert(get_result(list@, index as int, r));
        }
        r
    }

    /// The most recently published snapshot, if any.
    pub fn latest(&self) -> (r: Option<T>)
        ensures
            exists|contents: Seq<T>| #[trigger] latest_result(contents, r),
    {
        let f = |list: &Vec<T>| -> (r: Option<T>)
            ensures
                latest_result(list@, r),
            { snapshot_latest(list) };
        let r = read_list(&self.rx, f);
        proof {
            let list = choose|list: &Vec<T>| #[trigger] f.ensures((list,), r);
            assert(latest_result(list@, r));
        }
        r
    }

    /// The number of published snapshots.
    pub fn len(&self) -> (n: usize)
        ensures
            exists|contents: Seq<T>| #[trigger] contents.len() == n,
    {
        let f = |list: &Vec<T>| -> (n: usize)
            ensures
                n == list@.len(),
            { list.len() };
        let n = read_list(&self.rx, f);
        proof {
            let list = choose|list: &Vec<T>| #[trigger] f.ensures((list,), n);
            assert(list@.len() == n);
        }
        n
    }

    /// Whether no snapshot has been published.
    pub fn is_empty(&self) -> (b: bool)
        ensures
            exists|contents: Seq<T>| b == (#[trigger] contents.len() == 0),
    {
        let f = |list: &Vec<T>| -> (b: bool)
            ensures
                b == (list@.len() == 0),
            { list.len() == 0 };
        let b = read_list(&self.rx, f);
        proof {
            let list = choose|list: &Vec<T>| #[trigger] f.ensures((list,), b);
            assert(b == (list@.len() == 0));
        }
        b
    }
}

impl<T: Clone + Send + Sync + 'static> Default for Slot<T> {
    /// `Slot::empty`.
    fn default() -> (slot: Self) {
        Self::empty()
    }
}

/// Write side of a [`Slot`]: the single producer of the snapshot list.
#[verifier::reject_recursive_types(T)]
pub struct SlotSender<T> {
    tx: Sender<Vec<T>>,
}

impl<T: Send + Sync + 'static> SlotSender<T> {
    /// Replaces the snapshot at `index`; when `index` is the current length
    /// the snapshot is appended. An `index` past the end leaves the list as
    /// it is and gives `false`.
    pub fn set(&self, index: usize, value: T) -> (applied: bool)
        ensures
            exists|v: &mut Vec<T>|
                applied == (index <= v.len()) && final(v)@ == set_result(v@, index as int, value),
    {
        let f = move |list: &mut Vec<T>| -> (applied: bool)
            ensures
                applied == (index <= old(list).len()),
                final(list)@ == set_result(old(list)@, index as int, value),
            { apply_set(list, index, value) };
        let applied = modify_list(&self.tx, f);
        applied
    }

    /// Empties the snapshot list.
    pub fn clear(&self)
        ensures
            exists|v: &mut Vec<T>| final(v)@ == Seq::<T>::empty(),
    {
        let f = |list: &mut Vec<T>| -> (changed: bool)
            ensures
                changed,
                final(list)@ == Seq::<T>::empty(),
            { apply_clear(list) };
        let _ = modify_list(&self.tx, f);
    }
}

/// A fresh producer / consumer pair over one channel that starts with no
/// snapshots.
pub fn channel<T: Send + Sync + 'static>() -> (SlotSender<T>, Slot<T>) {
    let (tx, rx) = watch_channel(Vec::new());
    (SlotSender { tx }, Slot { rx })
}

} // verus!
