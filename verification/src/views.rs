//! The open views of the editor, in the order in which they were opened, held
//! in an `indexmap::IndexMap` keyed by the number of the view's identifier.

use vstd::prelude::*;
use vstd::view::View as _;
use indexmap::IndexMap;
use std::collections::hash_map::RandomState;
use crate::view::View;

verus! {

/// The map type of the `indexmap` crate, which keeps its entries in the
/// order of their insertion. Nothing is known of what a value of it holds
/// but through [`view_entries`].
#[verifier::external_type_specification]
#[verifier::external_body]
#[verifier::reject_recursive_types(K)]
#[verifier::reject_recursive_types(V)]
#[verifier::reject_recursive_types(S)]
pub struct ExIndexMap<K, V, S>(IndexMap<K, V, S>);

/// The entries of the map of views, in its order: each an identifier's number
/// and the view of that identifier.
pub uninterp spec fn view_entries(views: IndexMap<usize, View, RandomState>) -> Seq<(usize, View)>;

/// The index of the entry of an identifier; the number of entries, if there
/// is none.
pub open spec fn slot_of(entries: Seq<(usize, View)>, id: usize) -> nat
    decreases entries.len(),
{
    if entries.len() > 0 && entries[0].0 != id {
        1 + slot_of(entries.skip(1), id)
    } else {
        0
    }
}

/// A map without views.
///
/// Trusted: `IndexMap::new`, which makes an empty map.
#[verifier::external_body]
pub(crate) fn views_new() -> (views: IndexMap<usize, View, RandomState>)
    ensures
        view_entries(views) == Seq::<(usize, View)>::empty(),
{
    IndexMap::new()
}

/// The number of views.
///
/// Trusted: `IndexMap::len`, the number of entries of the map.
#[verifier::external_body]
pub(crate) fn views_len(views: &IndexMap<usize, View, RandomState>) -> (n: usize)
    ensures
        n == view_entries(*views).len(),
{
    views.len()
}

/// The view of an identifier, to be changed in its place.
///
/// Trusted: `IndexMap::get_mut`, which gives the value of the entry of the
/// key, if the map has one, and leaves the order and the other entries as
/// they are.
#[verifier::external_body]
pub(crate) fn views_get_mut(views: &mut IndexMap<usize, View, RandomState>, id: usize) -> (r: Option<
    &mut View,
>)
    ensures
        match r {
            Some(view) => {
                let i = slot_of(view_entries(*old(views)), id) as int;
                &&& i < view_entries(*old(views)).len()
                &&& *view == view_entries(*old(views))[i].1
                &&& view_entries(*final(views)) == view_entries(*old(views)).update(
                    i,
                    (id, *final(view)),
                )
            },
            None => {
                &&& slot_of(view_entries(*old(views)), id) == view_entries(*old(views)).len()
                &&& view_entries(*final(views)) == view_entries(*old(views))
            },
        },
{
    views.get_mut(&id)
}

/// Puts a view in under an identifier: in the place of the view of that
/// identifier if there is one, else last.
///
/// Trusted: `IndexMap::insert`, which, where the key exists, keeps it in its
/// place in the order and replaces its value, and else adds the entry last.
#[verifier::external_body]
pub(crate) fn views_insert(views: &mut IndexMap<usize, View, RandomState>, id: usize, view: View)
    ensures
        view_entries(*final(views)) == ({
            let entries = view_entries(*old(views));
            let i = slot_of(entries, id) as int;
            if i < entries.len() {
                entries.update(i, (id, view))
            } else {
                entries.push((id, view))
            }
        }),
{
    views.insert(id, view);
}

/// The place of an identifier in the order, if it has a view.
///
/// Trusted: `IndexMap::get_index_of`, which gives the index of the entry of
/// the key, if the map has one.
#[verifier::external_body]
pub(crate) fn views_index_of(views: &IndexMap<usize, View, RandomState>, id: usize) -> (r: Option<
    usize,
>)
    ensures
        match r {
            Some(i) => i == slot_of(view_entries(*views), id) && i < view_entries(*views).len(),
            None => slot_of(view_entries(*views), id) == view_entries(*views).len(),
        },
{
    views.get_index_of(&id)
}

/// The identifier at a place in the order, if the place is taken.
///
/// Trusted: `IndexMap::get_index`, which gives the entry of an index that is
/// less than the length of the map, and nothing for any other index.
#[verifier::external_body]
pub(crate) fn views_key_at(views: &IndexMap<usize, View, RandomState>, index: usize) -> (r: Option<
    usize,
>)
    ensures
        match r {
            Some(id) => index < view_entries(*views).len() && id == view_entries(*views)[index as int].0,
            None => index >= view_entries(*views).len(),
        },
{
    views.get_index(index).map(|(id, _)| *id)
}

/// Takes the view of an identifier out; the view that was last in the order
/// takes its place.
///
/// Trusted: `IndexMap::remove`, which removes the entry of the key by
/// swapping it with the last entry and taking that off, and does nothing if
/// the map has no such entry.
#[verifier::external_body]
pub(crate) fn views_remove(views: &mut IndexMap<usize, View, RandomState>, id: usize) -> (r: Option<
    View,
>)
    ensures
        ({
            let entries = view_entries(*old(views));
            let i = slot_of(entries, id) as int;
            if i < entries.len() {
                &&& r == Some(entries[i].1)
                &&& view_entries(*final(views)) == entries.update(i, entries.last()).drop_last()
            } else {
                &&& r is None
                &&& view_entries(*final(views)) == entries
            }
        }),
{
    views.remove(&id)
}

} // verus!
