//! The ordered maps of indexmap that hold layers and widgets, seen as
//! sequences of entries in insertion order.
use vstd::prelude::*;
use indexmap::IndexMap;
use crate::context::Layer;
use crate::widget::Widget;

verus! {

#[verifier::external_type_specification]
#[verifier::external_body]
#[verifier::reject_recursive_types(K)]
#[verifier::reject_recursive_types(V)]
#[verifier::reject_recursive_types(S)]
pub struct ExIndexMap<K, V, S>(IndexMap<K, V, S>);

/// The entries of a map of layers, in order.
pub uninterp spec fn layer_entries(m: IndexMap<u64, Layer>) -> Seq<(u64, Layer)>;

/// The entries of a map of widgets, in order.
pub uninterp spec fn widget_entries(m: IndexMap<u64, Widget>) -> Seq<(u64, Widget)>;

/// Relies on `IndexMap::new`: a new map is empty.
#[verifier::external_body]
pub(crate) fn layers_new() -> (r: IndexMap<u64, Layer>)
    ensures
        layer_entries(r) == Seq::<(u64, Layer)>::empty(),
{
    IndexMap::new()
}

/// Relies on `IndexMap::len`: the number of entries.
#[verifier::external_body]
pub(crate) fn layers_len(m: &IndexMap<u64, Layer>) -> (r: usize)
    ensures
        r == layer_entries(*m).len(),
{
    m.len()
}

/// Relies on `IndexMap::insert`: a key not yet in the map goes last, with
/// its value.
#[verifier::external_body]
pub(crate) fn layers_insert(m: &mut IndexMap<u64, Layer>, k: u64, v: Layer)
    ensures
        (forall|i: int| 0 <= i < layer_entries(*old(m)).len() ==> (#[trigger] layer_entries(*old(m))[i]).0 != k)
            ==> layer_entries(*final(m)) == layer_entries(*old(m)).push((k, v)),
{
    m.insert(k, v);
}

/// Relies on `IndexMap::shift_remove`: the entry of the key leaves, and the
/// others keep their order.
#[verifier::external_body]
pub(crate) fn layers_shift_remove(m: &mut IndexMap<u64, Layer>, k: u64) -> (r: Option<Layer>)
    ensures
        r is None <==> forall|i: int| 0 <= i < layer_entries(*old(m)).len() ==> (#[trigger] layer_entries(*old(m))[i]).0 != k,
        r is None ==> layer_entries(*final(m)) == layer_entries(*old(m)),
        forall|i: int|
            0 <= i < layer_entries(*old(m)).len() && (#[trigger] layer_entries(*old(m))[i]).0 == k && (forall|j: int|
                0 <= j < layer_entries(*old(m)).len() && j != i ==> layer_entries(*old(m))[j].0 != k)
                ==> layer_entries(*final(m)) == layer_entries(*old(m)).remove(i) && r == Some(layer_entries(*old(m))[i].1),
{
    m.shift_remove(&k)
}

/// Relies on `IndexMap::get_index_of`: the position of the key, if present.
#[verifier::external_body]
pub(crate) fn layers_index_of(m: &IndexMap<u64, Layer>, k: u64) -> (r: Option<usize>)
    ensures
        r matches Some(i) ==> i < layer_entries(*m).len() && layer_entries(*m)[i as int].0 == k,
        r is None ==> forall|i: int| 0 <= i < layer_entries(*m).len() ==> (#[trigger] layer_entries(*m)[i]).0 != k,
{
    m.get_index_of(&k)
}

/// Relies on `IndexMap::get_index`: the entry at a position.
#[verifier::external_body]
pub(crate) fn layer_at(m: &IndexMap<u64, Layer>, i: usize) -> (r: (u64, &Layer))
    requires
        i < layer_entries(*m).len(),
    ensures
        r.0 == layer_entries(*m)[i as int].0,
        *r.1 == layer_entries(*m)[i as int].1,
{
    let (k, v) = m.get_index(i).unwrap();
    (*k, v)
}

/// Relies on `IndexMap::get_index_mut`: the value at a position, to change
/// in place; its key stays.
#[verifier::external_body]
pub(crate) fn layer_at_mut(m: &mut IndexMap<u64, Layer>, i: usize) -> (r: &mut Layer)
    requires
        i < layer_entries(*old(m)).len(),
    ensures
        *r == layer_entries(*old(m))[i as int].1,
        layer_entries(*final(m)) == layer_entries(*old(m)).update(
            i as int,
            (layer_entries(*old(m))[i as int].0, *final(r)),
        ),
{
    m.get_index_mut(i).unwrap().1
}

/// Relies on `IndexMap::new`: a new map is empty.
#[verifier::external_body]
pub(crate) fn widgets_new() -> (r: IndexMap<u64, Widget>)
    ensures
        widget_entries(r) == Seq::<(u64, Widget)>::empty(),
{
    IndexMap::new()
}

/// Relies on `IndexMap::len`: the number of entries.
#[verifier::external_body]
pub(crate) fn widgets_len(m: &IndexMap<u64, Widget>) -> (r: usize)
    ensures
        r == widget_entries(*m).len(),
{
    m.len()
}

/// Relies on `IndexMap::insert`: a key not yet in the map goes last, with
/// its value.
#[verifier::external_body]
pub(crate) fn widgets_insert(m: &mut IndexMap<u64, Widget>, k: u64, v: Widget)
    ensures
        (forall|i: int| 0 <= i < widget_entries(*old(m)).len() ==> (#[trigger] widget_entries(*old(m))[i]).0 != k)
            ==> widget_entries(*final(m)) == widget_entries(*old(m)).push((k, v)),
{
    m.insert(k, v);
}

/// Relies on `IndexMap::shift_remove`: the entry of the key leaves, and the
/// others keep their order.
#[verifier::external_body]
pub(crate) fn widgets_shift_remove(m: &mut IndexMap<u64, Widget>, k: u64) -> (r: Option<Widget>)
    ensures
        r is None <==> forall|i: int| 0 <= i < widget_entries(*old(m)).len() ==> (#[trigger] widget_entries(*old(m))[i]).0 != k,
        r is None ==> widget_entries(*final(m)) == widget_entries(*old(m)),
        forall|i: int|
            0 <= i < widget_entries(*old(m)).len() && (#[trigger] widget_entries(*old(m))[i]).0 == k && (forall|j: int|
                0 <= j < widget_entries(*old(m)).len() && j != i ==> widget_entries(*old(m))[j].0 != k)
                ==> widget_entries(*final(m)) == widget_entries(*old(m)).remove(i) && r == Some(widget_entries(*old(m))[i].1),
{
    m.shift_remove(&k)
}

/// Relies on `IndexMap::get_index_of`: the position of the key, if present.
#[verifier::external_body]
pub(crate) fn widgets_index_of(m: &IndexMap<u64, Widget>, k: u64) -> (r: Option<usize>)
    ensures
        r matches Some(i) ==> i < widget_entries(*m).len() && widget_entries(*m)[i as int].0 == k,
        r is None ==> forall|i: int| 0 <= i < widget_entries(*m).len() ==> (#[trigger] widget_entries(*m)[i]).0 != k,
{
    m.get_index_of(&k)
}

/// Relies on `IndexMap::get_index`: the entry at a position.
#[verifier::external_body]
pub(crate) fn widget_at(m: &IndexMap<u64, Widget>, i: usize) -> (r: (u64, &Widget))
    requires
        i < widget_entries(*m).len(),
    ensures
        r.0 == widget_entries(*m)[i as int].0,
        *r.1 == widget_entries(*m)[i as int].1,
{
    let (k, v) = m.get_index(i).unwrap();
    (*k, v)
}

/// Relies on `IndexMap::get_index_mut`: the value at a position, to change
/// in place; its key stays.
#[verifier::external_body]
pub(crate) fn widget_at_mut(m: &mut IndexMap<u64, Widget>, i: usize) -> (r: &mut Widget)
    requires
        i < widget_entries(*old(m)).len(),
    ensures
        *r == widget_entries(*old(m))[i as int].1,
        widget_entries(*final(m)) == widget_entries(*old(m)).update(
            i as int,
            (widget_entries(*old(m))[i as int].0, *final(r)),
        ),
{
    m.get_index_mut(i).unwrap().1
}

} // verus!
