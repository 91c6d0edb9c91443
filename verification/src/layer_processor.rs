//! Changes to layers: property updates and the z-order of the layers of a
//! page.

use crate::content_parser::views;
use crate::fixed::Fixed;
use crate::models::{
    opt_text, z_index_of, z_of, Bounds, LayerModel, LayerObject, LayerRole, LayerType,
    LayerUpdates, PageData, SourceType,
};
use crate::sorting::{is_stable_order, stable_order};
use vstd::prelude::*;

verus! {

broadcast use vstd::string::group_string_axioms;

/// A number held between zero and one.
pub open spec fn unit_clamped(v: Fixed) -> Fixed {
    if v.micros < 0 {
        Fixed::spec_zero()
    } else if v.micros > Fixed::spec_one().micros {
        Fixed::spec_one()
    } else {
        v
    }
}

fn clamp_unit(v: Fixed) -> (r: Fixed)
    ensures
        r == unit_clamped(v),
{
    if v.lt(Fixed::zero()) {
        Fixed::zero()
    } else if Fixed::one().lt(v) {
        Fixed::one()
    } else {
        v
    }
}

/// `old` where `change` is absent, else what `change` holds.
pub open spec fn or_keep<T>(change: Option<T>, old: T) -> T {
    match change {
        Some(v) => v,
        None => old,
    }
}

/// `old` where `change` is absent, else `Some` of what `change` holds.
pub open spec fn or_keep_some<T>(change: Option<T>, old: Option<T>) -> Option<T> {
    match change {
        Some(v) => Some(v),
        None => old,
    }
}

/// A layer after the changes that `updates` asks for: each field that is
/// present replaces that of the layer; the opacity is held between zero and
/// one and the font size at one or above. Font style, text decoration, text
/// transform, line height, letter spacing and background colour are not
/// applied.
pub open spec fn updated(layer: LayerModel, updates: LayerUpdates) -> LayerModel {
    LayerModel {
        bounds: or_keep(updates.bounds, layer.bounds),
        visible: or_keep(updates.visible, layer.visible),
        locked: or_keep(updates.locked, layer.locked),
        z_index: match updates.z_index {
            Some(z) => z as int,
            None => layer.z_index,
        },
        opacity: match updates.opacity {
            Some(o) => unit_clamped(o),
            None => layer.opacity,
        },
        content: or_keep_some(opt_text(updates.content), layer.content),
        font_family: or_keep_some(opt_text(updates.font_family), layer.font_family),
        font_size: match updates.font_size {
            Some(s) => Some(s.spec_max(Fixed::spec_one())),
            None => layer.font_size,
        },
        font_weight: or_keep_some(updates.font_weight, layer.font_weight),
        color: or_keep_some(opt_text(updates.color), layer.color),
        text_align: or_keep_some(updates.text_align, layer.text_align),
        role: or_keep(updates.role, layer.role),
        ..layer
    }
}

/// The layer that an update request describes by itself: a manual text layer
/// with the requested fields, and defaults for bounds (a box of 100 by 100 at
/// the origin), visibility, lock, z-order, opacity and role.
pub open spec fn requested(layer_id: Seq<char>, updates: LayerUpdates) -> LayerModel {
    LayerModel {
        id: layer_id,
        layer_type: LayerType::Text,
        bounds: or_keep(
            updates.bounds,
            Bounds {
                x: Fixed::spec_zero(),
                y: Fixed::spec_zero(),
                width: Fixed::spec_from_int(100),
                height: Fixed::spec_from_int(100),
            },
        ),
        visible: or_keep(updates.visible, true),
        locked: or_keep(updates.locked, false),
        z_index: match updates.z_index {
            Some(z) => z as int,
            None => 0,
        },
        opacity: match updates.opacity {
            Some(o) => unit_clamped(o),
            None => Fixed::spec_one(),
        },
        content: opt_text(updates.content),
        font_family: opt_text(updates.font_family),
        font_size: match updates.font_size {
            Some(s) => Some(s.spec_max(Fixed::spec_one())),
            None => None,
        },
        font_weight: updates.font_weight,
        font_style: opt_text(updates.font_style),
        color: opt_text(updates.color),
        text_align: updates.text_align,
        text_decoration: opt_text(updates.text_decoration),
        text_transform: opt_text(updates.text_transform),
        line_height: updates.line_height,
        letter_spacing: updates.letter_spacing,
        background_color: opt_text(updates.background_color),
        image_url: None,
        image_path: None,
        image_data: None,
        shape_type: None,
        stroke_color: None,
        stroke_width: None,
        fill_color: None,
        path_commands: None,
        path_fill_rule: None,
        transform: None,
        source_type: SourceType::Manual,
        role: or_keep(updates.role, LayerRole::Content),
    }
}

fn keep_or<T: Copy>(change: Option<T>, old: T) -> (r: T)
    ensures
        r == or_keep(change, old),
{
    match change {
        Some(v) => v,
        None => old,
    }
}

fn keep_some_or<T: Copy>(change: Option<T>, old: Option<T>) -> (r: Option<T>)
    ensures
        r == or_keep_some(change, old),
{
    match change {
        Some(v) => Some(v),
        None => old,
    }
}

fn clamped_option(v: Option<Fixed>) -> (r: Option<Fixed>)
    ensures
        r == match v {
            Some(o) => Some(unit_clamped(o)),
            None => None,
        },
{
    match v {
        Some(o) => Some(clamp_unit(o)),
        None => None,
    }
}

fn raised_option(v: Option<Fixed>) -> (r: Option<Fixed>)
    ensures
        r == match v {
            Some(s) => Some(s.spec_max(Fixed::spec_one())),
            None => None,
        },
{
    match v {
        Some(s) => Some(s.max(Fixed::one())),
        None => None,
    }
}

fn apply_text(target: &mut Option<String>, change: &Option<String>)
    ensures
        opt_text(*final(target)) == or_keep_some(opt_text(*change), opt_text(*old(target))),
{
    match change {
        Some(t) => {
            *target = Some(t.clone());
        },
        None => {},
    }
}

fn copy_text(s: &Option<String>) -> (r: Option<String>)
    ensures
        opt_text(r) == opt_text(*s),
{
    match s {
        Some(t) => Some(t.clone()),
        None => None,
    }
}

/// Checks an update request and gives back the layer that it describes.
pub fn update_layer(_page_index: usize, layer_id: String, updates: LayerUpdates) -> (r: Result<
    LayerObject,
    String,
>)
    ensures
        r matches Ok(layer) && layer@ == requested(layer_id@, updates),
{
    let mut layer = LayerObject {
        id: layer_id,
        layer_type: LayerType::Text,
        bounds: match updates.bounds {
            Some(b) => b,
            None => Bounds::new(
                Fixed::zero(),
                Fixed::zero(),
                Fixed::from_int(100),
                Fixed::from_int(100),
            ),
        },
        visible: match updates.visible {
            Some(v) => v,
            None => true,
        },
        locked: match updates.locked {
            Some(v) => v,
            None => false,
        },
        z_index: match updates.z_index {
            Some(v) => v,
            None => 0,
        },
        opacity: match updates.opacity {
            Some(o) => clamp_unit(o),
            None => Fixed::one(),
        },
        content: copy_text(&updates.content),
        font_family: copy_text(&updates.font_family),
        font_size: match updates.font_size {
            Some(s) => Some(s.max(Fixed::one())),
            None => None,
        },
        font_weight: updates.font_weight,
        font_style: copy_text(&updates.font_style),
        color: copy_text(&updates.color),
        text_align: updates.text_align,
        text_decoration: copy_text(&updates.text_decoration),
        text_transform: copy_text(&updates.text_transform),
        line_height: updates.line_height,
        letter_spacing: updates.letter_spacing,
        background_color: copy_text(&updates.background_color),
        image_url: None,
        image_path: None,
        image_data: None,
        shape_type: None,
        stroke_color: None,
        stroke_width: None,
        fill_color: None,
        path_data: None,
        transform: None,
        source_type: SourceType::Manual,
        role: match updates.role {
            Some(r) => r,
            None => LayerRole::Content,
        },
    };
    LayerProcessor::apply_updates(&mut layer, &updates);
    Ok(layer)
}

/// Acknowledges the removal of a layer; the layers themselves are kept by the
/// caller.
pub fn delete_layer(_page_index: usize, _layer_id: String) -> (r: Result<(), String>)
    ensures
        r is Ok,
{
    Ok(())
}

/// Acknowledges a new order of layers; the layers themselves are kept by the
/// caller.
pub fn reorder_layers(_page_index: usize, _layer_ids: Vec<String>) -> (r: Result<(), String>)
    ensures
        r is Ok,
{
    Ok(())
}

/// The first position of a layer with the identifier `id`, if there is one.
pub open spec fn position_of(layers: Seq<LayerModel>, id: Seq<char>) -> Option<int> {
    if exists|i: int| 0 <= i < layers.len() && (#[trigger] layers[i]).id == id {
        Some(
            choose|i: int|
                0 <= i < layers.len() && (#[trigger] layers[i]).id == id && forall|k: int|
                    0 <= k < i ==> (#[trigger] layers[k]).id != id,
        )
    } else {
        None
    }
}

/// The largest z-order among the layers, if there is a layer.
pub open spec fn highest(layers: Seq<LayerModel>) -> Option<int>
    decreases layers.len(),
{
    if layers.len() == 0 {
        None
    } else {
        match highest(layers.drop_last()) {
            Some(z) => Some(
                if layers.last().z_index >= z {
                    layers.last().z_index
                } else {
                    z
                },
            ),
            None => Some(layers.last().z_index),
        }
    }
}

/// The least z-order among the layers, if there is a layer.
pub open spec fn lowest(layers: Seq<LayerModel>) -> Option<int>
    decreases layers.len(),
{
    if layers.len() == 0 {
        None
    } else {
        match lowest(layers.drop_last()) {
            Some(z) => Some(
                if layers.last().z_index <= z {
                    layers.last().z_index
                } else {
                    z
                },
            ),
            None => Some(layers.last().z_index),
        }
    }
}

/// The least z-order above `z` among the layers, if there is one.
pub open spec fn next_above(layers: Seq<LayerModel>, z: int) -> Option<int>
    decreases layers.len(),
{
    if layers.len() == 0 {
        None
    } else {
        let rest = next_above(layers.drop_last(), z);
        let last = layers.last().z_index;
        if last > z && (rest is None || last < rest.unwrap()) {
            Some(last)
        } else {
            rest
        }
    }
}

/// The largest z-order below `z` among the layers, if there is one.
pub open spec fn next_below(layers: Seq<LayerModel>, z: int) -> Option<int>
    decreases layers.len(),
{
    if layers.len() == 0 {
        None
    } else {
        let rest = next_below(layers.drop_last(), z);
        let last = layers.last().z_index;
        if last < z && (rest is None || last > rest.unwrap()) {
            Some(last)
        } else {
            rest
        }
    }
}

/// The layers with the z-order of the one at position `at` set to `z`.
pub open spec fn with_z(layers: Seq<LayerModel>, at: int, z: int) -> Seq<LayerModel> {
    layers.update(at, LayerModel { z_index: z, ..layers[at] })
}

/// The layers after an exchange of z-orders: every layer with the identifier
/// `id` gets `theirs`, and every other layer that had `theirs` gets `mine`.
pub open spec fn exchanged(layers: Seq<LayerModel>, id: Seq<char>, mine: int, theirs: int) -> Seq<
    LayerModel,
> {
    Seq::new(
        layers.len(),
        |i: int|
            if layers[i].id == id {
                LayerModel { z_index: theirs, ..layers[i] }
            } else if layers[i].z_index == theirs {
                LayerModel { z_index: mine, ..layers[i] }
            } else {
                layers[i]
            },
    )
}

/// The message for a layer that is not on the page.
pub open spec fn not_found(id: Seq<char>) -> Seq<char> {
    "Layer not found: "@ + id
}

/// Everything of a page but its layers is the same.
pub open spec fn same_frame(a: PageData, b: PageData) -> bool {
    &&& a.page_index == b.page_index
    &&& a.width == b.width
    &&& a.height == b.height
    &&& a.dpi == b.dpi
    &&& a.metadata == b.metadata
}

fn not_found_message(id: &str) -> (msg: String)
    ensures
        msg@ == not_found(id@),
{
    let mut msg = "Layer not found: ".to_string();
    msg.append(id);
    msg
}

fn find_layer(page: &PageData, layer_id: &str) -> (r: Option<usize>)
    ensures
        match r {
            Some(i) => position_of(views(page.layers@), layer_id@) == Some(i as int) && i
                < page.layers@.len(),
            None => position_of(views(page.layers@), layer_id@) is None,
        },
{
    let key = layer_id.to_string();
    let mut i: usize = 0;
    while i < page.layers.len()
        invariant
            i <= page.layers.len(),
            key@ == layer_id@,
            forall|k: int| 0 <= k < i ==> (#[trigger] views(page.layers@)[k]).id != layer_id@,
        decreases page.layers.len() - i,
    {
        if page.layers[i].id == key {
            assert(views(page.layers@)[i as int].id == layer_id@);
            return Some(i);
        }
        i += 1;
    }
    None
}

fn set_z(page: &mut PageData, at: usize, z: i32)
    requires
        at < old(page).layers@.len(),
    ensures
        same_frame(*final(page), *old(page)),
        views(final(page).layers@) == with_z(views(old(page).layers@), at as int, z as int),
{
    page.layers[at].z_index = z;
    assert(views(page.layers@) =~= with_z(views(old(page).layers@), at as int, z as int));
}

fn top_z(page: &PageData) -> (r: Option<i32>)
    ensures
        match r {
            Some(z) => highest(views(page.layers@)) == Some(z as int) && exists|i: int|
                0 <= i < page.layers@.len() && (#[trigger] page.layers@[i]).z_index == z,
            None => highest(views(page.layers@)) is None,
        },
{
    let mut max_z: Option<i32> = None;
    let mut i: usize = 0;
    while i < page.layers.len()
        invariant
            i <= page.layers.len(),
            match max_z {
                Some(z) => highest(views(page.layers@).take(i as int)) == Some(z as int)
                    && exists|k: int|
                    0 <= k < page.layers@.len() && (#[trigger] page.layers@[k]).z_index == z,
                None => highest(views(page.layers@).take(i as int)) is None,
            },
        decreases page.layers.len() - i,
    {
        proof {
            let all = views(page.layers@);
            assert(all.take(i + 1).drop_last() =~= all.take(i as int));
            assert(all.take(i + 1).last() == all[i as int]);
        }
        let z = page.layers[i].z_index;
        max_z = match max_z {
            Some(m) => Some(
                if z >= m {
                    z
                } else {
                    m
                },
            ),
            None => Some(z),
        };
        i += 1;
    }
    proof {
        let all = views(page.layers@);
        assert(all.take(page.layers.len() as int) =~= all);
    }
    max_z
}

fn bottom_z(page: &PageData) -> (r: Option<i32>)
    ensures
        match r {
            Some(z) => lowest(views(page.layers@)) == Some(z as int) && exists|i: int|
                0 <= i < page.layers@.len() && (#[trigger] page.layers@[i]).z_index == z,
            None => lowest(views(page.layers@)) is None,
        },
{
    let mut min_z: Option<i32> = None;
    let mut i: usize = 0;
    while i < page.layers.len()
        invariant
            i <= page.layers.len(),
            match min_z {
                Some(z) => lowest(views(page.layers@).take(i as int)) == Some(z as int)
                    && exists|k: int|
                    0 <= k < page.layers@.len() && (#[trigger] page.layers@[k]).z_index == z,
                None => lowest(views(page.layers@).take(i as int)) is None,
            },
        decreases page.layers.len() - i,
    {
        proof {
            let all = views(page.layers@);
            assert(all.take(i + 1).drop_last() =~= all.take(i as int));
            assert(all.take(i + 1).last() == all[i as int]);
        }
        let z = page.layers[i].z_index;
        min_z = match min_z {
            Some(m) => Some(
                if z <= m {
                    z
                } else {
                    m
                },
            ),
            None => Some(z),
        };
        i += 1;
    }
    proof {
        let all = views(page.layers@);
        assert(all.take(page.layers.len() as int) =~= all);
    }
    min_z
}

fn z_above(page: &PageData, current_z: i32) -> (r: Option<i32>)
    ensures
        match r {
            Some(z) => next_above(views(page.layers@), current_z as int) == Some(z as int),
            None => next_above(views(page.layers@), current_z as int) is None,
        },
{
    let mut next_z: Option<i32> = None;
    let mut i: usize = 0;
    while i < page.layers.len()
        invariant
            i <= page.layers.len(),
            match next_z {
                Some(z) => next_above(views(page.layers@).take(i as int), current_z as int)
                    == Some(z as int),
                None => next_above(views(page.layers@).take(i as int), current_z as int) is None,
            },
        decreases page.layers.len() - i,
    {
        proof {
            let all = views(page.layers@);
            assert(all.take(i + 1).drop_last() =~= all.take(i as int));
            assert(all.take(i + 1).last() == all[i as int]);
        }
        let z = page.layers[i].z_index;
        if z > current_z {
            next_z = match next_z {
                Some(n) => Some(
                    if z < n {
                        z
                    } else {
                        n
                    },
                ),
                None => Some(z),
            };
        }
        i += 1;
    }
    proof {
        let all = views(page.layers@);
        assert(all.take(page.layers.len() as int) =~= all);
    }
    next_z
}

fn z_below(page: &PageData, current_z: i32) -> (r: Option<i32>)
    ensures
        match r {
            Some(z) => next_below(views(page.layers@), current_z as int) == Some(z as int),
            None => next_below(views(page.layers@), current_z as int) is None,
        },
{
    let mut prev_z: Option<i32> = None;
    let mut i: usize = 0;
    while i < page.layers.len()
        invariant
            i <= page.layers.len(),
            match prev_z {
                Some(z) => next_below(views(page.layers@).take(i as int), current_z as int)
                    == Some(z as int),
                None => next_below(views(page.layers@).take(i as int), current_z as int) is None,
            },
        decreases page.layers.len() - i,
    {
        proof {
            let all = views(page.layers@);
            assert(all.take(i + 1).drop_last() =~= all.take(i as int));
            assert(all.take(i + 1).last() == all[i as int]);
        }
        let z = page.layers[i].z_index;
        if z < current_z {
            prev_z = match prev_z {
                Some(n) => Some(
                    if z > n {
                        z
                    } else {
                        n
                    },
                ),
                None => Some(z),
            };
        }
        i += 1;
    }
    proof {
        let all = views(page.layers@);
        assert(all.take(page.layers.len() as int) =~= all);
    }
    prev_z
}

fn z_at(page: &PageData, at: usize) -> (z: i32)
    requires
        at < page.layers@.len(),
    ensures
        z == views(page.layers@)[at as int].z_index,
{
    page.layers[at].z_index
}

/// Operations on the z-order of the layers of a page.
#[derive(Debug, Clone, Copy)]
pub struct LayerProcessor;

impl LayerProcessor {
    /// The processor; it holds nothing.
    pub fn new() -> (p: LayerProcessor)
        ensures
            p == LayerProcessor,
    {
        LayerProcessor
    }

    /// Applies the changes that `updates` asks for to a layer.
    pub fn apply_updates(layer: &mut LayerObject, updates: &LayerUpdates)
        ensures
            final(layer)@ == updated(old(layer)@, *updates),
    {
        layer.bounds = keep_or(updates.bounds, layer.bounds);
        layer.visible = keep_or(updates.visible, layer.visible);
        layer.locked = keep_or(updates.locked, layer.locked);
        layer.z_index = keep_or(updates.z_index, layer.z_index);
        layer.opacity = keep_or(clamped_option(updates.opacity), layer.opacity);
        apply_text(&mut layer.content, &updates.content);
        apply_text(&mut layer.font_family, &updates.font_family);
        layer.font_size = keep_some_or(raised_option(updates.font_size), layer.font_size);
        layer.font_weight = keep_some_or(updates.font_weight, layer.font_weight);
        apply_text(&mut layer.color, &updates.color);
        layer.text_align = keep_some_or(updates.text_align, layer.text_align);
        layer.role = keep_or(updates.role, layer.role);
    }

    /// Puts the first layer with the identifier `layer_id` above all others:
    /// its z-order becomes one more than the largest on the page.
    pub fn bring_to_front(page: &mut PageData, layer_id: &str) -> (r: Result<(), String>)
        requires
            forall|i: int|
                0 <= i < old(page).layers@.len() ==> (#[trigger] old(page).layers@[i]).z_index
                    < i32::MAX,
        ensures
            same_frame(*final(page), *old(page)),
            match position_of(views(old(page).layers@), layer_id@) {
                Some(at) => r is Ok && views(final(page).layers@) == with_z(
                    views(old(page).layers@),
                    at,
                    highest(views(old(page).layers@)).unwrap() + 1,
                ),
                None => (r matches Err(msg) && msg@ == not_found(layer_id@)) && views(
                    final(page).layers@,
                ) == views(old(page).layers@),
            },
    {
        let max_z = top_z(page);
        match find_layer(page, layer_id) {
            Some(at) => {
                let top = match max_z {
                    Some(z) => z,
                    None => 0,
                };
                set_z(page, at, top + 1);
                Ok(())
            },
            None => Err(not_found_message(layer_id)),
        }
    }

    /// Puts the first layer with the identifier `layer_id` below all others:
    /// its z-order becomes one less than the least on the page.
    pub fn send_to_back(page: &mut PageData, layer_id: &str) -> (r: Result<(), String>)
        requires
            forall|i: int|
                0 <= i < old(page).layers@.len() ==> (#[trigger] old(page).layers@[i]).z_index
                    > i32::MIN,
        ensures
            same_frame(*final(page), *old(page)),
            match position_of(views(old(page).layers@), layer_id@) {
                Some(at) => r is Ok && views(final(page).layers@) == with_z(
                    views(old(page).layers@),
                    at,
                    lowest(views(old(page).layers@)).unwrap() - 1,
                ),
                None => (r matches Err(msg) && msg@ == not_found(layer_id@)) && views(
                    final(page).layers@,
                ) == views(old(page).layers@),
            },
    {
        let min_z = bottom_z(page);
        match find_layer(page, layer_id) {
            Some(at) => {
                let bottom = match min_z {
                    Some(z) => z,
                    None => 0,
                };
                set_z(page, at, bottom - 1);
                Ok(())
            },
            None => Err(not_found_message(layer_id)),
        }
    }

    /// Gives every layer with the identifier `layer_id` the z-order `theirs`
    /// and every other layer that has `theirs` the z-order `mine`.
    fn exchange(page: &mut PageData, layer_id: &str, mine: i32, theirs: i32)
        ensures
            same_frame(*final(page), *old(page)),
            views(final(page).layers@) == exchanged(
                views(old(page).layers@),
                layer_id@,
                mine as int,
                theirs as int,
            ),
    {
        let key = layer_id.to_string();
        let ghost before = views(page.layers@);
        let ghost target = exchanged(before, layer_id@, mine as int, theirs as int);
        let mut i: usize = 0;
        while i < page.layers.len()
            invariant
                i <= page.layers.len(),
                key@ == layer_id@,
                same_frame(*page, *old(page)),
                before == views(old(page).layers@),
                target == exchanged(before, layer_id@, mine as int, theirs as int),
                page.layers@.len() == before.len(),
                forall|k: int| 0 <= k < i ==> (#[trigger] views(page.layers@)[k]) == target[k],
                forall|k: int|
                    i <= k < before.len() ==> (#[trigger] views(page.layers@)[k]) == before[k],
            decreases page.layers.len() - i,
        {
            let ghost now = views(page.layers@);
            if page.layers[i].id == key {
                page.layers[i].z_index = theirs;
            } else if page.layers[i].z_index == theirs {
                page.layers[i].z_index = mine;
            }
            proof {
                assert(now[i as int] == before[i as int]);
                assert forall|k: int| 0 <= k < i + 1 implies (#[trigger] views(page.layers@)[k])
                    == target[k] by {
                    if k < i {
                        assert(views(page.layers@)[k] == now[k]);
                    }
                }
                assert forall|k: int| i + 1 <= k < before.len() implies (#[trigger] views(
                    page.layers@,
                )[k]) == before[k] by {
                    assert(views(page.layers@)[k] == now[k]);
                }
            }
            i += 1;
        }
        assert(views(page.layers@) =~= target);
    }

    /// Moves the layer with the identifier `layer_id` one step up in the
    /// z-order: it exchanges z-orders with the layers next above it. At the
    /// top it stays.
    pub fn move_up(page: &mut PageData, layer_id: &str) -> (r: Result<(), String>)
        ensures
            same_frame(*final(page), *old(page)),
            match position_of(views(old(page).layers@), layer_id@) {
                Some(at) => r is Ok && views(final(page).layers@) == ({
                    let layers = views(old(page).layers@);
                    match next_above(layers, layers[at].z_index) {
                        Some(z) => exchanged(layers, layer_id@, layers[at].z_index, z),
                        None => layers,
                    }
                }),
                None => (r matches Err(msg) && msg@ == not_found(layer_id@)) && views(
                    final(page).layers@,
                ) == views(old(page).layers@),
            },
    {
        let at = match find_layer(page, layer_id) {
            Some(at) => at,
            None => {
                return Err(not_found_message(layer_id));
            },
        };
        let current_z = z_at(page, at);
        let next_z = z_above(page, current_z);
        match next_z {
            Some(swap_z) => {
                LayerProcessor::exchange(page, layer_id, current_z, swap_z);
            },
            None => {},
        }
        Ok(())
    }

    /// Moves the layer with the identifier `layer_id` one step down in the
    /// z-order: it exchanges z-orders with the layers next below it. At the
    /// bottom it stays.
    pub fn move_down(page: &mut PageData, layer_id: &str) -> (r: Result<(), String>)
        ensures
            same_frame(*final(page), *old(page)),
            match position_of(views(old(page).layers@), layer_id@) {
                Some(at) => r is Ok && views(final(page).layers@) == ({
                    let layers = views(old(page).layers@);
                    match next_below(layers, layers[at].z_index) {
                        Some(z) => exchanged(layers, layer_id@, layers[at].z_index, z),
                        None => layers,
                    }
                }),
                None => (r matches Err(msg) && msg@ == not_found(layer_id@)) && views(
                    final(page).layers@,
                ) == views(old(page).layers@),
            },
    {
        let at = match find_layer(page, layer_id) {
            Some(at) => at,
            None => {
                return Err(not_found_message(layer_id));
            },
        };
        let current_z = z_at(page, at);
        let prev_z = z_below(page, current_z);
        match prev_z {
            Some(swap_z) => {
                LayerProcessor::exchange(page, layer_id, current_z, swap_z);
            },
            None => {},
        }
        Ok(())
    }
}

/// The z-orders of the layers, as sorting keys.
pub open spec fn z_keys(layers: Seq<LayerModel>) -> Seq<i64> {
    Seq::new(layers.len(), |i: int| layers[i].z_index as i64)
}

/// `after` holds the layers of `before` in the stable ascending order of
/// their z-orders, each with its position as its new z-order; a position
/// beyond the largest z-order is held at the largest.
pub open spec fn is_normalized(after: Seq<LayerModel>, before: Seq<LayerModel>) -> bool {
    exists|order: Seq<usize>|
        {
            &&& #[trigger] is_stable_order(order, z_keys(before))
            &&& after.len() == before.len()
            &&& forall|k: int|
                0 <= k < after.len() ==> #[trigger] after[k] == (LayerModel {
                    z_index: z_of(k),
                    ..before[order[k] as int]
                })
        }
}

fn take_layers(page: &mut PageData) -> (slots: Vec<Option<LayerObject>>)
    ensures
        same_frame(*final(page), *old(page)),
        final(page).layers@.len() == 0,
        slots@.len() == old(page).layers@.len(),
        forall|j: int|
            0 <= j < slots@.len() ==> (#[trigger] slots@[j]) == Some(
                old(page).layers@[slots@.len() - 1 - j],
            ),
{
    let mut slots: Vec<Option<LayerObject>> = Vec::new();
    let ghost all = page.layers@;
    while page.layers.len() > 0
        invariant
            same_frame(*page, *old(page)),
            all == old(page).layers@,
            page.layers@.len() + slots@.len() == all.len(),
            page.layers@ == all.take(page.layers@.len() as int),
            forall|j: int|
                0 <= j < slots@.len() ==> (#[trigger] slots@[j]) == Some(all[all.len() - 1 - j]),
        decreases page.layers@.len(),
    {
        let ghost n = page.layers@.len();
        let layer = page.layers.pop().unwrap();
        assert(page.layers@ =~= all.take(n - 1));
        slots.push(Some(layer));
    }
    slots
}

impl LayerProcessor {
    /// Gives the layers of a page the z-orders 0, 1, 2 and so on, in the
    /// order of their z-orders before; layers with the same z-order keep
    /// their order. The layers are put in that order.
    pub fn normalize_z_indices(page: &mut PageData)
        ensures
            same_frame(*final(page), *old(page)),
            is_normalized(views(final(page).layers@), views(old(page).layers@)),
    {
        let n = page.layers.len();
        let mut keys: Vec<i64> = Vec::new();
        let mut i: usize = 0;
        while i < n
            invariant
                i <= n,
                n == page.layers@.len(),
                keys@ == z_keys(views(page.layers@)).take(i as int),
            decreases n - i,
        {
            keys.push(page.layers[i].z_index as i64);
            assert(keys@ =~= z_keys(views(page.layers@)).take(i + 1));
            i += 1;
        }
        assert(keys@ =~= z_keys(views(page.layers@)));
        let order = stable_order(&keys);
        let ghost before = page.layers@;
        let mut slots = take_layers(page);
        let mut k: usize = 0;
        while k < n
            invariant
                k <= n,
                n == before.len(),
                before == old(page).layers@,
                same_frame(*page, *old(page)),
                is_stable_order(order@, z_keys(views(before))),
                slots@.len() == n,
                page.layers@.len() == k,
                forall|j: int|
                    0 <= j < k ==> (#[trigger] page.layers@[j])@ == (LayerModel {
                        z_index: z_of(j),
                        ..before[order@[j] as int]@
                    }),
                forall|j: int|
                    k <= j < n ==> (#[trigger] slots@[n - 1 - order@[j]]) == Some(
                        before[order@[j] as int],
                    ),
            decreases n - k,
        {
            let idx = order[k];
            let mut taken: Option<LayerObject> = None;
            let ghost slots_before = slots@;
            core::mem::swap(&mut slots[n - 1 - idx], &mut taken);
            proof {
                assert(slots_before[n - 1 - order@[k as int]] == Some(before[idx as int]));
                assert forall|j: int| k + 1 <= j < n implies (#[trigger] slots@[n - 1 - order@[j]])
                    == Some(before[order@[j] as int]) by {
                    assert(order@[j] != order@[k as int]);
                    assert(slots@[n - 1 - order@[j]] == slots_before[n - 1 - order@[j]]);
                }
            }
            let mut layer = taken.unwrap();
            layer.z_index = z_index_of(k);
            page.layers.push(layer);
            k += 1;
        }
        proof {
            let after = views(page.layers@);
            let start = views(before);
            assert(is_stable_order(order@, z_keys(start)));
            assert forall|j: int| 0 <= j < after.len() implies #[trigger] after[j] == (LayerModel {
                z_index: z_of(j),
                ..start[order@[j] as int]
            }) by {
                assert(after[j] == page.layers@[j]@);
            }
        }
    }
}

impl Default for LayerProcessor {
    fn default() -> (p: Self)
        ensures
            p == LayerProcessor,
    {
        LayerProcessor::new()
    }
}

} // verus!
