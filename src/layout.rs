use vstd::prelude::*;

use crate::classify::{chars_of, primitive_widths, primitive_widths_of, views_of};
use crate::types::{
    resolved_views, ResolvedLayout, layout_views, slot_views, Layout, LayoutModel, PackedSlot, PackedSlotModel, TypeExpr,
    TypeIssue, TypeModel,
};

verus! {

broadcast use {
    vstd::std_specs::vec::axiom_vec_index_decreases,
    vstd::seq::axiom_seq_index_decreases,
    vstd::seq::axiom_seq_subrange_decreases,
};

pub open spec fn usize_name() -> Seq<char> {
    seq!['u', 's', 'i', 'z', 'e']
}

/// The loose (self-describing) layout of a type. An option of a tuple has none.
pub open spec fn layout_of(t: TypeModel) -> Result<LayoutModel, TypeIssue>
    decreases t,
{
    match t {
        TypeModel::Primitive(n) => match primitive_widths(n) {
            Some(w) => Ok(LayoutModel::Fixed(w)),
            None => Ok(LayoutModel::Custom(n)),
        },
        TypeModel::Tuple(items) => match items_layout(items) {
            Ok(ls) => Ok(LayoutModel::Tuple(ls)),
            Err(e) => Err(e),
        },
        TypeModel::Array(inner) => match layout_of(*inner) {
            Ok(l) => Ok(LayoutModel::Array(Box::new(l))),
            Err(e) => Err(e),
        },
        TypeModel::ByteString => Ok(LayoutModel::ByteString),
        TypeModel::Optional(inner) => if *inner is Tuple {
            Err(TypeIssue::OptionOfTuple)
        } else {
            match layout_of(*inner) {
                Ok(l) => Ok(LayoutModel::Enum(seq![l, LayoutModel::Fixed(Seq::empty())])),
                Err(e) => Err(e),
            }
        },
        TypeModel::Custom(n) => Ok(LayoutModel::Custom(n)),
    }
}

/// The loose layouts of tuple items, in order; the first failure otherwise.
pub open spec fn items_layout(s: Seq<TypeModel>) -> Result<Seq<LayoutModel>, TypeIssue>
    decreases s,
{
    if s.len() == 0 {
        Ok(Seq::empty())
    } else {
        match items_layout(s.subrange(0, s.len() - 1)) {
            Err(e) => Err(e),
            Ok(a) => match layout_of(s[s.len() - 1]) {
                Err(e) => Err(e),
                Ok(b) => Ok(a.push(b)),
            },
        }
    }
}

/// The primitive widths as packed slots.
pub open spec fn width_slots(w: Seq<u8>) -> Seq<PackedSlotModel> {
    w.map_values(|x: u8| PackedSlotModel::Width(x))
}

/// The packed layout of a type: its flat sequence of slots.
pub open spec fn packed_of(t: TypeModel) -> Result<Seq<PackedSlotModel>, TypeIssue>
    decreases t,
{
    match t {
        TypeModel::Primitive(n) => if n == usize_name() {
            Err(TypeIssue::ArchitectureDependent)
        } else {
            match primitive_widths(n) {
                Some(w) => Ok(width_slots(w)),
                None => Ok(seq![PackedSlotModel::Custom(n)]),
            }
        },
        TypeModel::Tuple(items) => items_packed(items),
        TypeModel::Optional(inner) => if *inner is Tuple {
            Err(TypeIssue::OptionOfTuple)
        } else {
            Err(TypeIssue::Dynamic)
        },
        TypeModel::Custom(n) => Ok(seq![PackedSlotModel::Custom(n)]),
        _ => Err(TypeIssue::Dynamic),
    }
}

/// The concatenated packed layouts of a sequence of types; the first failure
/// otherwise.
pub open spec fn items_packed(s: Seq<TypeModel>) -> Result<Seq<PackedSlotModel>, TypeIssue>
    decreases s,
{
    if s.len() == 0 {
        Ok(Seq::empty())
    } else {
        match items_packed(s.subrange(0, s.len() - 1)) {
            Err(e) => Err(e),
            Ok(a) => match packed_of(s[s.len() - 1]) {
                Err(e) => Err(e),
                Ok(b) => Ok(a + b),
            },
        }
    }
}

/// The view of a layout result.
pub open spec fn layout_result_view(r: Result<Layout, TypeIssue>) -> Result<
    LayoutModel,
    TypeIssue,
> {
    match r {
        Ok(l) => Ok(l@),
        Err(e) => Err(e),
    }
}

/// The view of a packed layout result.
pub open spec fn packed_result_view(r: Result<Vec<PackedSlot>, TypeIssue>) -> Result<
    Seq<PackedSlotModel>,
    TypeIssue,
> {
    match r {
        Ok(v) => Ok(slot_views(v@)),
        Err(e) => Err(e),
    }
}

fn is_usize_name(n: &str) -> (r: bool)
    ensures
        r == (n@ == usize_name()),
{
    let cs = chars_of(n);
    let w: Vec<char> = vec!['u', 's', 'i', 'z', 'e'];
    if cs.len() != w.len() {
        return false;
    }
    let mut k: usize = 0;
    while k < w.len()
        invariant
            cs@ == n@,
            w@ == usize_name(),
            cs@.len() == w@.len(),
            k <= w@.len(),
            forall|j: int| 0 <= j < k ==> cs@[j] == w@[j],
        decreases w.len() - k,
    {
        if cs[k] != w[k] {
            return false;
        }
        k = k + 1;
    }
    assert(cs@ =~= w@);
    true
}

/// Whether a packed slot stands for a layout resolved elsewhere.
pub fn is_custom_layout(slot: &PackedSlot) -> (r: bool)
    ensures
        r == (slot@ is Custom),
{
    match slot {
        PackedSlot::Custom(_) => true,
        PackedSlot::Width(_) => false,
    }
}

/// The loose layout of an array of the given item type.
pub fn build_array_layout_from_type(item: &TypeExpr) -> (r: Result<Layout, TypeIssue>)
    ensures
        layout_result_view(r) == layout_of(TypeModel::Array(Box::new(item@))),
    decreases item, 1usize,
{
    match build_item_layout_from_type(item) {
        Ok(l) => Ok(Layout::Array(Box::new(l))),
        Err(e) => Err(e),
    }
}

/// The loose layout of a tuple of the given item types.
pub fn build_tuple_layout_from_type(items: &Vec<TypeExpr>) -> (r: Result<Layout, TypeIssue>)
    ensures
        layout_result_view(r) == layout_of(TypeModel::Tuple(views_of(items@))),
    decreases items, 1usize,
{
    let ghost m = views_of(items@);
    let mut ls: Vec<Layout> = Vec::new();
    let mut failed: Option<TypeIssue> = None;
    let mut i: usize = 0;
    assert(layout_views(ls@) =~= Seq::<LayoutModel>::empty());
    while i < items.len()
        invariant
            i <= items@.len(),
            m == views_of(items@),
            failed is Some ==> items_layout(m.subrange(0, i as int)) == Err::<
                Seq<LayoutModel>,
                TypeIssue,
            >(failed->0),
            failed is None ==> items_layout(m.subrange(0, i as int)) == Ok::<
                Seq<LayoutModel>,
                TypeIssue,
            >(layout_views(ls@)),
        decreases items.len() - i,
    {
        assert(m.subrange(0, i + 1).subrange(0, i as int) =~= m.subrange(0, i as int));
        assert(m.subrange(0, i + 1)[i as int] == items@[i as int]@);
        if failed.is_none() {
            proof {
                vstd::std_specs::vec::axiom_vec_index_decreases(*items, i as int);
            }
            match build_item_layout_from_type(&items[i]) {
                Ok(l) => {
                    let ghost before = layout_views(ls@);
                    let ghost lv = l@;
                    ls.push(l);
                    assert(layout_views(ls@) =~= before.push(lv));
                },
                Err(e) => {
                    failed = Some(e);
                },
            }
        }
        i = i + 1;
    }
    assert(m.subrange(0, items@.len() as int) =~= m);
    match failed {
        Some(e) => Err(e),
        None => {
            let r = Layout::Tuple(ls);
            assert(r@->Tuple_0 =~= layout_views(ls@));
            Ok(r)
        },
    }
}

/// The loose layout of a type: fixed slots for a primitive, a tuple of item
/// layouts, an array of the item layout, a byte string, an option as a
/// two-variant enum, and a reference to the layout of a custom type.
pub fn build_item_layout_from_type(t: &TypeExpr) -> (r: Result<Layout, TypeIssue>)
    ensures
        layout_result_view(r) == layout_of(t@),
    decreases t, 0usize,
{
    match t {
        TypeExpr::Primitive(n) => match primitive_widths_of(n.as_str()) {
            Some(w) => Ok(Layout::Fixed(w)),
            None => Ok(Layout::Custom(n.clone())),
        },
        TypeExpr::Tuple(items) => {
            assert(t@->Tuple_0 =~= views_of(items@));
            proof {
                assert(decreases_to!(*t => (*t)->Tuple_0));
            }
            build_tuple_layout_from_type(items)
        },
        TypeExpr::Array(inner) => {
            proof {
                assert(decreases_to!(*t => (*t)->Array_0));
            }
            build_array_layout_from_type(inner)
        },
        TypeExpr::ByteString => Ok(Layout::ByteString),
        TypeExpr::Optional(inner) => {
            match &**inner {
                TypeExpr::Tuple(_) => Err(TypeIssue::OptionOfTuple),
                _ => {
                    match build_item_layout_from_type(inner) {
                        Ok(l) => {
                            let ghost lv = l@;
                            let none: Vec<u8> = Vec::new();
                            assert(none@ =~= Seq::<u8>::empty());
                            let parts = vec![l, Layout::Fixed(none)];
                            assert(parts@[0]@ == lv);
                            assert(parts@[1]@ == LayoutModel::Fixed(Seq::empty()));
                            let r = Layout::Enum(parts);
                            assert(r@->Enum_0 =~= seq![lv, LayoutModel::Fixed(Seq::empty())]);
                            Ok(r)
                        },
                        Err(e) => Err(e),
                    }
                },
            }
        },
        TypeExpr::Custom(n) => Ok(Layout::Custom(n.clone())),
    }
}

/// The primitive widths as packed slots.
fn width_slots_of(w: &Vec<u8>) -> (r: Vec<PackedSlot>)
    ensures
        slot_views(r@) == width_slots(w@),
{
    let mut r: Vec<PackedSlot> = Vec::new();
    let mut i: usize = 0;
    while i < w.len()
        invariant
            i <= w@.len(),
            slot_views(r@) == width_slots(w@.subrange(0, i as int)),
        decreases w.len() - i,
    {
        let ghost before = slot_views(r@);
        r.push(PackedSlot::Width(w[i]));
        assert(slot_views(r@) =~= before.push(PackedSlotModel::Width(w@[i as int])));
        assert(width_slots(w@.subrange(0, i + 1)) =~= width_slots(w@.subrange(0, i as int)).push(
            PackedSlotModel::Width(w@[i as int]),
        ));
        i = i + 1;
    }
    assert(w@.subrange(0, w@.len() as int) =~= w@);
    r
}

/// The packed layout of a tuple of the given item types: the items' packed
/// layouts concatenated in order.
pub fn get_packed_tuple_layout_from_type(items: &Vec<TypeExpr>) -> (r: Result<
    Vec<PackedSlot>,
    TypeIssue,
>)
    ensures
        packed_result_view(r) == items_packed(views_of(items@)),
    decreases items, 1usize,
{
    let ghost m = views_of(items@);
    let mut slots: Vec<PackedSlot> = Vec::new();
    let mut failed: Option<TypeIssue> = None;
    let mut i: usize = 0;
    assert(slot_views(slots@) =~= Seq::<PackedSlotModel>::empty());
    while i < items.len()
        invariant
            i <= items@.len(),
            m == views_of(items@),
            failed is Some ==> items_packed(m.subrange(0, i as int)) == Err::<
                Seq<PackedSlotModel>,
                TypeIssue,
            >(failed->0),
            failed is None ==> items_packed(m.subrange(0, i as int)) == Ok::<
                Seq<PackedSlotModel>,
                TypeIssue,
            >(slot_views(slots@)),
        decreases items.len() - i,
    {
        assert(m.subrange(0, i + 1).subrange(0, i as int) =~= m.subrange(0, i as int));
        assert(m.subrange(0, i + 1)[i as int] == items@[i as int]@);
        if failed.is_none() {
            proof {
                vstd::std_specs::vec::axiom_vec_index_decreases(*items, i as int);
            }
            match get_packed_item_layout_from_type(&items[i]) {
                Ok(part) => {
                    let ghost before = slot_views(slots@);
                    let ghost pv = slot_views(part@);
                    let mut part = part;
                    slots.append(&mut part);
                    assert(slot_views(slots@) =~= before + pv);
                },
                Err(e) => {
                    failed = Some(e);
                },
            }
        }
        i = i + 1;
    }
    assert(m.subrange(0, items@.len() as int) =~= m);
    match failed {
        Some(e) => Err(e),
        None => Ok(slots),
    }
}

/// The packed layout of a type: the widths of a primitive, the concatenated
/// slots of a tuple, or a reference to a custom type's own packed layout.
/// Dynamically sized parts, `usize` and options of tuples have none.
pub fn get_packed_item_layout_from_type(t: &TypeExpr) -> (r: Result<Vec<PackedSlot>, TypeIssue>)
    ensures
        packed_result_view(r) == packed_of(t@),
    decreases t, 0usize,
{
    match t {
        TypeExpr::Primitive(n) => {
            if is_usize_name(n.as_str()) {
                Err(TypeIssue::ArchitectureDependent)
            } else {
                match primitive_widths_of(n.as_str()) {
                    Some(w) => Ok(width_slots_of(&w)),
                    None => {
                        let r = vec![PackedSlot::Custom(n.clone())];
                        assert(slot_views(r@) =~= seq![PackedSlotModel::Custom(n@)]);
                        Ok(r)
                    },
                }
            }
        },
        TypeExpr::Tuple(items) => {
            assert(t@->Tuple_0 =~= views_of(items@));
            proof {
                assert(decreases_to!(*t => (*t)->Tuple_0));
            }
            get_packed_tuple_layout_from_type(items)
        },
        TypeExpr::Optional(inner) => {
            let is_tuple = match &**inner {
                TypeExpr::Tuple(_) => true,
                _ => false,
            };
            assert(t@ == TypeModel::Optional(Box::new((**inner)@)));
            assert(is_tuple == ((**inner)@ is Tuple));
            if is_tuple {
                Err(TypeIssue::OptionOfTuple)
            } else {
                Err(TypeIssue::Dynamic)
            }
        },
        TypeExpr::Custom(n) => {
            let r = vec![PackedSlot::Custom(n.clone())];
            assert(slot_views(r@) =~= seq![PackedSlotModel::Custom(n@)]);
            Ok(r)
        },
        _ => Err(TypeIssue::Dynamic),
    }
}

/// The widths known for a custom type: those of its first entry in `table`.
pub open spec fn resolve(name: Seq<char>, table: Seq<(Seq<char>, Seq<u8>)>) -> Option<Seq<u8>>
    decreases table.len(),
{
    if table.len() == 0 {
        None
    } else if table[0].0 == name {
        Some(table[0].1)
    } else {
        resolve(name, table.subrange(1, table.len() as int))
    }
}

/// The widths of one packed slot.
pub open spec fn slot_widths(slot: PackedSlotModel, table: Seq<(Seq<char>, Seq<u8>)>) -> Option<
    Seq<u8>,
> {
    match slot {
        PackedSlotModel::Width(w) => Some(seq![w]),
        PackedSlotModel::Custom(n) => resolve(n, table),
    }
}

/// A packed layout flattened into one sequence of widths, each custom slot
/// replaced by its type's widths; none when a custom type is unknown.
pub open spec fn flatten(slots: Seq<PackedSlotModel>, table: Seq<(Seq<char>, Seq<u8>)>) -> Option<
    Seq<u8>,
>
    decreases slots.len(),
{
    if slots.len() == 0 {
        Some(Seq::empty())
    } else {
        match (
            flatten(slots.subrange(0, slots.len() - 1), table),
            slot_widths(slots[slots.len() - 1], table),
        ) {
            (Some(a), Some(b)) => Some(a + b),
            _ => None,
        }
    }
}

fn names_equal(a: &String, b: &String) -> (r: bool)
    ensures
        r == (a@ == b@),
{
    *a == *b
}

fn resolve_name(name: &String, table: &Vec<ResolvedLayout>) -> (r: Option<Vec<u8>>)
    ensures
        match r {
            Some(w) => resolve(name@, resolved_views(table@)) == Some(w@),
            None => resolve(name@, resolved_views(table@)) is None,
        },
{
    let ghost t = resolved_views(table@);
    let mut i: usize = 0;
    assert(t.subrange(0, t.len() as int) =~= t);
    while i < table.len()
        invariant
            i <= table@.len(),
            t == resolved_views(table@),
            resolve(name@, t.subrange(i as int, t.len() as int)) == resolve(name@, t),
        decreases table.len() - i,
    {
        let ghost rest = t.subrange(i as int, t.len() as int);
        assert(rest[0] == table@[i as int]@);
        assert(rest.subrange(1, rest.len() as int) =~= t.subrange(i + 1, t.len() as int));
        if names_equal(&table[i].name, name) {
            return Some(table[i].widths.clone());
        }
        i = i + 1;
    }
    None
}

/// Merges a packed layout into one sequence of widths, replacing each custom
/// slot by the widths that `resolved` gives its type; `None` when a custom
/// type has no entry there.
pub fn merge_packed_layout(slots: &Vec<PackedSlot>, resolved: &Vec<ResolvedLayout>) -> (r: Option<
    Vec<u8>,
>)
    ensures
        match r {
            Some(w) => flatten(slot_views(slots@), resolved_views(resolved@)) == Some(w@),
            None => flatten(slot_views(slots@), resolved_views(resolved@)) is None,
        },
{
    let ghost ss = slot_views(slots@);
    let ghost t = resolved_views(resolved@);
    let mut out: Vec<u8> = Vec::new();
    let mut i: usize = 0;
    assert(out@ =~= Seq::<u8>::empty());
    while i < slots.len()
        invariant
            i <= slots@.len(),
            ss == slot_views(slots@),
            t == resolved_views(resolved@),
            flatten(ss.subrange(0, i as int), t) == Some(out@),
        decreases slots.len() - i,
    {
        assert(ss.subrange(0, i + 1).subrange(0, i as int) =~= ss.subrange(0, i as int));
        assert(ss.subrange(0, i + 1)[i as int] == slots@[i as int]@);
        let ghost before = out@;
        match &slots[i] {
            PackedSlot::Width(w) => {
                out.push(*w);
                assert(out@ =~= before + seq![*w]);
            },
            PackedSlot::Custom(n) => match resolve_name(n, resolved) {
                Some(ws) => {
                    let mut ws = ws;
                    let ghost wv = ws@;
                    out.append(&mut ws);
                    assert(out@ =~= before + wv);
                },
                None => {
                    proof {
                        lemma_flatten_none_stays(ss, t, i as int + 1);
                    }
                    return None;
                },
            },
        }
        i = i + 1;
    }
    assert(ss.subrange(0, slots@.len() as int) =~= ss);
    Some(out)
}

/// A prefix that cannot be flattened leaves the whole layout unflattened.
proof fn lemma_flatten_none_stays(ss: Seq<PackedSlotModel>, t: Seq<(Seq<char>, Seq<u8>)>, n: int)
    requires
        0 <= n <= ss.len(),
        flatten(ss.subrange(0, n), t) is None,
    ensures
        flatten(ss, t) is None,
    decreases ss.len() - n,
{
    if n == ss.len() {
        assert(ss.subrange(0, n) =~= ss);
    } else {
        assert(ss.subrange(0, n + 1).subrange(0, n) =~= ss.subrange(0, n));
        lemma_flatten_none_stays(ss, t, n + 1);
    }
}

} // verus!
