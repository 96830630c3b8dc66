use vstd::prelude::*;

use crate::layout::{
    build_item_layout_from_type, get_packed_item_layout_from_type, layout_of, packed_of,
};
use crate::size::{size_of, size_of_type};
use crate::types::{
    layout_views, size_value, slot_views, Layout, LayoutModel, PackedSlot, PackedSlotModel, Size,
    TypeExpr, TypeIssue, TypeModel,
};

verus! {

/// The view of an optional type expression.
pub open spec fn opt_view(v: Option<TypeExpr>) -> Option<TypeModel> {
    match v {
        Some(t) => Some(t@),
        None => None,
    }
}

/// The views of the variants' data types (`None` for a variant without data).
pub open spec fn variant_views(vs: Seq<Option<TypeExpr>>) -> Seq<Option<TypeModel>> {
    Seq::new(vs.len(), |i: int| opt_view(vs[i]))
}

/// The packed slots of a variant's data; none for a variant without data.
pub open spec fn variant_packed(v: Option<TypeModel>) -> Result<Seq<PackedSlotModel>, TypeIssue> {
    match v {
        Some(t) => packed_of(t),
        None => Ok(Seq::empty()),
    }
}

/// The size of a variant's data.
pub open spec fn variant_size(v: Option<TypeModel>) -> Option<nat> {
    match v {
        Some(t) => size_of(t),
        None => Some(0),
    }
}

/// The loose layout of a variant's data: the empty fixed layout when it has none.
pub open spec fn variant_layout(v: Option<TypeModel>) -> Result<LayoutModel, TypeIssue> {
    match v {
        Some(t) => layout_of(t),
        None => Ok(LayoutModel::Fixed(Seq::empty())),
    }
}

/// Variant `i` packs to the same slots as the first variant.
pub open spec fn packs_like_first(vs: Seq<Option<TypeModel>>, i: int) -> bool {
    variant_packed(vs[i]) is Ok && variant_packed(vs[i]) == variant_packed(vs[0])
}

/// An enum can be packed when all its variants pack to the same slots.
pub open spec fn enum_packable(vs: Seq<Option<TypeModel>>) -> bool {
    forall|i: int| 0 <= i < vs.len() ==> #[trigger] packs_like_first(vs, i)
}

/// The slots shared by all variants of a packable enum.
pub open spec fn shared_slots(vs: Seq<Option<TypeModel>>) -> Seq<PackedSlotModel> {
    if vs.len() == 0 {
        Seq::empty()
    } else {
        variant_packed(vs[0])->Ok_0
    }
}

/// The packed layout of an enum: an 8-bit discriminant slot, then the slots
/// that every variant shares.
pub open spec fn packed_enum_slots(vs: Seq<Option<TypeModel>>) -> Seq<PackedSlotModel> {
    seq![PackedSlotModel::Width(8)] + shared_slots(vs)
}

/// The size of an enum: known only when its variants are uniform and of
/// known size, with one more slot for the discriminant.
pub open spec fn enum_size(vs: Seq<Option<TypeModel>>) -> Option<nat> {
    if vs.len() > 0 && enum_packable(vs) && variant_size(vs[0]) is Some {
        Some(variant_size(vs[0])->0 + 1)
    } else {
        None
    }
}

/// The loose layouts of the variants, in order; otherwise the index and the
/// issue of the first variant without one.
pub open spec fn variants_layout(vs: Seq<Option<TypeModel>>) -> Result<
    Seq<LayoutModel>,
    (int, TypeIssue),
>
    decreases vs.len(),
{
    if vs.len() == 0 {
        Ok(Seq::empty())
    } else {
        match variants_layout(vs.subrange(0, vs.len() - 1)) {
            Err(e) => Err(e),
            Ok(a) => match variant_layout(vs[vs.len() - 1]) {
                Err(e) => Err((vs.len() - 1, e)),
                Ok(b) => Ok(a.push(b)),
            },
        }
    }
}

fn slot_eq(a: &PackedSlot, b: &PackedSlot) -> (r: bool)
    ensures
        r == (a@ == b@),
{
    match (a, b) {
        (PackedSlot::Width(x), PackedSlot::Width(y)) => *x == *y,
        (PackedSlot::Custom(x), PackedSlot::Custom(y)) => {
            let r = *x == *y;
            r
        },
        _ => false,
    }
}

fn slots_eq(a: &Vec<PackedSlot>, b: &Vec<PackedSlot>) -> (r: bool)
    ensures
        r == (slot_views(a@) == slot_views(b@)),
{
    if a.len() != b.len() {
        assert(slot_views(a@).len() != slot_views(b@).len());
        return false;
    }
    let mut i: usize = 0;
    while i < a.len()
        invariant
            a@.len() == b@.len(),
            i <= a@.len(),
            forall|k: int| 0 <= k < i ==> a@[k]@ == b@[k]@,
        decreases a.len() - i,
    {
        if !slot_eq(&a[i], &b[i]) {
            assert(slot_views(a@)[i as int] != slot_views(b@)[i as int]);
            return false;
        }
        i = i + 1;
    }
    assert(slot_views(a@) =~= slot_views(b@));
    true
}

fn variant_packed_of(v: &Option<TypeExpr>) -> (r: Result<Vec<PackedSlot>, TypeIssue>)
    ensures
        crate::layout::packed_result_view(r) == variant_packed(opt_view(*v)),
{
    match v {
        Some(t) => get_packed_item_layout_from_type(t),
        None => {
            let r: Vec<PackedSlot> = Vec::new();
            assert(slot_views(r@) =~= Seq::<PackedSlotModel>::empty());
            Ok(r)
        },
    }
}

/// Packs the variants one by one: the slots they all share, or the index of
/// the first variant that does not pack like the first one.
pub fn enum_packing(variants: &Vec<Option<TypeExpr>>) -> (r: Result<Vec<PackedSlot>, usize>)
    ensures
        match r {
            Ok(s) => enum_packable(variant_views(variants@)) && slot_views(s@) == shared_slots(
                variant_views(variants@),
            ),
            Err(i) => i < variants@.len() && !packs_like_first(variant_views(variants@), i as int)
                && forall|k: int|
                0 <= k < i ==> #[trigger] packs_like_first(variant_views(variants@), k),
        },
{
    let ghost vs = variant_views(variants@);
    if variants.len() == 0 {
        let r: Vec<PackedSlot> = Vec::new();
        assert(slot_views(r@) =~= Seq::<PackedSlotModel>::empty());
        return Ok(r);
    }
    let first = match variant_packed_of(&variants[0]) {
        Ok(s) => s,
        Err(_) => {
            return Err(0);
        },
    };
    let mut i: usize = 1;
    assert(packs_like_first(vs, 0));
    while i < variants.len()
        invariant
            1 <= i <= variants@.len(),
            vs == variant_views(variants@),
            variant_packed(vs[0]) == Ok::<Seq<PackedSlotModel>, TypeIssue>(slot_views(first@)),
            forall|k: int| 0 <= k < i ==> #[trigger] packs_like_first(vs, k),
        decreases variants.len() - i,
    {
        match variant_packed_of(&variants[i]) {
            Ok(s) => {
                if !slots_eq(&s, &first) {
                    return Err(i);
                }
            },
            Err(_) => {
                return Err(i);
            },
        }
        i = i + 1;
    }
    Ok(first)
}

/// Whether every variant packs to the same slots.
pub fn is_enum_packable(variants: &Vec<Option<TypeExpr>>) -> (r: bool)
    ensures
        r == enum_packable(variant_views(variants@)),
{
    match enum_packing(variants) {
        Ok(_) => true,
        Err(_) => false,
    }
}

/// The packed layout of an enum, or the index of the first variant that
/// does not pack like the first one.
pub fn build_packed_enum_layout(variants: &Vec<Option<TypeExpr>>) -> (r: Result<
    Vec<PackedSlot>,
    usize,
>)
    ensures
        match r {
            Ok(s) => enum_packable(variant_views(variants@)) && slot_views(s@) == packed_enum_slots(
                variant_views(variants@),
            ),
            Err(i) => i < variants@.len() && !packs_like_first(variant_views(variants@), i as int)
                && forall|k: int|
                0 <= k < i ==> #[trigger] packs_like_first(variant_views(variants@), k),
        },
{
    match enum_packing(variants) {
        Ok(shared) => {
            let mut r = vec![PackedSlot::Width(8)];
            let ghost head = slot_views(r@);
            assert(head =~= seq![PackedSlotModel::Width(8)]);
            let ghost tail = slot_views(shared@);
            let mut shared = shared;
            r.append(&mut shared);
            assert(slot_views(r@) =~= head + tail);
            Ok(r)
        },
        Err(i) => Err(i),
    }
}

/// The size of an enum: one slot for the discriminant plus the size of the
/// variants' data, when all variants pack alike and that size is known.
pub fn compute_enum_layout_size(variants: &Vec<Option<TypeExpr>>) -> (r: Size)
    ensures
        r == size_value(enum_size(variant_views(variants@))),
{
    if variants.len() == 0 || !is_enum_packable(variants) {
        return Size::Unknown;
    }
    let s = match &variants[0] {
        Some(t) => size_of_type(t),
        None => Size::Known(0),
    };
    match s {
        Size::Known(k) => {
            if k < u64::MAX {
                Size::Known(k + 1)
            } else {
                Size::Unknown
            }
        },
        Size::Unknown => Size::Unknown,
    }
}

/// The loose layout of an enum: one entry per variant, in order.
pub fn build_variant_layouts(variants: &Vec<Option<TypeExpr>>) -> (r: Result<
    Layout,
    (usize, TypeIssue),
>)
    ensures
        match r {
            Ok(l) => variants_layout(variant_views(variants@)) matches Ok(ls) && l@
                == LayoutModel::Enum(ls),
            Err((i, e)) => variants_layout(variant_views(variants@)) == Err::<
                Seq<LayoutModel>,
                (int, TypeIssue),
            >((i as int, e)),
        },
{
    let ghost vs = variant_views(variants@);
    let mut ls: Vec<Layout> = Vec::new();
    let mut i: usize = 0;
    assert(layout_views(ls@) =~= Seq::<LayoutModel>::empty());
    while i < variants.len()
        invariant
            i <= variants@.len(),
            vs == variant_views(variants@),
            variants_layout(vs.subrange(0, i as int)) == Ok::<
                Seq<LayoutModel>,
                (int, TypeIssue),
            >(layout_views(ls@)),
        decreases variants.len() - i,
    {
        assert(vs.subrange(0, i + 1).subrange(0, i as int) =~= vs.subrange(0, i as int));
        assert(vs.subrange(0, i + 1)[i as int] == opt_view(variants@[i as int]));
        let l = match &variants[i] {
            Some(t) => build_item_layout_from_type(t),
            None => {
                let none: Vec<u8> = Vec::new();
                assert(none@ =~= Seq::<u8>::empty());
                Ok(Layout::Fixed(none))
            },
        };
        match l {
            Ok(l) => {
                let ghost before = layout_views(ls@);
                let ghost lv = l@;
                ls.push(l);
                assert(layout_views(ls@) =~= before.push(lv));
            },
            Err(e) => {
                proof {
                    lemma_variants_layout_err_stays(vs, i as int + 1, (i as int, e));
                }
                assert(vs.subrange(0, vs.len() as int) =~= vs);
                return Err((i, e));
            },
        }
        i = i + 1;
    }
    assert(vs.subrange(0, vs.len() as int) =~= vs);
    let r = Layout::Enum(ls);
    assert(r@->Enum_0 =~= layout_views(ls@));
    Ok(r)
}

/// A failure among the first `n` variants is the failure of all of them.
proof fn lemma_variants_layout_err_stays(vs: Seq<Option<TypeModel>>, n: int, e: (int, TypeIssue))
    requires
        0 <= n <= vs.len(),
        variants_layout(vs.subrange(0, n)) == Err::<Seq<LayoutModel>, (int, TypeIssue)>(e),
    ensures
        variants_layout(vs) == Err::<Seq<LayoutModel>, (int, TypeIssue)>(e),
    decreases vs.len() - n,
{
    if n == vs.len() {
        assert(vs.subrange(0, n) =~= vs);
    } else {
        assert(vs.subrange(0, n + 1).subrange(0, n) =~= vs.subrange(0, n));
        lemma_variants_layout_err_stays(vs, n + 1, e);
    }
}

} // verus!
