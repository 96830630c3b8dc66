use vstd::prelude::*;

use crate::checker::{
    member_diagnostics, members_diagnostics, mentions_usize, valid_name, validation_diagnostics,
    value_before,
};
use crate::enums::{enum_packable, packs_like_first};
use crate::introspect::{
    enum_derivation, first_unpackable_from, struct_derivation, variant_types, VariantModel,
};
use crate::classify::classify;
use crate::hash::{bytearray_hash_of, fingerprint_input, member_hash, packed_flag};
use crate::introspect::{member_size, value_entries, value_size, value_slots, DerivedLayoutModel};
use crate::layout::{flatten, items_layout, items_packed, layout_of, packed_of};
use crate::members::members_with;
use crate::size::{items_size, size_of};
use crate::types::{size_value, Diagnostic, LayoutModel, MemberModel, Size, TypeModel};

verus! {

broadcast use {vstd::seq::axiom_seq_index_decreases, vstd::seq::axiom_seq_subrange_decreases};

/// The number of fixed slots of a layout: the widths of a fixed layout, and
/// the slots of the items of a tuple or of the fields of a struct.
pub open spec fn slot_count(l: LayoutModel) -> nat
    decreases l,
{
    match l {
        LayoutModel::Fixed(w) => w.len(),
        LayoutModel::Tuple(items) => items_slot_count(items),
        LayoutModel::Struct(es) => entries_slot_count(es),
        _ => 0,
    }
}

pub open spec fn items_slot_count(s: Seq<LayoutModel>) -> nat
    decreases s,
{
    if s.len() == 0 {
        0
    } else {
        items_slot_count(s.subrange(0, s.len() - 1)) + slot_count(s[s.len() - 1])
    }
}

pub open spec fn entries_slot_count(es: Seq<(Seq<u8>, LayoutModel)>) -> nat
    decreases es,
{
    if es.len() == 0 {
        0
    } else {
        entries_slot_count(es.subrange(0, es.len() - 1)) + slot_count(es[es.len() - 1].1)
    }
}

/// The types of the value members, in declared order.
pub open spec fn value_types(ms: Seq<MemberModel>) -> Seq<TypeModel> {
    members_with(ms, false).map_values(|m: MemberModel| classify(m.ty))
}

proof fn lemma_member_diagnostics_kept(ms: Seq<MemberModel>, i: int, n: int, d: Diagnostic)
    requires
        0 <= i < n,
        member_diagnostics(ms, i).contains(d),
    ensures
        members_diagnostics(ms, n).contains(d),
    decreases n,
{
    let prev = members_diagnostics(ms, n - 1);
    let cur = member_diagnostics(ms, n - 1);
    if i == n - 1 {
        let k = choose|k: int| 0 <= k < cur.len() && cur[k] == d;
        assert((prev + cur)[prev.len() + k] == d);
    } else {
        lemma_member_diagnostics_kept(ms, i, n - 1, d);
        let k = choose|k: int| 0 <= k < prev.len() && prev[k] == d;
        assert((prev + cur)[k] == d);
    }
}

/// Validation does not stop at the first problem: every key member that
/// follows a value member gets an ordering error, every key member whose
/// type names `usize` gets an unsupported-type error, and a bad name is
/// reported, all in the same list.
pub proof fn lemma_validation_collects_all(name: Seq<char>, ms: Seq<MemberModel>, needs: bool)
    ensures
        forall|i: int|
            0 <= i < ms.len() && ms[i].key && value_before(ms, i) ==> validation_diagnostics(
                name,
                ms,
                needs,
            ).contains(Diagnostic::OrderingError { index: i as usize }),
        forall|i: int|
            0 <= i < ms.len() && ms[i].key && mentions_usize(ms[i].ty) ==> validation_diagnostics(
                name,
                ms,
                needs,
            ).contains(Diagnostic::UnsupportedTypeError { index: i as usize }),
        !valid_name(name) ==> validation_diagnostics(name, ms, needs).contains(
            Diagnostic::NameError,
        ),
{
    let v = validation_diagnostics(name, ms, needs);
    let head = if valid_name(name) {
        Seq::<Diagnostic>::empty()
    } else {
        seq![Diagnostic::NameError]
    };
    let body = members_diagnostics(ms, ms.len() as int);
    let tail1 = if needs && !(exists|i: int| 0 <= i < ms.len() && (#[trigger] ms[i]).key) {
        seq![Diagnostic::EmptyKeysError]
    } else {
        Seq::empty()
    };
    let tail2 = if needs && !(exists|i: int| 0 <= i < ms.len() && !(#[trigger] ms[i]).key) {
        seq![Diagnostic::EmptyValuesError]
    } else {
        Seq::empty()
    };
    assert(v == head + body + tail1 + tail2);
    assert forall|i: int|
        0 <= i < ms.len() && ms[i].key && value_before(ms, i) implies v.contains(
        Diagnostic::OrderingError { index: i as usize },
    ) by {
        let d = Diagnostic::OrderingError { index: i as usize };
        assert(member_diagnostics(ms, i)[0] == d);
        lemma_member_diagnostics_kept(ms, i, ms.len() as int, d);
        let k = choose|k: int| 0 <= k < body.len() && body[k] == d;
        assert((head + body + tail1 + tail2)[head.len() + k] == d);
    }
    assert forall|i: int|
        0 <= i < ms.len() && ms[i].key && mentions_usize(ms[i].ty) implies v.contains(
        Diagnostic::UnsupportedTypeError { index: i as usize },
    ) by {
        let d = Diagnostic::UnsupportedTypeError { index: i as usize };
        let md = member_diagnostics(ms, i);
        assert(md[md.len() - 1] == d);
        lemma_member_diagnostics_kept(ms, i, ms.len() as int, d);
        let k = choose|k: int| 0 <= k < body.len() && body[k] == d;
        assert((head + body + tail1 + tail2)[head.len() + k] == d);
    }
    if !valid_name(name) {
        assert((head + body + tail1 + tail2)[0] == Diagnostic::NameError);
    }
}

/// A record with a key member after a value member gets an ordering error,
/// and its derivation still reports every validation problem, whether or
/// not a descriptor comes out.
pub proof fn lemma_ordering_error_reported(
    name: Seq<char>,
    ms: Seq<MemberModel>,
    is_packed: bool,
    needs: bool,
    i: int,
)
    requires
        0 <= i < ms.len(),
        ms[i].key,
        value_before(ms, i),
    ensures
        struct_derivation(name, ms, is_packed, needs).diagnostics.contains(
            Diagnostic::OrderingError { index: i as usize },
        ),
        forall|d: Diagnostic|
            validation_diagnostics(name, ms, needs).contains(d) ==> struct_derivation(
                name,
                ms,
                is_packed,
                needs,
            ).diagnostics.contains(d),
{
    lemma_validation_collects_all(name, ms, needs);
    let v = validation_diagnostics(name, ms, needs);
    assert forall|d: Diagnostic| v.contains(d) implies struct_derivation(
        name,
        ms,
        is_packed,
        needs,
    ).diagnostics.contains(d) by {
        let k = choose|k: int| 0 <= k < v.len() && v[k] == d;
        let r = struct_derivation(name, ms, is_packed, needs).diagnostics;
        assert(r == v || (r.len() == v.len() + 1 && r.subrange(0, v.len() as int) == v));
        if r != v {
            assert(r.subrange(0, v.len() as int)[k] == d);
            assert(r[k] == d);
        }
    }
}

proof fn lemma_first_unpackable_found(vts: Seq<Option<TypeModel>>, k: int)
    requires
        0 <= k <= vts.len(),
        exists|i: int| k <= i < vts.len() && !#[trigger] packs_like_first(vts, i),
    ensures
        k <= first_unpackable_from(vts, k) < vts.len(),
        !packs_like_first(vts, first_unpackable_from(vts, k)),
    decreases vts.len() - k,
{
    if packs_like_first(vts, k) {
        lemma_first_unpackable_found(vts, k + 1);
    }
}

/// An enum is packed exactly when all its variants pack to the same slots;
/// otherwise the derivation fails with a packing error that names a variant
/// that packs differently from the first.
pub proof fn lemma_enum_packing_legal(name: Seq<char>, vs: Seq<VariantModel>)
    requires
        vs.len() <= usize::MAX,
    ensures
        enum_derivation(name, vs, true).descriptor is Some <==> enum_packable(variant_types(vs)),
        !enum_packable(variant_types(vs)) ==> ({
            let ds = enum_derivation(name, vs, true).diagnostics;
            let i = ds[ds.len() - 1]->PackingError_index;
            &&& ds[ds.len() - 1] is PackingError
            &&& i < vs.len()
            &&& !packs_like_first(variant_types(vs), i as int)
        }),
{
    let vts = variant_types(vs);
    if !enum_packable(vts) {
        lemma_first_unpackable_found(vts, 0);
    }
}

/// A type of known size has a loose layout with exactly that many fixed slots.
pub proof fn lemma_type_size_is_slot_count(t: TypeModel)
    requires
        size_of(t) is Some,
    ensures
        layout_of(t) is Ok,
        slot_count(layout_of(t)->Ok_0) == size_of(t)->0,
    decreases t,
{
    match t {
        TypeModel::Tuple(items) => {
            lemma_items_size_is_slot_count(items);
        },
        _ => {},
    }
}

/// Tuple items of known total size have loose layouts with exactly that many
/// fixed slots.
pub proof fn lemma_items_size_is_slot_count(s: Seq<TypeModel>)
    requires
        items_size(s) is Some,
    ensures
        items_layout(s) is Ok,
        items_slot_count(items_layout(s)->Ok_0) == items_size(s)->0,
    decreases s,
{
    if s.len() > 0 {
        let p = s.subrange(0, s.len() - 1);
        lemma_items_size_is_slot_count(p);
        lemma_type_size_is_slot_count(s[s.len() - 1]);
        let ls = items_layout(s)->Ok_0;
        assert(ls.subrange(0, ls.len() - 1) =~= items_layout(p)->Ok_0);
    }
}

/// The size of the first `n` members is known exactly when the size of each
/// value member among them is.
pub proof fn lemma_value_size_known_iff(ms: Seq<MemberModel>, n: int)
    requires
        0 <= n <= ms.len(),
    ensures
        value_size(ms, n) is Some <==> (forall|i: int|
            0 <= i < n && !ms[i].key ==> (#[trigger] size_of(classify(ms[i].ty))) is Some),
    decreases n,
{
    if n > 0 {
        lemma_value_size_known_iff(ms, n - 1);
        if value_size(ms, n) is Some {
            assert forall|i: int|
                0 <= i < n && !ms[i].key implies (#[trigger] size_of(classify(ms[i].ty))) is Some by {
                if i == n - 1 {
                    assert(member_size(ms[i]) is Some);
                }
            }
        } else {
            if value_size(ms, n - 1) is Some {
                assert(!ms[n - 1].key && size_of(classify(ms[n - 1].ty)) is None);
            }
        }
    }
}

/// When the size of the first `n` members is known, their struct layout
/// entries hold exactly that many fixed slots.
pub proof fn lemma_value_size_is_slot_count(ms: Seq<MemberModel>, n: int)
    requires
        0 <= n <= ms.len(),
        value_size(ms, n) is Some,
        value_entries(ms, n) is Ok,
    ensures
        entries_slot_count(value_entries(ms, n)->Ok_0) == value_size(ms, n)->0,
    decreases n,
{
    if n > 0 {
        lemma_value_size_is_slot_count(ms, n - 1);
        if !ms[n - 1].key {
            lemma_type_size_is_slot_count(classify(ms[n - 1].ty));
            let es = value_entries(ms, n)->Ok_0;
            assert(es.subrange(0, es.len() - 1) =~= value_entries(ms, n - 1)->Ok_0);
        }
    }
}

/// A record's size is known exactly when every value member's type has a
/// known size; and when a loose derivation reports a known size, its struct
/// layout holds exactly that many fixed slots.
pub proof fn lemma_record_size(name: Seq<char>, ms: Seq<MemberModel>, needs: bool)
    ensures
        value_size(ms, ms.len() as int) is Some <==> (forall|i: int|
            0 <= i < ms.len() && !ms[i].key ==> (#[trigger] size_of(classify(ms[i].ty))) is Some),
        ({
            let r = struct_derivation(name, ms, false, needs);
            (r.descriptor is Some && r.descriptor->0.size is Known) ==> (
            r.descriptor->0.layout is Loose && slot_count(r.descriptor->0.layout->Loose_0)
                == r.descriptor->0.size->Known_0)
        }),
{
    lemma_value_size_known_iff(ms, ms.len() as int);
    let r = struct_derivation(name, ms, false, needs);
    if r.descriptor is Some && r.descriptor->0.size is Known {
        assert(value_size(ms, ms.len() as int) is Some);
        lemma_value_size_is_slot_count(ms, ms.len() as int);
        let es = value_entries(ms, ms.len() as int)->Ok_0;
        assert(slot_count(LayoutModel::Struct(es)) == entries_slot_count(es));
    }
}

/// Packing concatenates: the packed slots of two sequences of types, one
/// after the other, are the packed slots of the joined sequence.
pub proof fn lemma_items_packed_append(s1: Seq<TypeModel>, s2: Seq<TypeModel>)
    requires
        items_packed(s1) is Ok,
        items_packed(s2) is Ok,
    ensures
        items_packed(s1 + s2) == Ok::<Seq<crate::types::PackedSlotModel>, crate::types::TypeIssue>(
            items_packed(s1)->Ok_0 + items_packed(s2)->Ok_0,
        ),
    decreases s2.len(),
{
    if s2.len() == 0 {
        assert(s1 + s2 =~= s1);
        assert(items_packed(s2)->Ok_0 =~= Seq::empty());
        assert(items_packed(s1)->Ok_0 + items_packed(s2)->Ok_0 =~= items_packed(s1)->Ok_0);
    } else {
        let p2 = s2.subrange(0, s2.len() - 1);
        lemma_items_packed_append(s1, p2);
        let j = s1 + s2;
        assert(j.subrange(0, j.len() - 1) =~= s1 + p2);
        assert(j[j.len() - 1] == s2[s2.len() - 1]);
        let a = items_packed(s1)->Ok_0;
        let b = items_packed(p2)->Ok_0;
        let c = packed_of(s2[s2.len() - 1])->Ok_0;
        assert(a + b + c =~= a + (b + c));
    }
}

proof fn lemma_value_slots_prefix(ms: Seq<MemberModel>, n: int)
    requires
        0 <= n <= ms.len(),
        value_slots(ms, n) is Ok,
    ensures
        items_packed(value_types(ms.subrange(0, n))) == Ok::<
            Seq<crate::types::PackedSlotModel>,
            crate::types::TypeIssue,
        >(value_slots(ms, n)->Ok_0),
    decreases n,
{
    if n == 0 {
        assert(value_types(ms.subrange(0, 0)) =~= Seq::empty());
    } else {
        lemma_value_slots_prefix(ms, n - 1);
        let cur = ms.subrange(0, n);
        let prev = ms.subrange(0, n - 1);
        assert(cur.subrange(0, cur.len() - 1) =~= prev);
        let tc = value_types(cur);
        let tp = value_types(prev);
        if ms[n - 1].key {
            assert(members_with(cur, false) =~= members_with(prev, false));
            assert(tc =~= tp);
        } else {
            assert(members_with(cur, false) =~= members_with(prev, false).push(ms[n - 1]));
            assert(tc =~= tp.push(classify(ms[n - 1].ty)));
            assert(tc.subrange(0, tc.len() - 1) =~= tp);
        }
    }
}

/// The packed layout of a record is the concatenation, in declared order, of
/// the packed layouts of its value members' types.
pub proof fn lemma_packed_record_is_concatenation(ms: Seq<MemberModel>)
    requires
        value_slots(ms, ms.len() as int) is Ok,
    ensures
        items_packed(value_types(ms)) == Ok::<
            Seq<crate::types::PackedSlotModel>,
            crate::types::TypeIssue,
        >(value_slots(ms, ms.len() as int)->Ok_0),
{
    lemma_value_slots_prefix(ms, ms.len() as int);
    assert(ms.subrange(0, ms.len() as int) =~= ms);
}

/// What the fingerprint hashes follows the declaration: the packed flag,
/// which differs between packed and loose, the hash of the declared name,
/// then one entry per member, in declared order, computed from that member's
/// name and type text alone.
pub proof fn lemma_fingerprint_input(is_packed: bool, name: Seq<char>, ms: Seq<MemberModel>)
    ensures
        fingerprint_input(is_packed, name, ms).len() == ms.len() + 2,
        fingerprint_input(is_packed, name, ms)[0] == packed_flag(is_packed),
        fingerprint_input(is_packed, name, ms)[1] == bytearray_hash_of(name),
        forall|k: int|
            0 <= k < ms.len() ==> #[trigger] fingerprint_input(is_packed, name, ms)[k + 2]
                == member_hash(ms[k]),
        packed_flag(true) != packed_flag(false),
{
    assert(packed_flag(true)[31] != packed_flag(false)[31]);
}

/// Flattening distributes over concatenation: a packed layout made of two
/// parts flattens to the first part's widths followed by the second's.
pub proof fn lemma_flatten_concat(
    a: Seq<crate::types::PackedSlotModel>,
    b: Seq<crate::types::PackedSlotModel>,
    t: Seq<(Seq<char>, Seq<u8>)>,
)
    ensures
        flatten(a + b, t) == (match (flatten(a, t), flatten(b, t)) {
            (Some(x), Some(y)) => Some(x + y),
            _ => None,
        }),
    decreases b.len(),
{
    if b.len() == 0 {
        assert(a + b =~= a);
        if flatten(a, t) is Some {
            assert(flatten(a, t)->0 + Seq::<u8>::empty() =~= flatten(a, t)->0);
        }
    } else {
        let pb = b.subrange(0, b.len() - 1);
        lemma_flatten_concat(a, pb, t);
        let j = a + b;
        assert(j.subrange(0, j.len() - 1) =~= a + pb);
        assert(j[j.len() - 1] == b[b.len() - 1]);
        if flatten(a, t) is Some && flatten(pb, t) is Some && crate::layout::slot_widths(
            b[b.len() - 1],
            t,
        ) is Some {
            let x = flatten(a, t)->0;
            let y = flatten(pb, t)->0;
            let z = crate::layout::slot_widths(b[b.len() - 1], t)->0;
            assert(x + y + z =~= x + (y + z));
        }
    }
}

/// The flattened packed layouts of a sequence of types, joined in order;
/// none when one of them has no packed layout or cannot be flattened.
pub open spec fn flatten_each(ts: Seq<TypeModel>, t: Seq<(Seq<char>, Seq<u8>)>) -> Option<Seq<u8>>
    decreases ts.len(),
{
    if ts.len() == 0 {
        Some(Seq::empty())
    } else {
        match (flatten_each(ts.subrange(0, ts.len() - 1), t), packed_of(ts[ts.len() - 1])) {
            (Some(x), Ok(p)) => match flatten(p, t) {
                Some(y) => Some(x + y),
                None => None,
            },
            _ => None,
        }
    }
}

/// When a sequence of types packs, flattening its packed layout gives the
/// flattened packed layouts of the types one after the other.
pub proof fn lemma_flatten_items_packed(ts: Seq<TypeModel>, t: Seq<(Seq<char>, Seq<u8>)>)
    requires
        items_packed(ts) is Ok,
    ensures
        flatten(items_packed(ts)->Ok_0, t) == flatten_each(ts, t),
    decreases ts.len(),
{
    if ts.len() == 0 {
        assert(items_packed(ts)->Ok_0 =~= Seq::<crate::types::PackedSlotModel>::empty());
    } else {
        let p = ts.subrange(0, ts.len() - 1);
        lemma_flatten_items_packed(p, t);
        lemma_flatten_concat(items_packed(p)->Ok_0, packed_of(ts[ts.len() - 1])->Ok_0, t);
    }
}

/// Packing composes: for a record whose values pack, flattening its packed
/// layout yields exactly the flattened packed layouts of its value members'
/// types, concatenated in declared order.
pub proof fn lemma_packed_record_flattens_by_member(
    ms: Seq<MemberModel>,
    t: Seq<(Seq<char>, Seq<u8>)>,
)
    requires
        value_slots(ms, ms.len() as int) is Ok,
    ensures
        flatten(value_slots(ms, ms.len() as int)->Ok_0, t) == flatten_each(value_types(ms), t),
{
    lemma_packed_record_is_concatenation(ms);
    lemma_flatten_items_packed(value_types(ms), t);
}

/// Deriving the same declaration twice gives the same fingerprint.
pub proof fn lemma_fingerprint_stable(
    a: crate::introspect::Derivation,
    b: crate::introspect::Derivation,
    decl: crate::introspect::Declaration,
    is_packed: bool,
    derive_names: Seq<String>,
)
    requires
        a@ == crate::introspect::derivation(decl, is_packed, derive_names),
        b@ == crate::introspect::derivation(decl, is_packed, derive_names),
        a.descriptor is Some,
    ensures
        b.descriptor is Some,
        a.descriptor->0.fingerprint@ == b.descriptor->0.fingerprint@,
{
}

} // verus!
