use vstd::prelude::*;

use crate::classify::{primitive_widths, primitive_widths_of, views_of};
use crate::types::{size_value, Size, TypeExpr, TypeModel};

verus! {

broadcast use {
    vstd::std_specs::vec::axiom_vec_index_decreases,
    vstd::seq::axiom_seq_index_decreases,
    vstd::seq::axiom_seq_subrange_decreases,
};

/// The number of slots a value of the type takes, when it is the same for
/// every value.
pub open spec fn size_of(t: TypeModel) -> Option<nat>
    decreases t,
{
    match t {
        TypeModel::Primitive(n) => match primitive_widths(n) {
            Some(w) => Some(w.len()),
            None => None,
        },
        TypeModel::Tuple(items) => items_size(items),
        _ => None,
    }
}

/// The sum of the items' sizes, when all are known.
pub open spec fn items_size(s: Seq<TypeModel>) -> Option<nat>
    decreases s,
{
    if s.len() == 0 {
        Some(0)
    } else {
        match (items_size(s.subrange(0, s.len() - 1)), size_of(s[s.len() - 1])) {
            (Some(a), Some(b)) => Some(a + b),
            _ => None,
        }
    }
}

/// Adds a size to a running total; the flag says the total is unknown or
/// does not fit in 64 bits.
pub(crate) fn add_size(total: u64, unknown: bool, s: Size) -> (r: (u64, bool))
    ensures
        r.1 == (unknown || s is Unknown || total as int + s->Known_0 as int > u64::MAX),
        !r.1 ==> r.0 == total + s->Known_0,
{
    match s {
        Size::Unknown => (total, true),
        Size::Known(k) => {
            if unknown || k > u64::MAX - total {
                (total, true)
            } else {
                (total + k, false)
            }
        },
    }
}

/// The size of a classified type.
pub fn size_of_type(t: &TypeExpr) -> (r: Size)
    ensures
        r == size_value(size_of(t@)),
    decreases t,
{
    match t {
        TypeExpr::Primitive(n) => {
            match primitive_widths_of(n.as_str()) {
                Some(w) => Size::Known(w.len() as u64),
                None => Size::Unknown,
            }
        },
        TypeExpr::Tuple(items) => {
            let ghost m = views_of(items@);
            assert(t@->Tuple_0 =~= m);
            let mut total: u64 = 0;
            let mut unknown = false;
            let mut i: usize = 0;
            while i < items.len()
                invariant
                    i <= items@.len(),
                    m == views_of(items@),
                    *t == TypeExpr::Tuple(*items),
                    unknown ==> size_value(items_size(m.subrange(0, i as int))) == Size::Unknown,
                    !unknown ==> items_size(m.subrange(0, i as int)) == Some(total as nat),
                decreases items.len() - i,
            {
                proof {
                    vstd::std_specs::vec::axiom_vec_index_decreases(*items, i as int);
                    assert(decreases_to!(*t => (*t)->Tuple_0));
                }
                let s = size_of_type(&items[i]);
                assert(m.subrange(0, i + 1).subrange(0, i as int) =~= m.subrange(0, i as int));
                assert(m.subrange(0, i + 1)[i as int] == items@[i as int]@);
                let r = add_size(total, unknown, s);
                total = r.0;
                unknown = r.1;
                i = i + 1;
            }
            assert(m.subrange(0, items@.len() as int) =~= m);
            if unknown {
                Size::Unknown
            } else {
                Size::Known(total)
            }
        },
        _ => Size::Unknown,
    }
}

} // verus!
