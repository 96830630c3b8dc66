use vstd::prelude::*;
use vstd::string::StrSliceExecFns;

use crate::types::{TypeExpr, TypeModel};

verus! {

broadcast use vstd::std_specs::vec::axiom_vec_index_decreases;

pub open spec fn is_space(c: char) -> bool {
    c == ' ' || c == '\t' || c == '\n' || c == '\r'
}

pub open spec fn opens_group(c: char) -> bool {
    c == '(' || c == '<' || c == '['
}

pub open spec fn closes_group(c: char) -> bool {
    c == ')' || c == '>' || c == ']'
}

/// `x` moved into `[lo, hi]`.
pub open spec fn within(x: int, lo: int, hi: int) -> int {
    if x < lo {
        lo
    } else if x > hi {
        hi
    } else {
        x
    }
}

/// First position of `[lo, hi)` that is not white space (`hi` if none).
pub open spec fn trim_start(s: Seq<char>, lo: int, hi: int) -> int
    decreases hi - lo,
{
    if lo < hi && is_space(s[lo]) {
        trim_start(s, lo + 1, hi)
    } else {
        lo
    }
}

/// End of `[lo, hi)` once trailing white space is dropped.
pub open spec fn trim_end(s: Seq<char>, lo: int, hi: int) -> int
    decreases hi - lo,
{
    if lo < hi && is_space(s[hi - 1]) {
        trim_end(s, lo, hi - 1)
    } else {
        hi
    }
}

/// First comma of `[i, hi)` outside any bracket, counting `depth` brackets
/// already open at `i` (`hi` if none). A closer with nothing open is ignored.
pub open spec fn top_comma(s: Seq<char>, i: int, hi: int, depth: nat) -> int
    decreases hi - i,
{
    if i >= hi {
        hi
    } else if s[i] == ',' && depth == 0 {
        i
    } else if opens_group(s[i]) {
        top_comma(s, i + 1, hi, depth + 1)
    } else if closes_group(s[i]) {
        top_comma(s, i + 1, hi, if depth > 0 { (depth - 1) as nat } else { 0 })
    } else {
        top_comma(s, i + 1, hi, depth)
    }
}

/// `s[a..b)` begins with `w`.
pub open spec fn starts_with_at(s: Seq<char>, a: int, b: int, w: Seq<char>) -> bool {
    b - a >= w.len() && s.subrange(a, a + w.len()) == w
}

pub open spec fn array_prefix() -> Seq<char> {
    seq!['A', 'r', 'r', 'a', 'y', '<']
}

pub open spec fn span_prefix() -> Seq<char> {
    seq!['S', 'p', 'a', 'n', '<']
}

pub open spec fn option_prefix() -> Seq<char> {
    seq!['O', 'p', 't', 'i', 'o', 'n', '<']
}

pub open spec fn byte_string_name() -> Seq<char> {
    seq!['B', 'y', 't', 'e', 'A', 'r', 'r', 'a', 'y']
}

/// The primitive width table: the storage widths, in bits, of each slot that a
/// primitive type takes.
pub open spec fn primitive_widths(n: Seq<char>) -> Option<Seq<u8>> {
    if n == seq!['f', 'e', 'l', 't', '2', '5', '2'] {
        Some(seq![251u8])
    } else if n == seq!['b', 'o', 'o', 'l'] {
        Some(seq![1u8])
    } else if n == seq!['u', '8'] {
        Some(seq![8u8])
    } else if n == seq!['u', '1', '6'] {
        Some(seq![16u8])
    } else if n == seq!['u', '3', '2'] {
        Some(seq![32u8])
    } else if n == seq!['u', '6', '4'] {
        Some(seq![64u8])
    } else if n == seq!['u', '1', '2', '8'] {
        Some(seq![128u8])
    } else if n == seq!['u', '2', '5', '6'] {
        Some(seq![128u8, 128u8])
    } else if n == seq!['i', '8'] {
        Some(seq![8u8])
    } else if n == seq!['i', '1', '6'] {
        Some(seq![16u8])
    } else if n == seq!['i', '3', '2'] {
        Some(seq![32u8])
    } else if n == seq!['i', '6', '4'] {
        Some(seq![64u8])
    } else if n == seq!['i', '1', '2', '8'] {
        Some(seq![128u8])
    } else if n == seq!['u', 's', 'i', 'z', 'e'] {
        Some(seq![32u8])
    } else if n == seq!['C', 'o', 'n', 't', 'r', 'a', 'c', 't', 'A', 'd', 'd', 'r', 'e', 's', 's'] {
        Some(seq![251u8])
    } else if n == seq!['C', 'l', 'a', 's', 's', 'H', 'a', 's', 'h'] {
        Some(seq![251u8])
    } else if n == seq!['E', 't', 'h', 'A', 'd', 'd', 'r', 'e', 's', 's'] {
        Some(seq![160u8])
    } else {
        None
    }
}

/// Classification of the type text `s[lo..hi)`.
pub open spec fn classify_range(s: Seq<char>, lo: int, hi: int) -> TypeModel
    decreases hi - lo, 0int,
{
    if lo < 0 || hi > s.len() || lo > hi {
        TypeModel::Custom(Seq::empty())
    } else {
        let a = within(trim_start(s, lo, hi), lo, hi);
        let b = within(trim_end(s, a, hi), a, hi);
        if b - a >= 2 && s[a] == '(' && s[b - 1] == ')' {
            TypeModel::Tuple(tuple_items(s, a + 1, b - 1))
        } else if b - a > 6 && starts_with_at(s, a, b, array_prefix()) && s[b - 1] == '>' {
            TypeModel::Array(Box::new(classify_range(s, a + 6, b - 1)))
        } else if b - a > 5 && starts_with_at(s, a, b, span_prefix()) && s[b - 1] == '>' {
            TypeModel::Array(Box::new(classify_range(s, a + 5, b - 1)))
        } else if s.subrange(a, b) == byte_string_name() {
            TypeModel::ByteString
        } else if b - a > 7 && starts_with_at(s, a, b, option_prefix()) && s[b - 1] == '>' {
            TypeModel::Optional(Box::new(classify_range(s, a + 7, b - 1)))
        } else if primitive_widths(s.subrange(a, b)) is Some {
            TypeModel::Primitive(s.subrange(a, b))
        } else {
            TypeModel::Custom(s.subrange(a, b))
        }
    }
}

/// The items of the tuple whose inside is `s[lo..hi)`: the parts between
/// top-level commas, blank parts left out.
pub open spec fn tuple_items(s: Seq<char>, lo: int, hi: int) -> Seq<TypeModel>
    decreases hi - lo, 1int,
{
    if lo < 0 || hi > s.len() || lo >= hi {
        Seq::empty()
    } else {
        let c = within(top_comma(s, lo, hi, 0), lo, hi);
        let a = within(trim_start(s, lo, c), lo, c);
        let b = within(trim_end(s, a, c), a, c);
        let rest = if c < hi {
            tuple_items(s, c + 1, hi)
        } else {
            Seq::empty()
        };
        if a == b {
            rest
        } else {
            seq![classify_range(s, lo, c)] + rest
        }
    }
}

/// Classification of a whole type text.
pub open spec fn classify(s: Seq<char>) -> TypeModel {
    classify_range(s, 0, s.len() as int)
}

/// The characters of `s`, in order.
pub fn chars_of(s: &str) -> (r: Vec<char>)
    ensures
        r@ == s@,
{
    let n = s.unicode_len();
    let mut r: Vec<char> = Vec::new();
    let mut i: usize = 0;
    while i < n
        invariant
            n == s@.len(),
            i <= n,
            r@ == s@.subrange(0, i as int),
        decreases n - i,
    {
        let c = s.get_char(i);
        r.push(c);
        i = i + 1;
        assert(r@ =~= s@.subrange(0, i as int));
    }
    assert(r@ =~= s@);
    r
}

fn is_space_char(c: char) -> (r: bool)
    ensures
        r == is_space(c),
{
    c == ' ' || c == '\t' || c == '\n' || c == '\r'
}

pub(crate) fn trim_start_at(cs: &Vec<char>, lo: usize, hi: usize) -> (r: usize)
    requires
        lo <= hi <= cs@.len(),
    ensures
        r == trim_start(cs@, lo as int, hi as int),
        lo <= r <= hi,
{
    let mut i = lo;
    while i < hi && is_space_char(cs[i])
        invariant
            lo <= i <= hi <= cs@.len(),
            trim_start(cs@, i as int, hi as int) == trim_start(cs@, lo as int, hi as int),
        decreases hi - i,
    {
        i = i + 1;
    }
    i
}

pub(crate) fn trim_end_at(cs: &Vec<char>, lo: usize, hi: usize) -> (r: usize)
    requires
        lo <= hi <= cs@.len(),
    ensures
        r == trim_end(cs@, lo as int, hi as int),
        lo <= r <= hi,
{
    let mut j = hi;
    while lo < j && is_space_char(cs[j - 1])
        invariant
            lo <= j <= hi <= cs@.len(),
            trim_end(cs@, lo as int, j as int) == trim_end(cs@, lo as int, hi as int),
        decreases j - lo,
    {
        j = j - 1;
    }
    j
}

fn top_comma_at(cs: &Vec<char>, lo: usize, hi: usize) -> (r: usize)
    requires
        lo <= hi <= cs@.len(),
    ensures
        r == top_comma(cs@, lo as int, hi as int, 0),
        lo <= r <= hi,
{
    let mut i = lo;
    let mut depth: usize = 0;
    while i < hi
        invariant
            lo <= i <= hi <= cs@.len(),
            depth <= i - lo,
            top_comma(cs@, i as int, hi as int, depth as nat) == top_comma(
                cs@,
                lo as int,
                hi as int,
                0,
            ),
        decreases hi - i,
    {
        let c = cs[i];
        if c == ',' && depth == 0 {
            return i;
        } else if c == '(' || c == '<' || c == '[' {
            depth = depth + 1;
        } else if c == ')' || c == '>' || c == ']' {
            if depth > 0 {
                depth = depth - 1;
            }
        }
        i = i + 1;
    }
    i
}

/// Whether `cs[a..b)` is `w`.
fn eq_range(cs: &Vec<char>, a: usize, b: usize, w: &Vec<char>) -> (r: bool)
    requires
        a <= b <= cs@.len(),
    ensures
        r == (cs@.subrange(a as int, b as int) == w@),
{
    if b - a != w.len() {
        return false;
    }
    let mut k: usize = 0;
    while k < w.len()
        invariant
            a <= b <= cs@.len(),
            b - a == w@.len(),
            k <= w@.len(),
            forall|j: int| 0 <= j < k ==> cs@[a + j] == w@[j],
        decreases w.len() - k,
    {
        if cs[a + k] != w[k] {
            assert(cs@.subrange(a as int, b as int)[k as int] != w@[k as int]);
            return false;
        }
        k = k + 1;
    }
    assert(cs@.subrange(a as int, b as int) =~= w@);
    true
}

/// Whether `cs[a..b)` begins with `w`.
fn starts_with_range(cs: &Vec<char>, a: usize, b: usize, w: &Vec<char>) -> (r: bool)
    requires
        a <= b <= cs@.len(),
    ensures
        r == starts_with_at(cs@, a as int, b as int, w@),
{
    if b - a < w.len() {
        return false;
    }
    eq_range(cs, a, a + w.len(), w)
}

/// Looks `cs[a..b)` up in the primitive width table.
pub(crate) fn primitive_widths_at(cs: &Vec<char>, a: usize, b: usize) -> (r: Option<Vec<u8>>)
    requires
        a <= b <= cs@.len(),
    ensures
        match r {
            Some(w) => primitive_widths(cs@.subrange(a as int, b as int)) == Some(w@),
            None => primitive_widths(cs@.subrange(a as int, b as int)) is None,
        },
{
    if eq_range(cs, a, b, &vec!['f', 'e', 'l', 't', '2', '5', '2']) {
        Some(vec![251u8])
    } else if eq_range(cs, a, b, &vec!['b', 'o', 'o', 'l']) {
        Some(vec![1u8])
    } else if eq_range(cs, a, b, &vec!['u', '8']) {
        Some(vec![8u8])
    } else if eq_range(cs, a, b, &vec!['u', '1', '6']) {
        Some(vec![16u8])
    } else if eq_range(cs, a, b, &vec!['u', '3', '2']) {
        Some(vec![32u8])
    } else if eq_range(cs, a, b, &vec!['u', '6', '4']) {
        Some(vec![64u8])
    } else if eq_range(cs, a, b, &vec!['u', '1', '2', '8']) {
        Some(vec![128u8])
    } else if eq_range(cs, a, b, &vec!['u', '2', '5', '6']) {
        Some(vec![128u8, 128u8])
    } else if eq_range(cs, a, b, &vec!['i', '8']) {
        Some(vec![8u8])
    } else if eq_range(cs, a, b, &vec!['i', '1', '6']) {
        Some(vec![16u8])
    } else if eq_range(cs, a, b, &vec!['i', '3', '2']) {
        Some(vec![32u8])
    } else if eq_range(cs, a, b, &vec!['i', '6', '4']) {
        Some(vec![64u8])
    } else if eq_range(cs, a, b, &vec!['i', '1', '2', '8']) {
        Some(vec![128u8])
    } else if eq_range(cs, a, b, &vec!['u', 's', 'i', 'z', 'e']) {
        Some(vec![32u8])
    } else if eq_range(cs, a, b, &vec!['C', 'o', 'n', 't', 'r', 'a', 'c', 't', 'A', 'd', 'd', 'r', 'e', 's', 's']) {
        Some(vec![251u8])
    } else if eq_range(cs, a, b, &vec!['C', 'l', 'a', 's', 's', 'H', 'a', 's', 'h']) {
        Some(vec![251u8])
    } else if eq_range(cs, a, b, &vec!['E', 't', 'h', 'A', 'd', 'd', 'r', 'e', 's', 's']) {
        Some(vec![160u8])
    } else {
        None
    }
}

/// Looks a whole name up in the primitive width table.
pub fn primitive_widths_of(name: &str) -> (r: Option<Vec<u8>>)
    ensures
        match r {
            Some(w) => primitive_widths(name@) == Some(w@),
            None => primitive_widths(name@) is None,
        },
{
    let cs = chars_of(name);
    assert(cs@.subrange(0, cs@.len() as int) =~= name@);
    primitive_widths_at(&cs, 0, cs.len())
}

/// The views of a sequence of type expressions.
pub open spec fn views_of(v: Seq<TypeExpr>) -> Seq<TypeModel> {
    Seq::new(v.len(), |k: int| v[k]@)
}

fn classify_at(s: &str, cs: &Vec<char>, lo: usize, hi: usize) -> (r: TypeExpr)
    requires
        cs@ == s@,
        lo <= hi <= cs@.len(),
    ensures
        r@ == classify_range(cs@, lo as int, hi as int),
    decreases hi - lo, 0usize,
{
    let a = trim_start_at(cs, lo, hi);
    let b = trim_end_at(cs, a, hi);
    if b - a >= 2 && cs[a] == '(' && cs[b - 1] == ')' {
        let items = tuple_items_at(s, cs, a + 1, b - 1);
        let r = TypeExpr::Tuple(items);
        assert(r@->Tuple_0 =~= views_of(items@));
        r
    } else if b - a > 6 && starts_with_range(cs, a, b, &vec!['A', 'r', 'r', 'a', 'y', '<'])
        && cs[b - 1] == '>' {
        let inner = classify_at(s, cs, a + 6, b - 1);
        TypeExpr::Array(Box::new(inner))
    } else if b - a > 5 && starts_with_range(cs, a, b, &vec!['S', 'p', 'a', 'n', '<']) && cs[b
        - 1] == '>' {
        let inner = classify_at(s, cs, a + 5, b - 1);
        TypeExpr::Array(Box::new(inner))
    } else if eq_range(cs, a, b, &vec!['B', 'y', 't', 'e', 'A', 'r', 'r', 'a', 'y']) {
        TypeExpr::ByteString
    } else if b - a > 7 && starts_with_range(
        cs,
        a,
        b,
        &vec!['O', 'p', 't', 'i', 'o', 'n', '<'],
    ) && cs[b - 1] == '>' {
        let inner = classify_at(s, cs, a + 7, b - 1);
        TypeExpr::Optional(Box::new(inner))
    } else {
        let name = s.substring_char(a, b).to_owned();
        match primitive_widths_at(cs, a, b) {
            Some(_) => TypeExpr::Primitive(name),
            None => TypeExpr::Custom(name),
        }
    }
}

fn tuple_items_at(s: &str, cs: &Vec<char>, lo: usize, hi: usize) -> (r: Vec<TypeExpr>)
    requires
        cs@ == s@,
        lo <= hi <= cs@.len(),
    ensures
        views_of(r@) == tuple_items(cs@, lo as int, hi as int),
    decreases hi - lo, 1usize,
{
    let mut r: Vec<TypeExpr> = Vec::new();
    let mut i = lo;
    while i < hi
        invariant
            cs@ == s@,
            lo <= i <= hi <= cs@.len(),
            views_of(r@) + tuple_items(cs@, i as int, hi as int) == tuple_items(
                cs@,
                lo as int,
                hi as int,
            ),
        decreases hi - i,
    {
        let c = top_comma_at(cs, i, hi);
        let a = trim_start_at(cs, i, c);
        let b = trim_end_at(cs, a, c);
        let ghost before = views_of(r@);
        if a != b {
            let t = classify_at(s, cs, i, c);
            r.push(t);
            assert(views_of(r@) =~= before + seq![t@]);
        } else {
            assert(views_of(r@) =~= before);
        }
        if c < hi {
            i = c + 1;
        } else {
            i = hi;
        }
        assert(views_of(r@) + tuple_items(cs@, i as int, hi as int) =~= tuple_items(
            cs@,
            lo as int,
            hi as int,
        ));
    }
    assert(views_of(r@) =~= tuple_items(cs@, lo as int, hi as int));
    r
}

/// Classifies a type text: tuples, arrays (`Array<..>`, `Span<..>`), the byte
/// string, options, primitives of the width table, and any other name as a
/// custom type. Nested brackets are tracked when splitting tuple items.
pub fn classify_type(ty: &str) -> (r: TypeExpr)
    ensures
        r@ == classify(ty@),
{
    let cs = chars_of(ty);
    classify_at(ty, &cs, 0, cs.len())
}

} // verus!
