use vstd::prelude::*;

use crate::classify::{chars_of, is_space};
use crate::layout::usize_name;
use crate::types::{member_views, Diagnostic, Member, MemberModel};

verus! {

/// A letter, a digit or `_`.
pub open spec fn is_ident_char(c: char) -> bool {
    ('a' <= c && c <= 'z') || ('A' <= c && c <= 'Z') || ('0' <= c && c <= '9') || c == '_'
}

/// A non-empty name of letters, digits and underscores.
pub open spec fn valid_name(s: Seq<char>) -> bool {
    s.len() > 0 && forall|i: int| 0 <= i < s.len() ==> #[trigger] is_ident_char(s[i])
}

/// A character that separates the words of a type text.
pub open spec fn is_type_delimiter(c: char) -> bool {
    is_space(c) || c == ',' || c == '(' || c == ')' || c == '<' || c == '>' || c == '['
        || c == ']' || c == '{' || c == '}' || c == ':'
}

/// The word `usize` stands at position `i` of `s`.
pub open spec fn usize_at(s: Seq<char>, i: int) -> bool {
    0 <= i && i + 5 <= s.len() && s.subrange(i, i + 5) == usize_name() && (i == 0
        || is_type_delimiter(s[i - 1])) && (i + 5 == s.len() || is_type_delimiter(s[i + 5]))
}

/// The type text names `usize`, alone or nested in another type.
pub open spec fn mentions_usize(s: Seq<char>) -> bool {
    exists|i: int| #[trigger] usize_at(s, i)
}

/// Some member before position `i` is not a key.
pub open spec fn value_before(ms: Seq<MemberModel>, i: int) -> bool {
    exists|j: int| 0 <= j < i && !(#[trigger] ms[j]).key
}

/// The problems of member `i` alone: a key after a value, and a key of
/// architecture-dependent width.
pub open spec fn member_diagnostics(ms: Seq<MemberModel>, i: int) -> Seq<Diagnostic> {
    (if ms[i].key && value_before(ms, i) {
        seq![Diagnostic::OrderingError { index: i as usize }]
    } else {
        Seq::empty()
    }) + (if ms[i].key && mentions_usize(ms[i].ty) {
        seq![Diagnostic::UnsupportedTypeError { index: i as usize }]
    } else {
        Seq::empty()
    })
}

/// The problems of the first `n` members, in member order.
pub open spec fn members_diagnostics(ms: Seq<MemberModel>, n: int) -> Seq<Diagnostic>
    decreases n,
{
    if n <= 0 {
        Seq::empty()
    } else {
        members_diagnostics(ms, n - 1) + member_diagnostics(ms, n - 1)
    }
}

/// The validation problems of a record, in this order: the name, the
/// members one by one, then missing keys and missing values where the record
/// needs both.
pub open spec fn validation_diagnostics(
    name: Seq<char>,
    ms: Seq<MemberModel>,
    needs_keys_and_values: bool,
) -> Seq<Diagnostic> {
    (if valid_name(name) {
        Seq::empty()
    } else {
        seq![Diagnostic::NameError]
    }) + members_diagnostics(ms, ms.len() as int) + (if needs_keys_and_values && !(exists|
        i: int,
    | 0 <= i < ms.len() && (#[trigger] ms[i]).key) {
        seq![Diagnostic::EmptyKeysError]
    } else {
        Seq::empty()
    }) + (if needs_keys_and_values && !(exists|i: int|
        0 <= i < ms.len() && !(#[trigger] ms[i]).key) {
        seq![Diagnostic::EmptyValuesError]
    } else {
        Seq::empty()
    })
}

pub open spec fn introspect_derive() -> Seq<char> {
    seq!['I', 'n', 't', 'r', 'o', 's', 'p', 'e', 'c', 't']
}

pub open spec fn packed_derive() -> Seq<char> {
    seq!['I', 'n', 't', 'r', 'o', 's', 'p', 'e', 'c', 't', 'P', 'a', 'c', 'k', 'e', 'd']
}

/// Both the loose and the packed introspection derives are requested.
pub open spec fn derive_conflict(names: Seq<String>) -> bool {
    (exists|i: int| 0 <= i < names.len() && (#[trigger] names[i])@ == introspect_derive()) && (
    exists|i: int| 0 <= i < names.len() && (#[trigger] names[i])@ == packed_derive())
}

/// Checks on declarations that come before any layout work.
pub struct DojoChecker {}

fn chars_equal(a: &Vec<char>, b: &Vec<char>) -> (r: bool)
    ensures
        r == (a@ == b@),
{
    if a.len() != b.len() {
        return false;
    }
    let mut i: usize = 0;
    while i < a.len()
        invariant
            a@.len() == b@.len(),
            i <= a@.len(),
            forall|k: int| 0 <= k < i ==> a@[k] == b@[k],
        decreases a.len() - i,
    {
        if a[i] != b[i] {
            return false;
        }
        i = i + 1;
    }
    assert(a@ =~= b@);
    true
}

fn is_type_delimiter_char(c: char) -> (r: bool)
    ensures
        r == is_type_delimiter(c),
{
    c == ' ' || c == '\t' || c == '\n' || c == '\r' || c == ',' || c == '(' || c == ')' || c
        == '<' || c == '>' || c == '[' || c == ']' || c == '{' || c == '}' || c == ':'
}

/// Whether a type text names `usize`, alone or inside another type (the tuple
/// `(u8, usize)` for example).
pub fn type_contains_usize(ty: &str) -> (r: bool)
    ensures
        r == mentions_usize(ty@),
{
    let cs = chars_of(ty);
    let w: Vec<char> = vec!['u', 's', 'i', 'z', 'e'];
    let n = cs.len();
    if n < 5 {
        assert forall|i: int| !usize_at(ty@, i) by {}
        return false;
    }
    let mut i: usize = 0;
    while i <= n - 5
        invariant
            n >= 5,
            i <= n - 4,
            cs@ == ty@,
            n == cs@.len(),
            w@ == usize_name(),
            forall|j: int| 0 <= j < i ==> !#[trigger] usize_at(ty@, j),
        decreases n - i,
    {
        let word = i + 5;
        let mut k: usize = 0;
        let mut same = true;
        while k < 5
            invariant
                word == i + 5,
                word <= n,
                n == cs@.len(),
                w@ == usize_name(),
                k <= 5,
                same == (forall|j: int| 0 <= j < k ==> cs@[i + j] == w@[j]),
            decreases 5 - k,
        {
            if cs[i + k] != w[k] {
                same = false;
            }
            k = k + 1;
        }
        assert(same == (cs@.subrange(i as int, i + 5) == w@)) by {
            if same {
                assert(cs@.subrange(i as int, i + 5) =~= w@);
            } else if cs@.subrange(i as int, i + 5) == w@ {
                assert(forall|j: int|
                    0 <= j < 5 ==> cs@[i + j] == #[trigger] cs@.subrange(i as int, i + 5)[j]);
            }
        }
        if same && (i == 0 || is_type_delimiter_char(cs[i - 1])) && (word == n
            || is_type_delimiter_char(cs[word])) {
            assert(usize_at(ty@, i as int));
            return true;
        }
        i = i + 1;
    }
    assert forall|j: int| !usize_at(ty@, j) by {
        if 0 <= j && j + 5 <= ty@.len() {
            assert(j < i);
        }
    }
    false
}

impl DojoChecker {
    /// Whether a declared name is made of letters, digits and underscores only.
    pub fn is_name_valid(name: &str) -> (r: bool)
        ensures
            r == valid_name(name@),
    {
        let cs = chars_of(name);
        if cs.len() == 0 {
            return false;
        }
        let mut i: usize = 0;
        while i < cs.len()
            invariant
                cs@ == name@,
                i <= cs@.len(),
                forall|k: int| 0 <= k < i ==> is_ident_char(#[trigger] cs@[k]),
            decreases cs.len() - i,
        {
            let c = cs[i];
            if !(('a' <= c && c <= 'z') || ('A' <= c && c <= 'Z') || ('0' <= c && c <= '9') || c
                == '_') {
                assert(!is_ident_char(name@[i as int]));
                return false;
            }
            i = i + 1;
        }
        true
    }

    /// Whether both the loose and the packed introspection derives are among
    /// the derive names of a declaration.
    pub fn check_derive_conflicts(derive_names: &Vec<String>) -> (r: bool)
        ensures
            r == derive_conflict(derive_names@),
    {
        let loose: Vec<char> = vec!['I', 'n', 't', 'r', 'o', 's', 'p', 'e', 'c', 't'];
        let packed: Vec<char> = vec![
            'I', 'n', 't', 'r', 'o', 's', 'p', 'e', 'c', 't', 'P', 'a', 'c', 'k', 'e', 'd',
        ];
        let mut has_loose = false;
        let mut has_packed = false;
        let mut i: usize = 0;
        while i < derive_names.len()
            invariant
                i <= derive_names@.len(),
                loose@ == introspect_derive(),
                packed@ == packed_derive(),
                has_loose == (exists|k: int|
                    0 <= k < i && (#[trigger] derive_names@[k])@ == introspect_derive()),
                has_packed == (exists|k: int|
                    0 <= k < i && (#[trigger] derive_names@[k])@ == packed_derive()),
            decreases derive_names.len() - i,
        {
            let cs = chars_of(derive_names[i].as_str());
            if chars_equal(&cs, &loose) {
                has_loose = true;
            }
            if chars_equal(&cs, &packed) {
                has_packed = true;
            }
            i = i + 1;
        }
        has_loose && has_packed
    }

    /// The validation problems of a record, all of them, in order: a bad
    /// declared name, then for each member a key after a value and a key of
    /// architecture-dependent width, then missing keys or values where the
    /// record needs both.
    pub fn validate_members(name: &str, members: &Vec<Member>, needs_keys_and_values: bool) -> (r:
        Vec<Diagnostic>)
        ensures
            r@ == validation_diagnostics(name@, member_views(members@), needs_keys_and_values),
    {
        let ghost ms = member_views(members@);
        let mut r: Vec<Diagnostic> = Vec::new();
        if !DojoChecker::is_name_valid(name) {
            r.push(Diagnostic::NameError);
        }
        let ghost head = r@;
        assert(head == (if valid_name(name@) {
            Seq::<Diagnostic>::empty()
        } else {
            seq![Diagnostic::NameError]
        }));
        let mut seen_value = false;
        let mut seen_key = false;
        let mut i: usize = 0;
        while i < members.len()
            invariant
                i <= members@.len(),
                ms == member_views(members@),
                r@ == head + members_diagnostics(ms, i as int),
                seen_value == value_before(ms, i as int),
                seen_key == (exists|k: int| 0 <= k < i && (#[trigger] ms[k]).key),
            decreases members.len() - i,
        {
            let m = &members[i];
            let ghost before = r@;
            if m.key && seen_value {
                r.push(Diagnostic::OrderingError { index: i });
            }
            if m.key && type_contains_usize(m.ty.as_str()) {
                r.push(Diagnostic::UnsupportedTypeError { index: i });
            }
            assert(r@ =~= before + member_diagnostics(ms, i as int));
            if !m.key {
                seen_value = true;
                assert(!ms[i as int].key);
            } else {
                seen_key = true;
                assert(ms[i as int].key);
            }
            i = i + 1;
            assert(value_before(ms, i as int) == (value_before(ms, i - 1) || !ms[i - 1].key));
        }
        let ghost before = r@;
        if needs_keys_and_values && !seen_key {
            r.push(Diagnostic::EmptyKeysError);
        }
        if needs_keys_and_values && !seen_value {
            r.push(Diagnostic::EmptyValuesError);
        }
        assert(seen_value == (exists|k: int| 0 <= k < ms.len() && !(#[trigger] ms[k]).key));
        assert(r@ =~= validation_diagnostics(name@, ms, needs_keys_and_values));
        r
    }
}

} // verus!
