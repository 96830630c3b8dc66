use vstd::prelude::*;

use crate::checker::{derive_conflict, valid_name, validation_diagnostics, DojoChecker};
use crate::classify::{classify, classify_type};
use crate::enums::{
    build_packed_enum_layout, build_variant_layouts, compute_enum_layout_size, opt_view,
    packed_enum_slots, variant_views, variants_layout,
};
use crate::hash::{compute_unique_hash, fingerprint, selector, selector_of};
use crate::layout::{
    build_item_layout_from_type, get_packed_item_layout_from_type, layout_of, packed_of,
};
use crate::members::{build_key_type, key_type_text, members_with, split_members};
use crate::size::{add_size, size_of, size_of_type};
use crate::types::{
    member_views, size_value, slot_views, Diagnostic, FieldLayout, Layout, LayoutModel, Member,
    MemberModel, PackedSlot, PackedSlotModel, Size, TypeExpr, TypeIssue, TypeModel,
};

verus! {

/// A variant of an enum declaration: its name and the text of its data type,
/// if it carries data.
pub struct Variant {
    pub name: String,
    pub ty: Option<String>,
}

pub struct VariantModel {
    pub name: Seq<char>,
    pub ty: Option<Seq<char>>,
}

impl Variant {
    pub open spec fn view(&self) -> VariantModel {
        VariantModel {
            name: self.name@,
            ty: match self.ty {
                Some(t) => Some(t@),
                None => None,
            },
        }
    }
}

/// The views of a sequence of variants.
pub open spec fn variant_decl_views(v: Seq<Variant>) -> Seq<VariantModel> {
    Seq::new(v.len(), |k: int| v[k]@)
}

/// A declaration to derive a descriptor for.
pub enum Declaration {
    /// A record stored by key: it needs at least one key and one value.
    Model { name: String, members: Vec<Member> },
    /// An event record: it needs at least one key and one value, and is
    /// always derived loose.
    Event { name: String, members: Vec<Member> },
    /// A plain record.
    Struct { name: String, members: Vec<Member> },
    /// An enum.
    Enum { name: String, variants: Vec<Variant> },
}

/// The layout a derivation produced.
pub enum DerivedLayout {
    Loose(Layout),
    Packed(Vec<PackedSlot>),
}

pub enum DerivedLayoutModel {
    Loose(LayoutModel),
    Packed(Seq<PackedSlotModel>),
}

impl DerivedLayout {
    pub open spec fn view(&self) -> DerivedLayoutModel {
        match self {
            DerivedLayout::Loose(l) => DerivedLayoutModel::Loose(l@),
            DerivedLayout::Packed(s) => DerivedLayoutModel::Packed(slot_views(s@)),
        }
    }
}

/// Everything derived from one declaration.
pub struct Descriptor {
    /// The classification of each member's type (of each variant's data).
    pub types: Vec<Option<TypeExpr>>,
    pub layout: DerivedLayout,
    pub size: Size,
    /// The big-endian bytes of the fingerprint.
    pub fingerprint: [u8; 32],
    pub keys: Vec<Member>,
    pub values: Vec<Member>,
    pub key_type: String,
}

pub struct DescriptorModel {
    pub types: Seq<Option<TypeModel>>,
    pub layout: DerivedLayoutModel,
    pub size: Size,
    pub fingerprint: Seq<u8>,
    pub keys: Seq<MemberModel>,
    pub values: Seq<MemberModel>,
    pub key_type: Seq<char>,
}

impl Descriptor {
    pub open spec fn view(&self) -> DescriptorModel {
        DescriptorModel {
            types: variant_views(self.types@),
            layout: self.layout@,
            size: self.size,
            fingerprint: self.fingerprint@,
            keys: member_views(self.keys@),
            values: member_views(self.values@),
            key_type: self.key_type@,
        }
    }
}

/// The outcome of a derivation: a descriptor unless a fatal problem was found,
/// and every problem found.
pub struct Derivation {
    pub descriptor: Option<Descriptor>,
    pub diagnostics: Vec<Diagnostic>,
}

pub struct DerivationModel {
    pub descriptor: Option<DescriptorModel>,
    pub diagnostics: Seq<Diagnostic>,
}

impl Derivation {
    pub open spec fn view(&self) -> DerivationModel {
        DerivationModel {
            descriptor: match self.descriptor {
                Some(d) => Some(d@),
                None => None,
            },
            diagnostics: self.diagnostics@,
        }
    }
}

/// The struct layout entries of the value members among the first `n`
/// members; otherwise the problem of the first value member without one.
pub open spec fn value_entries(ms: Seq<MemberModel>, n: int) -> Result<
    Seq<(Seq<u8>, LayoutModel)>,
    Diagnostic,
>
    decreases n,
{
    if n <= 0 {
        Ok(Seq::empty())
    } else {
        match value_entries(ms, n - 1) {
            Err(d) => Err(d),
            Ok(a) => if ms[n - 1].key {
                Ok(a)
            } else if !vstd::utf8::is_ascii_chars(ms[n - 1].name) {
                Err(Diagnostic::NameError)
            } else {
                match layout_of(classify(ms[n - 1].ty)) {
                    Err(_) => Err(Diagnostic::UnsupportedTypeError { index: (n - 1) as usize }),
                    Ok(l) => Ok(a.push((selector_of(ms[n - 1].name), l))),
                }
            },
        }
    }
}

/// The diagnostic for a member that cannot be packed.
pub open spec fn packing_diagnostic(e: TypeIssue, i: int) -> Diagnostic {
    match e {
        TypeIssue::Dynamic => Diagnostic::PackingError { index: i as usize },
        _ => Diagnostic::UnsupportedTypeError { index: i as usize },
    }
}

/// The packed slots of the value members among the first `n` members, in
/// order; otherwise the problem of the first value member that cannot be
/// packed.
pub open spec fn value_slots(ms: Seq<MemberModel>, n: int) -> Result<
    Seq<PackedSlotModel>,
    Diagnostic,
>
    decreases n,
{
    if n <= 0 {
        Ok(Seq::empty())
    } else {
        match value_slots(ms, n - 1) {
            Err(d) => Err(d),
            Ok(a) => if ms[n - 1].key {
                Ok(a)
            } else {
                match packed_of(classify(ms[n - 1].ty)) {
                    Err(e) => Err(packing_diagnostic(e, n - 1)),
                    Ok(b) => Ok(a + b),
                }
            },
        }
    }
}

/// The size a member adds to its record: nothing for a key.
pub open spec fn member_size(m: MemberModel) -> Option<nat> {
    if m.key {
        Some(0)
    } else {
        size_of(classify(m.ty))
    }
}

/// The size of the value members among the first `n` members.
pub open spec fn value_size(ms: Seq<MemberModel>, n: int) -> Option<nat>
    decreases n,
{
    if n <= 0 {
        Some(0)
    } else {
        match (value_size(ms, n - 1), member_size(ms[n - 1])) {
            (Some(a), Some(b)) => Some(a + b),
            _ => None,
        }
    }
}

pub open spec fn has_key(ms: Seq<MemberModel>) -> bool {
    exists|i: int| 0 <= i < ms.len() && (#[trigger] ms[i]).key
}

pub open spec fn has_value(ms: Seq<MemberModel>) -> bool {
    exists|i: int| 0 <= i < ms.len() && !(#[trigger] ms[i]).key
}

/// The layout of a record: the packed slots of its values, or a struct
/// layout with one entry per value.
pub open spec fn struct_layout(ms: Seq<MemberModel>, is_packed: bool) -> Result<
    DerivedLayoutModel,
    Diagnostic,
> {
    if is_packed {
        match value_slots(ms, ms.len() as int) {
            Ok(s) => Ok(DerivedLayoutModel::Packed(s)),
            Err(d) => Err(d),
        }
    } else {
        match value_entries(ms, ms.len() as int) {
            Ok(es) => Ok(DerivedLayoutModel::Loose(LayoutModel::Struct(es))),
            Err(d) => Err(d),
        }
    }
}

/// The derivation of a record declaration.
pub open spec fn struct_derivation(
    name: Seq<char>,
    ms: Seq<MemberModel>,
    is_packed: bool,
    needs_keys_and_values: bool,
) -> DerivationModel {
    let v = validation_diagnostics(name, ms, needs_keys_and_values);
    if needs_keys_and_values && (!has_key(ms) || !has_value(ms)) {
        DerivationModel { descriptor: None, diagnostics: v }
    } else {
        match struct_layout(ms, is_packed) {
            Err(d) => DerivationModel { descriptor: None, diagnostics: v.push(d) },
            Ok(l) => DerivationModel {
                descriptor: Some(
                    DescriptorModel {
                        types: ms.map_values(|m: MemberModel| Some(classify(m.ty))),
                        layout: l,
                        size: size_value(value_size(ms, ms.len() as int)),
                        fingerprint: fingerprint(is_packed, name, ms),
                        keys: members_with(ms, true),
                        values: members_with(ms, false),
                        key_type: key_type_text(members_with(ms, true)),
                    },
                ),
                diagnostics: v,
            },
        }
    }
}

/// The views of struct layout entries.
pub open spec fn field_views(v: Seq<FieldLayout>) -> Seq<(Seq<u8>, LayoutModel)> {
    Seq::new(v.len(), |k: int| (v[k].selector@, v[k].layout@))
}

/// The struct layout entries of the value members, with their selectors.
pub fn build_struct_field_layouts(members: &Vec<Member>) -> (r: Result<Vec<FieldLayout>, Diagnostic>)
    ensures
        match r {
            Ok(fs) => value_entries(member_views(members@), members@.len() as int) == Ok::<
                Seq<(Seq<u8>, LayoutModel)>,
                Diagnostic,
            >(field_views(fs@)),
            Err(d) => value_entries(member_views(members@), members@.len() as int) == Err::<
                Seq<(Seq<u8>, LayoutModel)>,
                Diagnostic,
            >(d),
        },
{
    let ghost ms = member_views(members@);
    let mut fs: Vec<FieldLayout> = Vec::new();
    let mut failed: Option<Diagnostic> = None;
    let mut i: usize = 0;
    assert(field_views(fs@) =~= Seq::<(Seq<u8>, LayoutModel)>::empty());
    while i < members.len()
        invariant
            i <= members@.len(),
            ms == member_views(members@),
            failed is Some ==> value_entries(ms, i as int) == Err::<
                Seq<(Seq<u8>, LayoutModel)>,
                Diagnostic,
            >(failed->0),
            failed is None ==> value_entries(ms, i as int) == Ok::<
                Seq<(Seq<u8>, LayoutModel)>,
                Diagnostic,
            >(field_views(fs@)),
        decreases members.len() - i,
    {
        let m = &members[i];
        assert(ms[i as int] == m@);
        if failed.is_none() && !m.key {
            match selector(m.name.as_str()) {
                None => {
                    failed = Some(Diagnostic::NameError);
                },
                Some(sel) => {
                    let t = classify_type(m.ty.as_str());
                    match build_item_layout_from_type(&t) {
                        Err(_) => {
                            failed = Some(Diagnostic::UnsupportedTypeError { index: i });
                        },
                        Ok(l) => {
                            let ghost before = field_views(fs@);
                            let ghost entry = (sel@, l@);
                            fs.push(FieldLayout { selector: sel, layout: l });
                            assert(field_views(fs@) =~= before.push(entry));
                        },
                    }
                },
            }
        }
        i = i + 1;
    }
    match failed {
        Some(d) => Err(d),
        None => Ok(fs),
    }
}

/// The packed slots of the value members, concatenated in declared order.
pub fn build_packed_struct_layout(members: &Vec<Member>) -> (r: Result<Vec<PackedSlot>, Diagnostic>)
    ensures
        match r {
            Ok(s) => value_slots(member_views(members@), members@.len() as int) == Ok::<
                Seq<PackedSlotModel>,
                Diagnostic,
            >(slot_views(s@)),
            Err(d) => value_slots(member_views(members@), members@.len() as int) == Err::<
                Seq<PackedSlotModel>,
                Diagnostic,
            >(d),
        },
{
    let ghost ms = member_views(members@);
    let mut slots: Vec<PackedSlot> = Vec::new();
    let mut failed: Option<Diagnostic> = None;
    let mut i: usize = 0;
    assert(slot_views(slots@) =~= Seq::<PackedSlotModel>::empty());
    while i < members.len()
        invariant
            i <= members@.len(),
            ms == member_views(members@),
            failed is Some ==> value_slots(ms, i as int) == Err::<Seq<PackedSlotModel>, Diagnostic>(
                failed->0,
            ),
            failed is None ==> value_slots(ms, i as int) == Ok::<Seq<PackedSlotModel>, Diagnostic>(
                slot_views(slots@),
            ),
        decreases members.len() - i,
    {
        let m = &members[i];
        assert(ms[i as int] == m@);
        if failed.is_none() && !m.key {
            let t = classify_type(m.ty.as_str());
            match get_packed_item_layout_from_type(&t) {
                Err(e) => {
                    failed = Some(
                        match e {
                            TypeIssue::Dynamic => Diagnostic::PackingError { index: i },
                            _ => Diagnostic::UnsupportedTypeError { index: i },
                        },
                    );
                },
                Ok(part) => {
                    let ghost before = slot_views(slots@);
                    let ghost pv = slot_views(part@);
                    let mut part = part;
                    slots.append(&mut part);
                    assert(slot_views(slots@) =~= before + pv);
                },
            }
        }
        i = i + 1;
    }
    match failed {
        Some(d) => Err(d),
        None => Ok(slots),
    }
}

/// The size of a record: the sum of its value members' sizes, known only
/// when each of them is.
pub fn compute_struct_layout_size(members: &Vec<Member>) -> (r: Size)
    ensures
        r == size_value(value_size(member_views(members@), members@.len() as int)),
{
    let ghost ms = member_views(members@);
    let mut total: u64 = 0;
    let mut unknown = false;
    let mut i: usize = 0;
    while i < members.len()
        invariant
            i <= members@.len(),
            ms == member_views(members@),
            unknown ==> size_value(value_size(ms, i as int)) == Size::Unknown,
            !unknown ==> value_size(ms, i as int) == Some(total as nat),
        decreases members.len() - i,
    {
        let m = &members[i];
        assert(ms[i as int] == m@);
        let s = if m.key {
            Size::Known(0)
        } else {
            let t = classify_type(m.ty.as_str());
            size_of_type(&t)
        };
        let r = add_size(total, unknown, s);
        total = r.0;
        unknown = r.1;
        i = i + 1;
    }
    if unknown {
        Size::Unknown
    } else {
        Size::Known(total)
    }
}

/// The classification of each member's type.
pub fn member_types(members: &Vec<Member>) -> (r: Vec<Option<TypeExpr>>)
    ensures
        variant_views(r@) == member_views(members@).map_values(
            |m: MemberModel| Some(classify(m.ty)),
        ),
{
    let ghost ms = member_views(members@);
    let mut r: Vec<Option<TypeExpr>> = Vec::new();
    let mut i: usize = 0;
    while i < members.len()
        invariant
            i <= members@.len(),
            ms == member_views(members@),
            variant_views(r@) == ms.subrange(0, i as int).map_values(
                |m: MemberModel| Some(classify(m.ty)),
            ),
        decreases members.len() - i,
    {
        let t = classify_type(members[i].ty.as_str());
        let ghost before = variant_views(r@);
        r.push(Some(t));
        assert(variant_views(r@) =~= before.push(Some(classify(ms[i as int].ty))));
        assert(ms.subrange(0, i + 1).map_values(|m: MemberModel| Some(classify(m.ty))) =~= ms.subrange(
            0,
            i as int,
        ).map_values(|m: MemberModel| Some(classify(m.ty))).push(Some(classify(ms[i as int].ty))));
        i = i + 1;
    }
    assert(ms.subrange(0, members@.len() as int) =~= ms);
    r
}

/// Whether some member is a key, and whether some member is not.
fn roles_present(members: &Vec<Member>) -> (r: (bool, bool))
    ensures
        r.0 == has_key(member_views(members@)),
        r.1 == has_value(member_views(members@)),
{
    let ghost ms = member_views(members@);
    let mut k = false;
    let mut v = false;
    let mut i: usize = 0;
    while i < members.len()
        invariant
            i <= members@.len(),
            ms == member_views(members@),
            k == (exists|j: int| 0 <= j < i && (#[trigger] ms[j]).key),
            v == (exists|j: int| 0 <= j < i && !(#[trigger] ms[j]).key),
        decreases members.len() - i,
    {
        assert(ms[i as int] == members@[i as int]@);
        if members[i].key {
            k = true;
        } else {
            v = true;
        }
        i = i + 1;
    }
    (k, v)
}

/// Derives the descriptor of a record declaration. Validation problems are
/// all collected; missing keys or values (where the record needs both) and
/// members without a layout are fatal and leave no descriptor.
pub fn derive_struct(name: &str, members: &Vec<Member>, is_packed: bool, needs_keys_and_values: bool) -> (r:
    Derivation)
    ensures
        r@ == struct_derivation(name@, member_views(members@), is_packed, needs_keys_and_values),
{
    let mut diagnostics = DojoChecker::validate_members(name, members, needs_keys_and_values);
    let (has_k, has_v) = roles_present(members);
    if needs_keys_and_values && (!has_k || !has_v) {
        return Derivation { descriptor: None, diagnostics };
    }
    let layout = if is_packed {
        match build_packed_struct_layout(members) {
            Ok(s) => Ok(DerivedLayout::Packed(s)),
            Err(d) => Err(d),
        }
    } else {
        match build_struct_field_layouts(members) {
            Ok(fs) => {
                let l = Layout::Struct(fs);
                assert(l@->Struct_0 =~= field_views(fs@));
                Ok(DerivedLayout::Loose(l))
            },
            Err(d) => Err(d),
        }
    };
    match layout {
        Err(d) => {
            diagnostics.push(d);
            Derivation { descriptor: None, diagnostics }
        },
        Ok(l) => {
            let (keys, values) = split_members(members);
            let key_type = build_key_type(&keys);
            let descriptor = Descriptor {
                types: member_types(members),
                layout: l,
                size: compute_struct_layout_size(members),
                fingerprint: compute_unique_hash(name, is_packed, members),
                keys,
                values,
                key_type,
            };
            Derivation { descriptor: Some(descriptor), diagnostics }
        },
    }
}

/// The classification of each variant's data type.
pub open spec fn variant_types(vs: Seq<VariantModel>) -> Seq<Option<TypeModel>> {
    vs.map_values(
        |v: VariantModel|
            match v.ty {
                Some(t) => Some(classify(t)),
                None => None,
            },
    )
}

/// The variants as members for the fingerprint: a variant without data has
/// an empty type text.
pub open spec fn variant_members(vs: Seq<VariantModel>) -> Seq<MemberModel> {
    vs.map_values(
        |v: VariantModel|
            MemberModel {
                name: v.name,
                ty: match v.ty {
                    Some(t) => t,
                    None => Seq::empty(),
                },
                key: false,
            },
    )
}

/// The first variant from `i` on that does not pack like the first one
/// (the number of variants if none).
pub open spec fn first_unpackable_from(vts: Seq<Option<TypeModel>>, i: int) -> int
    decreases vts.len() - i,
{
    if i >= vts.len() || i < 0 {
        vts.len() as int
    } else if !crate::enums::packs_like_first(vts, i) {
        i
    } else {
        first_unpackable_from(vts, i + 1)
    }
}

/// The layout of an enum: the packed slots shared by all variants after the
/// discriminant, or one loose layout per variant.
pub open spec fn enum_layout(vts: Seq<Option<TypeModel>>, is_packed: bool) -> Result<
    DerivedLayoutModel,
    Diagnostic,
> {
    if is_packed {
        if crate::enums::enum_packable(vts) {
            Ok(DerivedLayoutModel::Packed(packed_enum_slots(vts)))
        } else {
            Err(Diagnostic::PackingError { index: first_unpackable_from(vts, 0) as usize })
        }
    } else {
        match variants_layout(vts) {
            Ok(ls) => Ok(DerivedLayoutModel::Loose(LayoutModel::Enum(ls))),
            Err((i, _)) => Err(Diagnostic::UnsupportedTypeError { index: i as usize }),
        }
    }
}

/// The derivation of an enum declaration.
pub open spec fn enum_derivation(name: Seq<char>, vs: Seq<VariantModel>, is_packed: bool) -> DerivationModel {
    let v = if valid_name(name) {
        Seq::empty()
    } else {
        seq![Diagnostic::NameError]
    };
    let vts = variant_types(vs);
    match enum_layout(vts, is_packed) {
        Err(d) => DerivationModel { descriptor: None, diagnostics: v.push(d) },
        Ok(l) => DerivationModel {
            descriptor: Some(
                DescriptorModel {
                    types: vts,
                    layout: l,
                    size: size_value(crate::enums::enum_size(vts)),
                    fingerprint: fingerprint(is_packed, name, variant_members(vs)),
                    keys: Seq::empty(),
                    values: Seq::empty(),
                    key_type: key_type_text(Seq::empty()),
                },
            ),
            diagnostics: v,
        },
    }
}

/// The derivation of any declaration: requesting both the loose and the
/// packed derivation is fatal, and so is requesting an event packed.
pub open spec fn derivation(decl: Declaration, is_packed: bool, derive_names: Seq<String>) -> DerivationModel {
    if derive_conflict(derive_names) {
        DerivationModel { descriptor: None, diagnostics: seq![Diagnostic::ConflictError] }
    } else {
        match decl {
            Declaration::Model { name, members } => struct_derivation(
                name@,
                member_views(members@),
                is_packed,
                true,
            ),
            Declaration::Event { name, members } => if is_packed {
                DerivationModel { descriptor: None, diagnostics: seq![Diagnostic::ConflictError] }
            } else {
                struct_derivation(name@, member_views(members@), false, true)
            },
            Declaration::Struct { name, members } => struct_derivation(
                name@,
                member_views(members@),
                is_packed,
                false,
            ),
            Declaration::Enum { name, variants } => enum_derivation(
                name@,
                variant_decl_views(variants@),
                is_packed,
            ),
        }
    }
}

proof fn lemma_first_unpackable(vts: Seq<Option<TypeModel>>, i: int, k: int)
    requires
        0 <= k <= i < vts.len(),
        !crate::enums::packs_like_first(vts, i),
        forall|j: int| 0 <= j < i ==> #[trigger] crate::enums::packs_like_first(vts, j),
    ensures
        first_unpackable_from(vts, k) == i,
    decreases i - k,
{
    if k < i {
        lemma_first_unpackable(vts, i, k + 1);
    }
}

/// Classifies each variant's data type, and lists the variants as members.
fn variant_parts(variants: &Vec<Variant>) -> (r: (Vec<Option<TypeExpr>>, Vec<Member>))
    ensures
        variant_views(r.0@) == variant_types(variant_decl_views(variants@)),
        member_views(r.1@) == variant_members(variant_decl_views(variants@)),
{
    let ghost vs = variant_decl_views(variants@);
    let mut types: Vec<Option<TypeExpr>> = Vec::new();
    let mut ms: Vec<Member> = Vec::new();
    let mut i: usize = 0;
    while i < variants.len()
        invariant
            i <= variants@.len(),
            vs == variant_decl_views(variants@),
            variant_views(types@) == variant_types(vs.subrange(0, i as int)),
            member_views(ms@) == variant_members(vs.subrange(0, i as int)),
        decreases variants.len() - i,
    {
        let v = &variants[i];
        assert(vs[i as int] == v@);
        let ghost tb = variant_views(types@);
        let ghost mb = member_views(ms@);
        let (t, text) = match &v.ty {
            Some(s) => (Some(classify_type(s.as_str())), s.clone()),
            None => (None, String::new()),
        };
        assert(text@ == (match vs[i as int].ty {
            Some(t) => t,
            None => Seq::<char>::empty(),
        }));
        let ghost tv = opt_view(t);
        types.push(t);
        ms.push(Member { name: v.name.clone(), ty: text, key: false });
        assert(variant_views(types@) =~= tb.push(tv));
        assert(member_views(ms@) =~= mb.push(ms@[i as int]@));
        assert(variant_types(vs.subrange(0, i + 1)) =~= variant_types(vs.subrange(0, i as int)).push(tv));
        assert(variant_members(vs.subrange(0, i + 1)) =~= variant_members(vs.subrange(0, i as int)).push(
            ms@[i as int]@,
        ));
        i = i + 1;
    }
    assert(vs.subrange(0, variants@.len() as int) =~= vs);
    (types, ms)
}

/// Derives the descriptor of an enum declaration. A bad name is reported and
/// derivation goes on; a variant without a layout is fatal.
pub fn derive_enum(name: &str, variants: &Vec<Variant>, is_packed: bool) -> (r: Derivation)
    ensures
        r@ == enum_derivation(name@, variant_decl_views(variants@), is_packed),
{
    let ghost vs = variant_decl_views(variants@);
    let mut diagnostics: Vec<Diagnostic> = Vec::new();
    if !DojoChecker::is_name_valid(name) {
        diagnostics.push(Diagnostic::NameError);
    }
    let (types, ms) = variant_parts(variants);
    let ghost vts = variant_types(vs);
    assert(variant_views(types@) == vts);
    let layout = if is_packed {
        match build_packed_enum_layout(&types) {
            Ok(s) => Ok(DerivedLayout::Packed(s)),
            Err(i) => {
                proof {
                    lemma_first_unpackable(vts, i as int, 0);
                }
                Err(Diagnostic::PackingError { index: i })
            },
        }
    } else {
        match build_variant_layouts(&types) {
            Ok(l) => Ok(DerivedLayout::Loose(l)),
            Err((i, _)) => Err(Diagnostic::UnsupportedTypeError { index: i }),
        }
    };
    match layout {
        Err(d) => {
            diagnostics.push(d);
            Derivation { descriptor: None, diagnostics }
        },
        Ok(l) => {
            let size = compute_enum_layout_size(&types);
            let fingerprint = compute_unique_hash(name, is_packed, &ms);
            let keys: Vec<Member> = Vec::new();
            let values: Vec<Member> = Vec::new();
            let key_type = build_key_type(&keys);
            assert(member_views(keys@) =~= Seq::<MemberModel>::empty());
            assert(member_views(values@) =~= Seq::<MemberModel>::empty());
            let descriptor = Descriptor { types, layout: l, size, fingerprint, keys, values, key_type };
            Derivation { descriptor: Some(descriptor), diagnostics }
        },
    }
}

/// Derives the descriptor of a declaration, with the derive names requested
/// on it: asking for both the loose and the packed introspection is a fatal
/// conflict, and so is asking for a packed event.
pub fn derive_declaration(decl: &Declaration, is_packed: bool, derive_names: &Vec<String>) -> (r: Derivation)
    ensures
        r@ == derivation(*decl, is_packed, derive_names@),
{
    if DojoChecker::check_derive_conflicts(derive_names) {
        let r = Derivation { descriptor: None, diagnostics: vec![Diagnostic::ConflictError] };
        assert(r@.diagnostics =~= seq![Diagnostic::ConflictError]);
        return r;
    }
    match decl {
        Declaration::Model { name, members } => derive_struct(name.as_str(), members, is_packed, true),
        Declaration::Event { name, members } => {
            if is_packed {
                let r = Derivation { descriptor: None, diagnostics: vec![Diagnostic::ConflictError] };
                assert(r@.diagnostics =~= seq![Diagnostic::ConflictError]);
                r
            } else {
                derive_struct(name.as_str(), members, false, true)
            }
        },
        Declaration::Struct { name, members } => derive_struct(name.as_str(), members, is_packed, false),
        Declaration::Enum { name, variants } => derive_enum(name.as_str(), variants, is_packed),
    }
}

} // verus!
