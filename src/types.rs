use vstd::prelude::*;

verus! {

broadcast use vstd::std_specs::vec::axiom_vec_index_decreases;

/// The shape of a type expression, as a mathematical value.
pub enum TypeModel {
    Primitive(Seq<char>),
    Tuple(Seq<TypeModel>),
    Array(Box<TypeModel>),
    ByteString,
    Optional(Box<TypeModel>),
    Custom(Seq<char>),
}

/// A classified type expression.
pub enum TypeExpr {
    /// A name of the primitive width table.
    Primitive(String),
    /// A tuple, items in order.
    Tuple(Vec<TypeExpr>),
    /// A growable array of the item type.
    Array(Box<TypeExpr>),
    /// The byte-string type.
    ByteString,
    /// An optional value of the inner type.
    Optional(Box<TypeExpr>),
    /// Any other named type, resolved elsewhere.
    Custom(String),
}

impl TypeExpr {
    pub open spec fn view(&self) -> TypeModel
        decreases self,
    {
        match self {
            TypeExpr::Primitive(n) => TypeModel::Primitive(n@),
            TypeExpr::Tuple(items) => TypeModel::Tuple(
                Seq::new(
                    items.len() as nat,
                    |i: int|
                        if 0 <= i < items.len() {
                            items[i].view()
                        } else {
                            TypeModel::ByteString
                        },
                ),
            ),
            TypeExpr::Array(t) => TypeModel::Array(Box::new(t.view())),
            TypeExpr::ByteString => TypeModel::ByteString,
            TypeExpr::Optional(t) => TypeModel::Optional(Box::new(t.view())),
            TypeExpr::Custom(n) => TypeModel::Custom(n@),
        }
    }
}

/// A static size in storage slots.
#[derive(PartialEq, Eq, Structural, Clone, Copy, Debug)]
pub enum Size {
    /// The value always takes this many slots.
    Known(u64),
    /// The number of slots depends on the value.
    Unknown,
}

/// The executable size for a mathematical one: sizes that do not fit in 64
/// bits are reported as unknown.
pub open spec fn size_value(n: Option<nat>) -> Size {
    match n {
        Some(k) => if k <= u64::MAX {
            Size::Known(k as u64)
        } else {
            Size::Unknown
        },
        None => Size::Unknown,
    }
}

/// One slot of a packed layout.
#[derive(Clone, Debug)]
pub enum PackedSlot {
    /// A primitive slot of this many bits.
    Width(u8),
    /// The packed layout of the named type, resolved elsewhere.
    Custom(String),
}

pub enum PackedSlotModel {
    Width(u8),
    Custom(Seq<char>),
}

impl PackedSlot {
    pub open spec fn view(&self) -> PackedSlotModel {
        match self {
            PackedSlot::Width(w) => PackedSlotModel::Width(*w),
            PackedSlot::Custom(n) => PackedSlotModel::Custom(n@),
        }
    }
}

/// The views of a sequence of packed slots.
pub open spec fn slot_views(v: Seq<PackedSlot>) -> Seq<PackedSlotModel> {
    Seq::new(v.len(), |k: int| v[k]@)
}

/// A storage layout, as a mathematical value.
pub enum LayoutModel {
    Fixed(Seq<u8>),
    Struct(Seq<(Seq<u8>, LayoutModel)>),
    Enum(Seq<LayoutModel>),
    Tuple(Seq<LayoutModel>),
    Array(Box<LayoutModel>),
    ByteString,
    Custom(Seq<char>),
}

/// A storage layout.
pub enum Layout {
    /// Primitive slots, with their widths in bits.
    Fixed(Vec<u8>),
    /// One entry per field, identified by the field's selector.
    Struct(Vec<FieldLayout>),
    /// One layout per variant; the position is the variant's index.
    Enum(Vec<Layout>),
    /// One layout per tuple item.
    Tuple(Vec<Layout>),
    /// Any number of items of one layout.
    Array(Box<Layout>),
    /// A byte string.
    ByteString,
    /// The layout of the named type, resolved elsewhere.
    Custom(String),
}

/// A struct field's layout and selector.
pub struct FieldLayout {
    /// The big-endian bytes of the field's selector.
    pub selector: [u8; 32],
    pub layout: Layout,
}

impl Layout {
    pub open spec fn view(&self) -> LayoutModel
        decreases self,
    {
        match self {
            Layout::Fixed(w) => LayoutModel::Fixed(w@),
            Layout::Struct(fields) => LayoutModel::Struct(
                Seq::new(
                    fields.len() as nat,
                    |i: int|
                        if 0 <= i < fields.len() {
                            (fields[i].selector@, fields[i].layout.view())
                        } else {
                            (Seq::empty(), LayoutModel::ByteString)
                        },
                ),
            ),
            Layout::Enum(items) => LayoutModel::Enum(
                Seq::new(
                    items.len() as nat,
                    |i: int|
                        if 0 <= i < items.len() {
                            items[i].view()
                        } else {
                            LayoutModel::ByteString
                        },
                ),
            ),
            Layout::Tuple(items) => LayoutModel::Tuple(
                Seq::new(
                    items.len() as nat,
                    |i: int|
                        if 0 <= i < items.len() {
                            items[i].view()
                        } else {
                            LayoutModel::ByteString
                        },
                ),
            ),
            Layout::Array(t) => LayoutModel::Array(Box::new(t.view())),
            Layout::ByteString => LayoutModel::ByteString,
            Layout::Custom(n) => LayoutModel::Custom(n@),
        }
    }
}

/// The views of a sequence of layouts.
pub open spec fn layout_views(v: Seq<Layout>) -> Seq<LayoutModel> {
    Seq::new(v.len(), |k: int| v[k]@)
}

/// Why a type cannot take part in a layout.
#[derive(PartialEq, Eq, Structural, Clone, Copy, Debug)]
pub enum TypeIssue {
    /// A dynamically sized part (array, byte string, option) in a packed layout.
    Dynamic,
    /// `usize`, whose width depends on the architecture, where a fixed width is needed.
    ArchitectureDependent,
    /// An option of a tuple.
    OptionOfTuple,
}

/// A declared field of a record: its name, its type text, and whether it is
/// part of the record's key.
#[derive(Clone, Debug)]
pub struct Member {
    pub name: String,
    pub ty: String,
    pub key: bool,
}

/// A member as mathematical values.
pub struct MemberModel {
    pub name: Seq<char>,
    pub ty: Seq<char>,
    pub key: bool,
}

impl Member {
    pub open spec fn view(&self) -> MemberModel {
        MemberModel { name: self.name@, ty: self.ty@, key: self.key }
    }
}

/// The views of a sequence of members.
pub open spec fn member_views(v: Seq<Member>) -> Seq<MemberModel> {
    Seq::new(v.len(), |k: int| v[k]@)
}

/// A problem found in a declaration. Indices are positions in the declared
/// member (or variant) list.
#[derive(PartialEq, Eq, Structural, Clone, Copy, Debug)]
pub enum Diagnostic {
    /// The declared name holds a character other than a letter, digit or `_`.
    NameError,
    /// This key member comes after a member that is not a key.
    OrderingError { index: usize },
    /// A record that needs keys has none.
    EmptyKeysError,
    /// A record that needs values has none.
    EmptyValuesError,
    /// This member's type is not accepted where it stands.
    UnsupportedTypeError { index: usize },
    /// This member or variant cannot be packed.
    PackingError { index: usize },
    /// Both the loose and the packed derivation were requested.
    ConflictError,
}

/// The packed widths of a custom type, once its own packed layout is known.
pub struct ResolvedLayout {
    pub name: String,
    pub widths: Vec<u8>,
}

impl ResolvedLayout {
    pub open spec fn view(&self) -> (Seq<char>, Seq<u8>) {
        (self.name@, self.widths@)
    }
}

/// The views of a sequence of resolved layouts.
pub open spec fn resolved_views(v: Seq<ResolvedLayout>) -> Seq<(Seq<char>, Seq<u8>)> {
    Seq::new(v.len(), |k: int| v[k]@)
}

} // verus!
