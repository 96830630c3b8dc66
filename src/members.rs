use vstd::prelude::*;

use crate::types::{member_views, Member, MemberModel};

verus! {

/// The members whose key flag is `key`, in declared order.
pub open spec fn members_with(ms: Seq<MemberModel>, key: bool) -> Seq<MemberModel>
    decreases ms.len(),
{
    if ms.len() == 0 {
        Seq::empty()
    } else {
        members_with(ms.subrange(0, ms.len() - 1), key) + (if ms[ms.len() - 1].key == key {
            seq![ms[ms.len() - 1]]
        } else {
            Seq::empty()
        })
    }
}

/// Type texts joined with `", "`.
pub open spec fn joined(tys: Seq<Seq<char>>) -> Seq<char>
    decreases tys.len(),
{
    if tys.len() == 0 {
        Seq::empty()
    } else if tys.len() == 1 {
        tys[0]
    } else {
        joined(tys.subrange(0, tys.len() - 1)) + seq![',', ' '] + tys[tys.len() - 1]
    }
}

/// The composite key type: the key's own type when there is one key, the
/// tuple of the key types otherwise.
pub open spec fn key_type_text(keys: Seq<MemberModel>) -> Seq<char> {
    let tys = keys.map_values(|m: MemberModel| m.ty);
    if keys.len() == 1 {
        keys[0].ty
    } else {
        seq!['('] + joined(tys) + seq![')']
    }
}

/// The line that serializes a member, read from `self` or from a snapshot.
pub open spec fn serialize_line(name: Seq<char>, with_self: bool) -> Seq<char> {
    "core::serde::Serde::serialize("@ + (if with_self {
        "self."@
    } else {
        "@"@
    }) + name + ", ref serialized);\n"@
}

/// A copy of a member.
pub fn copy_member(m: &Member) -> (r: Member)
    ensures
        r@ == m@,
{
    Member { name: m.name.clone(), ty: m.ty.clone(), key: m.key }
}

/// Splits members into keys and values, both in declared order.
pub fn split_members(members: &Vec<Member>) -> (r: (Vec<Member>, Vec<Member>))
    ensures
        member_views(r.0@) == members_with(member_views(members@), true),
        member_views(r.1@) == members_with(member_views(members@), false),
{
    let ghost ms = member_views(members@);
    let mut keys: Vec<Member> = Vec::new();
    let mut values: Vec<Member> = Vec::new();
    let mut i: usize = 0;
    assert(member_views(keys@) =~= Seq::<MemberModel>::empty());
    assert(member_views(values@) =~= Seq::<MemberModel>::empty());
    while i < members.len()
        invariant
            i <= members@.len(),
            ms == member_views(members@),
            member_views(keys@) == members_with(ms.subrange(0, i as int), true),
            member_views(values@) == members_with(ms.subrange(0, i as int), false),
        decreases members.len() - i,
    {
        let m = copy_member(&members[i]);
        let ghost mk = member_views(keys@);
        let ghost mv = member_views(values@);
        assert(ms.subrange(0, i + 1).subrange(0, i as int) =~= ms.subrange(0, i as int));
        assert(ms.subrange(0, i + 1)[i as int] == m@);
        if m.key {
            keys.push(m);
            assert(member_views(keys@) =~= mk.push(ms[i as int]));
            assert(member_views(values@) =~= mv);
        } else {
            values.push(m);
            assert(member_views(values@) =~= mv.push(ms[i as int]));
            assert(member_views(keys@) =~= mk);
        }
        i = i + 1;
    }
    assert(ms.subrange(0, members@.len() as int) =~= ms);
    (keys, values)
}

/// The composite key type of the given keys.
pub fn build_key_type(keys: &Vec<Member>) -> (r: String)
    ensures
        r@ == key_type_text(member_views(keys@)),
{
    let ghost ks = member_views(keys@);
    let ghost tys = ks.map_values(|m: MemberModel| m.ty);
    if keys.len() == 1 {
        return keys[0].ty.clone();
    }
    let mut r = "(".to_owned();
    let mut i: usize = 0;
    proof {
        reveal_strlit("(");
        reveal_strlit(", ");
        reveal_strlit(")");
    }
    assert(tys.subrange(0, 0) =~= Seq::<Seq<char>>::empty());
    while i < keys.len()
        invariant
            i <= keys@.len(),
            ks == member_views(keys@),
            tys == ks.map_values(|m: MemberModel| m.ty),
            r@ == seq!['('] + joined(tys.subrange(0, i as int)),
        decreases keys.len() - i,
    {
        assert(tys.subrange(0, i + 1).subrange(0, i as int) =~= tys.subrange(0, i as int));
        assert(tys.subrange(0, i + 1)[i as int] == keys@[i as int].ty@);
        proof {
            reveal_strlit(", ");
        }
        if i > 0 {
            r.append(", ");
        }
        r.append(keys[i].ty.as_str());
        i = i + 1;
        assert(r@ =~= seq!['('] + joined(tys.subrange(0, i as int)));
    }
    assert(tys.subrange(0, keys@.len() as int) =~= tys);
    r.append(")");
    r
}

/// The line that serializes a member into `serialized`.
pub fn serialize_member_ty(member: &Member, with_self: bool) -> (r: String)
    ensures
        r@ == serialize_line(member.name@, with_self),
{
    let mut r = "core::serde::Serde::serialize(".to_owned();
    if with_self {
        r.append("self.");
    } else {
        r.append("@");
    }
    r.append(member.name.as_str());
    r.append(", ref serialized);\n");
    r
}

/// Writes the serialization code of members.
pub struct DojoSerializer {}

impl DojoSerializer {
    /// The line that serializes a member into `serialized`.
    pub fn serialize_member_ty(member: &Member, with_self: bool) -> (r: String)
        ensures
            r@ == serialize_line(member.name@, with_self),
    {
        serialize_member_ty(member, with_self)
    }
}

/// Writes the serialization code of events.
pub struct DojoEvent {}

impl DojoEvent {
    /// The serialization lines of the key members and of the value members,
    /// each list in declared order.
    pub fn serialize_keys_and_values(members: &Vec<Member>) -> (r: (Vec<String>, Vec<String>))
        ensures
            r.0@.len() == members_with(member_views(members@), true).len(),
            r.1@.len() == members_with(member_views(members@), false).len(),
            forall|i: int|
                0 <= i < r.0@.len() ==> (#[trigger] r.0@[i])@ == serialize_line(
                    members_with(member_views(members@), true)[i].name,
                    true,
                ),
            forall|i: int|
                0 <= i < r.1@.len() ==> (#[trigger] r.1@[i])@ == serialize_line(
                    members_with(member_views(members@), false)[i].name,
                    true,
                ),
    {
        let ghost ms = member_views(members@);
        let mut keys: Vec<String> = Vec::new();
        let mut values: Vec<String> = Vec::new();
        let mut i: usize = 0;
        while i < members.len()
            invariant
                i <= members@.len(),
                ms == member_views(members@),
                keys@.len() == members_with(ms.subrange(0, i as int), true).len(),
                values@.len() == members_with(ms.subrange(0, i as int), false).len(),
                forall|k: int|
                    0 <= k < keys@.len() ==> (#[trigger] keys@[k])@ == serialize_line(
                        members_with(ms.subrange(0, i as int), true)[k].name,
                        true,
                    ),
                forall|k: int|
                    0 <= k < values@.len() ==> (#[trigger] values@[k])@ == serialize_line(
                        members_with(ms.subrange(0, i as int), false)[k].name,
                        true,
                    ),
            decreases members.len() - i,
        {
            let m = &members[i];
            assert(ms.subrange(0, i + 1).subrange(0, i as int) =~= ms.subrange(0, i as int));
            assert(ms.subrange(0, i + 1)[i as int] == m@);
            let line = serialize_member_ty(m, true);
            if m.key {
                keys.push(line);
            } else {
                values.push(line);
            }
            i = i + 1;
        }
        assert(ms.subrange(0, members@.len() as int) =~= ms);
        (keys, values)
    }
}

} // verus!
