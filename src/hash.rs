use vstd::prelude::*;
use vstd::string::StrSliceExecFns;

use crate::classify::{chars_of, trim_end, trim_start};
use crate::types::{member_views, Member, MemberModel};

verus! {

/// What `dojo_types::naming::compute_bytearray_hash` returns for a string, as
/// big-endian bytes.
pub uninterp spec fn bytearray_hash_of(s: Seq<char>) -> Seq<u8>;

/// What `starknet_crypto::poseidon_hash_many` returns for a sequence of field
/// elements given as big-endian bytes, as big-endian bytes.
pub uninterp spec fn poseidon_hash_of(items: Seq<Seq<u8>>) -> Seq<u8>;

/// What `starknet_core::utils::get_selector_from_name` returns for an ASCII
/// name, as big-endian bytes.
pub uninterp spec fn selector_of(name: Seq<char>) -> Seq<u8>;

#[verifier::external_type_specification]
#[verifier::external_body]
pub struct ExNonAsciiNameError(starknet_core::utils::NonAsciiNameError);

/// Relies on `dojo_types::naming::compute_bytearray_hash`, which hashes the
/// Cairo byte-array encoding of the string with Poseidon, a function of the
/// string alone.
#[verifier::external_body]
pub(crate) fn bytearray_hash(s: &str) -> (r: [u8; 32])
    ensures
        r@ == bytearray_hash_of(s@),
{
    dojo_types::naming::compute_bytearray_hash(s).to_bytes_be()
}

/// Relies on `starknet_crypto::poseidon_hash_many`, a function of the field
/// elements alone, each read from its big-endian bytes.
#[verifier::external_body]
fn poseidon_hash_many(items: &Vec<[u8; 32]>) -> (r: [u8; 32])
    ensures
        r@ == poseidon_hash_of(items@.map_values(|x: [u8; 32]| x@)),
{
    let felts: Vec<starknet_crypto::Felt> = items.iter().map(
        |b| starknet_crypto::Felt::from_bytes_be(b),
    ).collect();
    starknet_crypto::poseidon_hash_many(&felts).to_bytes_be()
}

/// Relies on `starknet_core::utils::get_selector_from_name`, which succeeds
/// exactly on ASCII names, with the Starknet Keccak of the name (zero for the
/// default entry point names).
#[verifier::external_body]
fn selector_from_name(name: &str) -> (r: Result<[u8; 32], starknet_core::utils::NonAsciiNameError>)
    ensures
        r is Ok == vstd::string::is_ascii(name),
        r is Ok ==> r->Ok_0@ == selector_of(name@),
{
    match starknet_core::utils::get_selector_from_name(name) {
        Ok(f) => Ok(f.to_bytes_be()),
        Err(e) => Err(e),
    }
}

/// The selector of a field name; `None` when the name is not ASCII.
pub fn selector(name: &str) -> (r: Option<[u8; 32]>)
    ensures
        r is Some == vstd::string::is_ascii(name),
        r is Some ==> r->0@ == selector_of(name@),
{
    match selector_from_name(name) {
        Ok(b) => Some(b),
        Err(_) => None,
    }
}

/// A text without its leading and trailing white space.
pub open spec fn trimmed(s: Seq<char>) -> Seq<char> {
    let a = trim_start(s, 0, s.len() as int);
    s.subrange(a, trim_end(s, a, s.len() as int))
}

/// The field element 0 or 1 that marks a packed declaration.
pub open spec fn packed_flag(is_packed: bool) -> Seq<u8> {
    Seq::new(32, |i: int| if i == 31 && is_packed { 1u8 } else { 0u8 })
}

/// The hash of one member: its name's hash and its trimmed type text's hash,
/// hashed together.
pub open spec fn member_hash(m: MemberModel) -> Seq<u8> {
    poseidon_hash_of(seq![bytearray_hash_of(m.name), bytearray_hash_of(trimmed(m.ty))])
}

/// What the fingerprint hashes: the packed flag, the hash of the declared
/// name, then one hash per member in declared order.
pub open spec fn fingerprint_input(is_packed: bool, name: Seq<char>, members: Seq<MemberModel>) -> Seq<
    Seq<u8>,
> {
    seq![packed_flag(is_packed), bytearray_hash_of(name)] + members.map_values(
        |m: MemberModel| member_hash(m),
    )
}

/// The fingerprint of a declaration.
pub open spec fn fingerprint(is_packed: bool, name: Seq<char>, members: Seq<MemberModel>) -> Seq<u8> {
    poseidon_hash_of(fingerprint_input(is_packed, name, members))
}

/// The text without leading and trailing white space.
pub fn trim_text(s: &str) -> (r: String)
    ensures
        r@ == trimmed(s@),
{
    let cs = chars_of(s);
    let a = crate::classify::trim_start_at(&cs, 0, cs.len());
    let b = crate::classify::trim_end_at(&cs, a, cs.len());
    s.substring_char(a, b).to_owned()
}

fn flag_bytes(is_packed: bool) -> (r: [u8; 32])
    ensures
        r@ == packed_flag(is_packed),
{
    let last: u8 = if is_packed {
        1
    } else {
        0
    };
    let r = [
        0u8, 0u8, 0u8, 0u8, 0u8, 0u8, 0u8, 0u8, 0u8, 0u8, 0u8, 0u8, 0u8, 0u8, 0u8, 0u8,
        0u8, 0u8, 0u8, 0u8, 0u8, 0u8, 0u8, 0u8, 0u8, 0u8, 0u8, 0u8, 0u8, 0u8, 0u8, last,
    ];
    assert(r@ =~= packed_flag(is_packed));
    r
}

/// The hash of one member.
fn hash_member(m: &Member) -> (r: [u8; 32])
    ensures
        r@ == member_hash(m@),
{
    let ty = trim_text(m.ty.as_str());
    let parts = vec![bytearray_hash(m.name.as_str()), bytearray_hash(ty.as_str())];
    let ghost pv = parts@.map_values(|x: [u8; 32]| x@);
    assert(pv =~= seq![bytearray_hash_of(m.name@), bytearray_hash_of(trimmed(m.ty@))]);
    poseidon_hash_many(&parts)
}

/// The fingerprint of a declaration: a hash over the packed flag, the
/// declared name, and each member's name and type text in declared order.
pub fn compute_unique_hash(element_name: &str, is_packed: bool, members: &Vec<Member>) -> (r: [u8; 32])
    ensures
        r@ == fingerprint(is_packed, element_name@, member_views(members@)),
{
    let ghost ms = member_views(members@);
    let mut hashes: Vec<[u8; 32]> = vec![flag_bytes(is_packed), bytearray_hash(element_name)];
    let mut i: usize = 0;
    while i < members.len()
        invariant
            i <= members@.len(),
            ms == member_views(members@),
            hashes@.map_values(|x: [u8; 32]| x@) == seq![
                packed_flag(is_packed),
                bytearray_hash_of(element_name@),
            ] + ms.subrange(0, i as int).map_values(|m: MemberModel| member_hash(m)),
        decreases members.len() - i,
    {
        let h = hash_member(&members[i]);
        let ghost before = hashes@.map_values(|x: [u8; 32]| x@);
        hashes.push(h);
        assert(hashes@.map_values(|x: [u8; 32]| x@) =~= before.push(h@));
        assert(ms.subrange(0, i + 1).map_values(|m: MemberModel| member_hash(m)) =~= ms.subrange(
            0,
            i as int,
        ).map_values(|m: MemberModel| member_hash(m)).push(member_hash(ms[i as int])));
        i = i + 1;
    }
    assert(ms.subrange(0, members@.len() as int) =~= ms);
    poseidon_hash_many(&hashes)
}

} // verus!
