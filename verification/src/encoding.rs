//! Byte encodings: big-endian integers, NFT properties of land units and
//! estates, and the derivation of module accounts from a pallet identifier.
use vstd::prelude::*;

use crate::types::{AccountId, Attributes, EstateId, MetaverseId, NftMetadata, PalletId};

verus! {

/// The big-endian bytes of a 32-bit unsigned value.
pub open spec fn be_u32(v: u32) -> Seq<u8> {
    seq![(v >> 24u32) as u8, (v >> 16u32) as u8, (v >> 8u32) as u8, v as u8]
}

/// The big-endian bytes of a 32-bit signed value (its two's complement).
pub open spec fn be_i32(v: i32) -> Seq<u8> {
    be_u32(v as u32)
}

/// The big-endian bytes of a 64-bit unsigned value.
pub open spec fn be_u64(v: u64) -> Seq<u8> {
    seq![
        (v >> 56u64) as u8,
        (v >> 48u64) as u8,
        (v >> 40u64) as u8,
        (v >> 32u64) as u8,
        (v >> 24u64) as u8,
        (v >> 16u64) as u8,
        (v >> 8u64) as u8,
        v as u8,
    ]
}

/// The little-endian bytes of a 64-bit unsigned value.
pub open spec fn le_u64(v: u64) -> Seq<u8> {
    be_u64(v).reverse()
}

/// `i32::to_be_bytes`.
pub fn i32_be_bytes(v: i32) -> (r: Vec<u8>)
    ensures
        r@ == be_i32(v),
{
    let u = v as u32;
    let r = vec![(u >> 24u32) as u8, (u >> 16u32) as u8, (u >> 8u32) as u8, u as u8];
    assert(r@ =~= be_i32(v));
    r
}

/// `u64::to_be_bytes`.
pub fn u64_be_bytes(v: u64) -> (r: Vec<u8>)
    ensures
        r@ == be_u64(v),
{
    let r = vec![
        (v >> 56u64) as u8,
        (v >> 48u64) as u8,
        (v >> 40u64) as u8,
        (v >> 32u64) as u8,
        (v >> 24u64) as u8,
        (v >> 16u64) as u8,
        (v >> 8u64) as u8,
        v as u8,
    ];
    assert(r@ =~= be_u64(v));
    r
}

/// The attribute key `MetaverseId:`.
pub open spec fn metaverse_id_label() -> Seq<u8> {
    seq![77u8, 101, 116, 97, 118, 101, 114, 115, 101, 73, 100, 58]
}

/// The attribute key `Coordinate:`.
pub open spec fn coordinate_label() -> Seq<u8> {
    seq![67u8, 111, 111, 114, 100, 105, 110, 97, 116, 101, 58]
}

/// The attribute key `Estate Id:`.
pub open spec fn estate_id_label() -> Seq<u8> {
    seq![69u8, 115, 116, 97, 116, 101, 32, 73, 100, 58]
}

fn metaverse_id_label_bytes() -> (r: Vec<u8>)
    ensures
        r@ == metaverse_id_label(),
{
    let r = vec![77u8, 101, 116, 97, 118, 101, 114, 115, 101, 73, 100, 58];
    assert(r@ =~= metaverse_id_label());
    r
}

fn coordinate_label_bytes() -> (r: Vec<u8>)
    ensures
        r@ == coordinate_label(),
{
    let r = vec![67u8, 111, 111, 114, 100, 105, 110, 97, 116, 101, 58];
    assert(r@ =~= coordinate_label());
    r
}

fn estate_id_label_bytes() -> (r: Vec<u8>)
    ensures
        r@ == estate_id_label(),
{
    let r = vec![69u8, 115, 116, 97, 116, 101, 32, 73, 100, 58];
    assert(r@ =~= estate_id_label());
    r
}

/// Attributes as byte sequences.
pub open spec fn attributes_view(a: Attributes) -> Seq<(Seq<u8>, Seq<u8>)> {
    a@.map_values(|p: (Vec<u8>, Vec<u8>)| (p.0@, p.1@))
}

/// No key occurs twice among the attributes `a`.
pub open spec fn keys_distinct(a: Seq<(Seq<u8>, Seq<u8>)>) -> bool {
    forall|i: int, j: int| 0 <= i < a.len() && 0 <= j < a.len() && i != j ==> #[trigger] a[i].0 != #[trigger] a[j].0
}

/// The bytes that name a land unit's coordinate.
pub open spec fn coordinate_bytes(coordinate: (i32, i32)) -> Seq<u8> {
    be_i32(coordinate.0) + be_i32(coordinate.1)
}

/// The metadata of a land unit's NFT: its coordinate.
pub open spec fn land_token_metadata(coordinate: (i32, i32)) -> Seq<u8> {
    coordinate_bytes(coordinate)
}

/// The attributes of a land unit's NFT, in key order.
pub open spec fn land_token_attributes(metaverse_id: MetaverseId, coordinate: (i32, i32)) -> Seq<
    (Seq<u8>, Seq<u8>),
> {
    seq![
        (coordinate_label(), coordinate_bytes(coordinate)),
        (metaverse_id_label(), be_u64(metaverse_id)),
    ]
}

/// The metadata of an estate's NFT: its metaverse, then its identifier.
pub open spec fn estate_token_metadata(metaverse_id: MetaverseId, estate_id: EstateId) -> Seq<u8> {
    be_u64(metaverse_id) + be_u64(estate_id)
}

/// The attributes of an estate's NFT, in key order.
pub open spec fn estate_token_attributes(metaverse_id: MetaverseId, estate_id: EstateId) -> Seq<
    (Seq<u8>, Seq<u8>),
> {
    seq![(estate_id_label(), be_u64(estate_id)), (metaverse_id_label(), be_u64(metaverse_id))]
}

fn concat(a: Vec<u8>, b: Vec<u8>) -> (r: Vec<u8>)
    ensures
        r@ == a@ + b@,
{
    let mut a = a;
    let mut b = b;
    a.append(&mut b);
    a
}

/// The NFT metadata and attributes of the land unit at `coordinate`.
pub fn get_land_token_properties(metaverse_id: MetaverseId, coordinate: (i32, i32)) -> (r: (
    NftMetadata,
    Attributes,
))
    ensures
        r.0@ == land_token_metadata(coordinate),
        attributes_view(r.1) == land_token_attributes(metaverse_id, coordinate),
        keys_distinct(attributes_view(r.1)),
{
    let land_coordinate_attribute = concat(i32_be_bytes(coordinate.0), i32_be_bytes(coordinate.1));
    let nft_metadata = concat(Vec::new(), land_coordinate_attribute.clone());
    let mut nft_attributes: Attributes = Vec::new();
    nft_attributes.push((coordinate_label_bytes(), land_coordinate_attribute));
    nft_attributes.push((metaverse_id_label_bytes(), u64_be_bytes(metaverse_id)));
    assert(attributes_view(nft_attributes) =~= land_token_attributes(metaverse_id, coordinate));
    assert(coordinate_label()[0] != metaverse_id_label()[0]);
    (nft_metadata, nft_attributes)
}

/// The NFT metadata and attributes of estate `estate_id` in `metaverse_id`.
pub fn get_estate_token_properties(metaverse_id: MetaverseId, estate_id: EstateId) -> (r: (
    NftMetadata,
    Attributes,
))
    ensures
        r.0@ == estate_token_metadata(metaverse_id, estate_id),
        attributes_view(r.1) == estate_token_attributes(metaverse_id, estate_id),
        keys_distinct(attributes_view(r.1)),
{
    let nft_metadata = concat(u64_be_bytes(metaverse_id), u64_be_bytes(estate_id));
    let mut nft_attributes: Attributes = Vec::new();
    nft_attributes.push((estate_id_label_bytes(), u64_be_bytes(estate_id)));
    nft_attributes.push((metaverse_id_label_bytes(), u64_be_bytes(metaverse_id)));
    assert(attributes_view(nft_attributes) =~= estate_token_attributes(metaverse_id, estate_id));
    assert(estate_id_label()[0] != metaverse_id_label()[0]);
    (nft_metadata, nft_attributes)
}

/// A one-entry attribute set `[x, x + 5] -> [x, x + 10]`.
pub fn test_attributes(x: u8) -> (r: Attributes)
    requires
        x + 10 <= u8::MAX,
    ensures
        attributes_view(r) == seq![(seq![x, (x + 5) as u8], seq![x, (x + 10) as u8])],
        keys_distinct(attributes_view(r)),
{
    let mut attr: Attributes = Vec::new();
    attr.push((vec![x, x + 5], vec![x, x + 10]));
    assert(attributes_view(attr) =~= seq![(seq![x, (x + 5) as u8], seq![x, (x + 10) as u8])]);
    attr
}

/// The tag that prefixes every module account: `modl`.
pub open spec fn module_tag() -> Seq<u8> {
    seq![109u8, 111, 100, 108]
}

/// The value of little-endian bytes.
pub open spec fn le_value(s: Seq<u8>) -> nat
    decreases s.len(),
{
    if s.len() == 0 {
        0
    } else {
        s[0] as nat + 256 * le_value(s.drop_first())
    }
}

/// `256` to the power `n`.
pub open spec fn pow256(n: nat) -> nat
    decreases n,
{
    if n == 0 {
        1
    } else {
        256 * pow256((n - 1) as nat)
    }
}

proof fn lemma_le_value_bound(s: Seq<u8>)
    ensures
        le_value(s) < pow256(s.len()),
    decreases s.len(),
{
    if s.len() > 0 {
        lemma_le_value_bound(s.drop_first());
    }
}

/// Decoding a byte string into an account: its first sixteen bytes, padded with
/// zeros where it is shorter, read as a little-endian number.
pub open spec fn decode_account(encoded: Seq<u8>) -> AccountId {
    le_value((encoded + Seq::new(16, |i: int| 0u8)).take(16)) as AccountId
}

/// The account of a pallet: `modl` and the pallet identifier, decoded.
pub open spec fn pallet_account(id: PalletId) -> AccountId {
    decode_account(module_tag() + id.0@)
}

/// The sub-account of a pallet: `modl`, the pallet identifier and the
/// little-endian bytes of `sub`, decoded.
pub open spec fn pallet_sub_account(id: PalletId, sub: u64) -> AccountId {
    decode_account(module_tag() + id.0@ + le_u64(sub))
}

/// Reads sixteen little-endian bytes as an account.
fn decode_sixteen(b: &Vec<u8>) -> (r: AccountId)
    requires
        b@.len() == 16,
    ensures
        r == le_value(b@),
{
    let mut v: u128 = 0;
    let mut i: usize = 16;
    proof {
        reveal_with_fuel(pow256, 17);
        assert(pow256(15) == 0x1_0000_0000_0000_0000_0000_0000_0000_00);
        assert(b@.subrange(16, 16) =~= Seq::<u8>::empty());
    }
    while i > 0
        invariant
            i <= 16,
            b@.len() == 16,
            v == le_value(b@.subrange(i as int, 16)),
            pow256(15) == 0x1_0000_0000_0000_0000_0000_0000_0000_00,
        decreases i,
    {
        let ghost rest = b@.subrange(i as int, 16);
        proof {
            lemma_le_value_bound(rest);
            lemma_pow256_monotone(rest.len(), 15);
        }
        i = i - 1;
        let byte = b[i];
        v = byte as u128 + 256 * v;
        proof {
            let s = b@.subrange(i as int, 16);
            assert(s.drop_first() =~= rest);
        }
    }
    assert(b@.subrange(0, 16) =~= b@);
    v
}

proof fn lemma_pow256_monotone(a: nat, b: nat)
    requires
        a <= b,
    ensures
        pow256(a) <= pow256(b),
    decreases b,
{
    if a < b {
        lemma_pow256_monotone(a, (b - 1) as nat);
    }
}

/// The sixteen bytes `modl`, the pallet identifier, then four more bytes.
fn account_bytes(id: &PalletId, tail: [u8; 4]) -> (r: Vec<u8>)
    ensures
        r@ == module_tag() + id.0@ + tail@,
{
    let mut r: Vec<u8> = vec![109u8, 111, 100, 108];
    let mut i: usize = 0;
    while i < 8
        invariant
            i <= 8,
            r@ == module_tag() + id.0@.take(i as int),
        decreases 8 - i,
    {
        r.push(id.0[i]);
        i = i + 1;
        assert(r@ =~= module_tag() + id.0@.take(i as int));
    }
    let mut j: usize = 0;
    while j < 4
        invariant
            j <= 4,
            r@ == module_tag() + id.0@ + tail@.take(j as int),
        decreases 4 - j,
    {
        r.push(tail[j]);
        j = j + 1;
        assert(r@ =~= module_tag() + id.0@ + tail@.take(j as int));
    }
    assert(id.0@.take(8) =~= id.0@);
    assert(tail@.take(4) =~= tail@);
    r
}

/// The account of a pallet (`into_account` for sixteen-byte accounts).
pub fn into_account(id: &PalletId) -> (r: AccountId)
    ensures
        r == pallet_account(*id),
{
    let bytes = account_bytes(id, [0u8; 4]);
    proof {
        let enc = module_tag() + id.0@;
        assert((enc + Seq::new(16, |i: int| 0u8)).take(16) =~= bytes@);
    }
    decode_sixteen(&bytes)
}

/// The sub-account of a pallet for `sub` (`into_sub_account` for sixteen-byte
/// accounts).
pub fn into_sub_account(id: &PalletId, sub: u64) -> (r: AccountId)
    ensures
        r == pallet_sub_account(*id, sub),
{
    let tail: [u8; 4] = [sub as u8, (sub >> 8u64) as u8, (sub >> 16u64) as u8, (sub >> 24u64) as u8];
    let bytes = account_bytes(id, tail);
    proof {
        let enc = module_tag() + id.0@ + le_u64(sub);
        assert(le_u64(sub) =~= be_u64(sub).reverse());
        assert((enc + Seq::new(16, |i: int| 0u8)).take(16) =~= bytes@);
    }
    decode_sixteen(&bytes)
}

/// The account that collects NFT class deposits: the treasury pallet's account.
pub fn class_id_account(treasury: &PalletId) -> (r: AccountId)
    ensures
        r == pallet_account(*treasury),
{
    into_account(treasury)
}

} // verus!
