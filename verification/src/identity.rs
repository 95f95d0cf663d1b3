//! Identifiers: random ones, ones derived from a name, and their text forms.
use std::collections::HashSet;
use vstd::prelude::*;
use vstd::string::*;

verus! {

/// The lower-case hexadecimal digit of `d`, for `d` below sixteen.
pub open spec fn hex_digit(d: nat) -> char {
    if d < 10 {
        ((48 + d) as u8) as char
    } else {
        ((87 + d) as u8) as char
    }
}

/// The last `width` hexadecimal digits of `value`, most significant first.
pub open spec fn hex_digits(value: nat, width: nat) -> Seq<char> {
    Seq::new(width, |i: int| hex_digit((value / pow16((width - 1 - i) as nat)) % 16))
}

/// Sixteen to the power `n`.
pub open spec fn pow16(n: nat) -> nat
    decreases n,
{
    if n == 0 {
        1
    } else {
        16 * pow16((n - 1) as nat)
    }
}

/// The hyphenated text form of an identifier: groups of 8, 4, 4, 4 and 12
/// hexadecimal digits.
pub open spec fn hyphenated(id: u128) -> Seq<char> {
    let hex = hex_digits(id as nat, 32);
    hex.subrange(0, 8) + seq!['-'] + hex.subrange(8, 12) + seq!['-'] + hex.subrange(12, 16)
        + seq!['-'] + hex.subrange(16, 20) + seq!['-'] + hex.subrange(20, 32)
}

/// Two hexadecimal digits for each byte.
pub open spec fn hex_bytes(bytes: Seq<u8>) -> Seq<char> {
    Seq::new(
        2 * bytes.len(),
        |i: int|
            if i % 2 == 0 {
                hex_digit(bytes[i / 2] as nat / 16)
            } else {
                hex_digit(bytes[i / 2] as nat % 16)
            },
    )
}

/// Whether the version and variant bits are those of a random (version 4)
/// identifier.
pub open spec fn is_random_id(id: u128) -> bool {
    &&& (id as nat / pow16(19)) % 16 == 4
    &&& 8 <= (id as nat / pow16(15)) % 16 < 12
}

/// `uuid::Uuid::new_v4`: a random identifier, of which only the version and
/// variant bits are known.
#[verifier::external_body]
pub(crate) fn random_id() -> (id: u128)
    ensures
        is_random_id(id),
{
    uuid::Uuid::new_v4().as_u128()
}

/// The namespace of ISO object identifiers (RFC 9562).
pub const NAMESPACE_OID: u128 = 0x6ba7_b812_9dad_11d1_80b4_00c0_4fd4_30c8;

/// The identifier that `uuid::Uuid::new_v5` derives from a name within a
/// namespace.
pub uninterp spec fn named_id(namespace: u128, name: Seq<char>) -> u128;

/// `uuid::Uuid::new_v5` of a name's UTF-8 bytes within a namespace.
#[verifier::external_body]
pub(crate) fn derive_id(namespace: u128, name: &str) -> (id: u128)
    ensures
        id == named_id(namespace, name@),
{
    uuid::Uuid::new_v5(&uuid::Uuid::from_u128(namespace), name.as_bytes()).as_u128()
}

/// The display format of `uuid::Uuid`: the hyphenated lower-case form.
#[verifier::external_body]
pub(crate) fn id_text(id: u128) -> (text: String)
    ensures
        text@ == hyphenated(id),
{
    uuid::Uuid::from_u128(id).to_string()
}

/// The identifier `steps` after `from`, which starts over after the largest.
spec fn stepped(from: u128, steps: nat) -> int {
    (from + steps) % (u128::MAX + 1)
}

/// As many identifiers in a row as there are used ones, and one more, are not
/// all used.
proof fn lemma_not_all_used(from: u128, used: Set<u128>, tried: nat)
    requires
        used.finite(),
        tried <= 0x1_0000_0000_0000_0000,
        forall|k: nat| k < tried ==> used.contains(#[trigger] stepped(from, k) as u128),
    ensures
        tried <= used.len(),
{
    let row = Seq::new(tried, |k: int| stepped(from, k as nat) as u128);
    assert forall|a: int, b: int| 0 <= a < tried && 0 <= b < tried && a != b implies row[a]
        != row[b] by {
        assert(stepped(from, a as nat) != stepped(from, b as nat));
    }
    assert(row.no_duplicates());
    row.unique_seq_to_set();
    assert(row.to_set().subset_of(used)) by {
        assert forall|v: u128| row.to_set().contains(v) implies used.contains(v) by {
            let k = row.index_of(v);
            assert(row[k] == v);
            assert(used.contains(stepped(from, k as nat) as u128));
        }
    }
    vstd::set_lib::lemma_len_subset(row.to_set(), used);
}

/// The drawn identifier where it is free, otherwise the next free one.
pub(crate) fn free_id(drawn: u128, used: &HashSet<u128>, size: usize) -> (id: u128)
    requires
        used@.finite(),
        used@.len() <= size,
    ensures
        !used@.contains(id),
        !used@.contains(drawn) ==> id == drawn,
{
    broadcast use vstd::std_specs::hash::group_hash_axioms;

    let mut id: u128 = drawn;
    let ghost mut tried: nat = 0;
    while used.contains(&id)
        invariant
            used@.finite(),
            used@.len() <= size,
            id == stepped(drawn, tried),
            tried <= used@.len(),
            tried > 0 ==> used@.contains(drawn),
            forall|k: nat| k < tried ==> used@.contains(#[trigger] stepped(drawn, k) as u128),
        decreases used@.len() - tried,
    {
        proof {
            assert(tried == 0 ==> stepped(drawn, 0) == drawn);
            lemma_not_all_used(drawn, used@, tried + 1);
            tried = tried + 1;
        }
        id = id.wrapping_add(1);
    }
    id
}

/// Whether `ids` are all different, and are the drawn ones where those are.
pub open spec fn made_distinct(drawn: Seq<u128>, ids: Seq<u128>) -> bool {
    &&& ids.len() == drawn.len()
    &&& ids.no_duplicates()
    &&& drawn.no_duplicates() ==> ids == drawn
}

/// Makes drawn identifiers distinct: one that occurred before is replaced by the
/// next free one.
pub(crate) fn distinct_ids(drawn: &Vec<u128>) -> (ids: Vec<u128>)
    ensures
        made_distinct(drawn@, ids@),
{
    broadcast use vstd::std_specs::hash::group_hash_axioms;

    let mut used: HashSet<u128> = HashSet::new();
    let mut ids: Vec<u128> = Vec::new();
    let mut k: usize = 0;
    while k < drawn.len()
        invariant
            k <= drawn@.len(),
            ids@.len() == k,
            ids@.no_duplicates(),
            used@.finite(),
            used@.len() == k,
            forall|id: u128| #[trigger] used@.contains(id) <==> ids@.contains(id),
            drawn@.no_duplicates() ==> ids@ == drawn@.take(k as int),
        decreases drawn.len() - k,
    {
        let ghost before = ids@;
        let id: u128 = free_id(drawn[k], &used, k);
        proof {
            if drawn@.no_duplicates() {
                if used@.contains(drawn@[k as int]) {
                    assert(before.contains(drawn@[k as int]));
                    let j = before.index_of(drawn@[k as int]);
                    assert(drawn@[j] == drawn@[k as int]);
                }
                assert(before.push(id) =~= drawn@.take(k + 1));
            }
            assert(!before.contains(id));
        }
        used.insert(id);
        ids.push(id);
        proof {
            assert forall|other: u128| #[trigger] used@.contains(other) <==> ids@.contains(other) by {
                if before.contains(other) {
                    let j = before.index_of(other);
                    assert(ids@[j] == other);
                }
                if other == id {
                    assert(ids@[k as int] == id);
                }
                if ids@.contains(other) && other != id {
                    let j = ids@.index_of(other);
                    assert(before[j] == other);
                }
            }
        }
        k = k + 1;
    }
    assert(drawn@.take(drawn@.len() as int) =~= drawn@);
    ids
}

/// A fresh random identifier in text form.
pub fn fresh_id_text() -> (text: String)
    ensures
        exists|id: u128| is_random_id(id) && text@ == #[trigger] hyphenated(id),
{
    let id: u128 = random_id();
    id_text(id)
}

/// The SHA-256 digest of a text's UTF-8 bytes.
pub uninterp spec fn sha256(text: Seq<char>) -> Seq<u8>;

/// `sha2::Sha256::digest` of a text's UTF-8 bytes: 32 bytes.
#[verifier::external_body]
pub(crate) fn sha256_digest(text: &str) -> (digest: Vec<u8>)
    ensures
        digest@ == sha256(text@),
        digest@.len() == 32,
{
    <sha2::Sha256 as sha2::Digest>::digest(text.as_bytes()).to_vec()
}

/// `hex::encode`: two lower-case hexadecimal digits for each byte.
#[verifier::external_body]
pub(crate) fn hex_encode(bytes: &Vec<u8>) -> (text: String)
    ensures
        text@ == hex_bytes(bytes@),
{
    hex::encode(bytes)
}

} // verus!
