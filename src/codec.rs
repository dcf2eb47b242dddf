use vstd::prelude::*;

verus! {

/// Alphabet of the opaque identifiers.
pub const ALPHABET: &'static str = "ABCDEFGHJKLMNPQRSTUVWXYZ123456789abcdefghijkmnopqrstuvwxyz";

/// Shortest opaque identifier that is handed out.
pub const MIN_LENGTH: u8 = 6;

/// Base of the second number carried by every identifier; the entity's flag
/// is added to it.
pub const MAGIC_VALUE: u64 = 557;

/// Flag of user identifiers.
pub const USER_FLAG: u8 = 0;

/// Flag of structure identifiers.
pub const STRUCTURE_FLAG: u8 = 1;

#[verifier::external_type_specification]
#[verifier::external_body]
pub struct ExSqidsError(sqids::Error);

/// Why an identifier could not be encoded or decoded.
#[derive(Debug)]
pub enum SqidsError {
    InvalidID,
    Internal(sqids::Error),
}

/// What sqids makes of `numbers` under `alphabet` and `min_length`: the id,
/// or `None` where every candidate id is blocked.
pub uninterp spec fn sqid_of(alphabet: Seq<char>, min_length: u8, numbers: Seq<u64>) -> Option<
    Seq<char>,
>;

/// An id of at least `min_length` characters, each one from `alphabet`.
pub open spec fn is_sqid_shaped(id: Seq<char>, alphabet: Seq<char>, min_length: u8) -> bool {
    &&& id.len() >= min_length
    &&& forall|i: int| 0 <= i < id.len() ==> alphabet.contains(#[trigger] id[i])
}

/// What sqids reads back from `id` under `alphabet`.
pub uninterp spec fn numbers_of(alphabet: Seq<char>, id: Seq<char>) -> Seq<u64>;

/// An alphabet that sqids accepts: at least three characters, each one byte
/// long in UTF-8, no character twice.
pub open spec fn is_sqids_alphabet(a: Seq<char>) -> bool {
    &&& a.len() >= 3
    &&& forall|i: int| 0 <= i < a.len() ==> (a[i] as u32) < 128
    &&& forall|i: int, j: int| 0 <= i < j < a.len() ==> a[i] != a[j]
}

/// The two numbers that an identifier of the entity with `flag` carries.
pub open spec fn id_numbers(flag: u8, value: i64) -> Seq<u64> {
    seq![value as u64, (MAGIC_VALUE + flag) as u64]
}

/// The value that an identifier with the numbers `nums` stands for, when it
/// is read as an identifier of the entity with `flag`.
pub open spec fn value_of(flag: u8, nums: Seq<u64>) -> Option<i64> {
    if nums.len() == 2 && nums[1] == MAGIC_VALUE + flag && nums[0] <= i64::MAX {
        Some(nums[0] as i64)
    } else {
        None
    }
}

/// The value that `id` stands for as an identifier of the entity with `flag`.
pub open spec fn decoded(flag: u8, id: Seq<char>) -> Option<i64> {
    value_of(flag, numbers_of(ALPHABET@, id))
}

/// Relies on sqids' `SqidsBuilder::build` and `Sqids::encode`: building fails
/// on an alphabet that is not `is_sqids_alphabet`; encoding is a function of
/// its inputs (it fails only when every candidate id is blocked), a non-empty
/// list of numbers gives an id padded to `min_length` with characters of the
/// alphabet, and `Sqids::decode` reads `numbers` back from it.
#[verifier::external_body]
fn sqids_encode(alphabet: &str, min_length: u8, numbers: &[u64]) -> (r: Result<String, sqids::Error>)
    ensures
        !is_sqids_alphabet(alphabet@) ==> r is Err,
        is_sqids_alphabet(alphabet@) ==> (r is Ok <==> sqid_of(alphabet@, min_length, numbers@) is Some),
        r is Ok ==> r->Ok_0@ == sqid_of(alphabet@, min_length, numbers@)->0,
        r is Ok && numbers@.len() > 0 ==> is_sqid_shaped(r->Ok_0@, alphabet@, min_length),
        r is Ok ==> numbers_of(alphabet@, r->Ok_0@) == numbers@,
{
    let sqids = sqids::Sqids::builder().alphabet(alphabet.chars().collect()).min_length(
        min_length,
    ).build()?;
    sqids.encode(numbers)
}

/// Relies on sqids' `SqidsBuilder::build` and `Sqids::decode`: building
/// succeeds exactly on an alphabet that is `is_sqids_alphabet`; decoding is a
/// function of its inputs and gives no numbers for an empty id or one with a
/// character outside the alphabet.
#[verifier::external_body]
fn sqids_decode(alphabet: &str, min_length: u8, id: &str) -> (r: Result<Vec<u64>, sqids::Error>)
    ensures
        is_sqids_alphabet(alphabet@) <==> r is Ok,
        r is Ok ==> r->Ok_0@ == numbers_of(alphabet@, id@),
        r is Ok && id@.len() == 0 ==> r->Ok_0@.len() == 0,
        r is Ok && (exists|i: int| 0 <= i < id@.len() && !alphabet@.contains(#[trigger] id@[i]))
            ==> r->Ok_0@.len() == 0,
{
    let sqids = sqids::Sqids::builder().alphabet(alphabet.chars().collect()).min_length(
        min_length,
    ).build()?;
    Ok(sqids.decode(id))
}

proof fn lemma_alphabet_valid()
    ensures
        is_sqids_alphabet(ALPHABET@),
{
    reveal_strlit("ABCDEFGHJKLMNPQRSTUVWXYZ123456789abcdefghijkmnopqrstuvwxyz");
    assert(is_sqids_alphabet(ALPHABET@));
}

/// Encodes `value` as an opaque identifier of the entity with `flag`. A
/// negative value is refused with `InvalidID`; `Internal` reports that sqids
/// found every candidate id blocked.
pub fn encode_sqids(flag: u8, value: i64) -> (r: Result<String, SqidsError>)
    ensures
        value < 0 <==> (r is Err && r->Err_0 is InvalidID),
        value >= 0 ==> (r is Ok <==> sqid_of(ALPHABET@, MIN_LENGTH, id_numbers(flag, value)) is Some),
        r is Ok ==> r->Ok_0@ == sqid_of(ALPHABET@, MIN_LENGTH, id_numbers(flag, value))->0,
        r is Ok ==> is_sqid_shaped(r->Ok_0@, ALPHABET@, MIN_LENGTH),
        r is Ok ==> numbers_of(ALPHABET@, r->Ok_0@) == id_numbers(flag, value),
        r is Ok ==> decoded(flag, r->Ok_0@) == Some(value),
{
    proof {
        lemma_alphabet_valid();
    }
    if value < 0 {
        return Err(SqidsError::InvalidID);
    }
    let numbers: [u64; 2] = [value as u64, MAGIC_VALUE + flag as u64];
    proof {
        assert(numbers@ =~= id_numbers(flag, value));
    }
    match sqids_encode(ALPHABET, MIN_LENGTH, &numbers) {
        Ok(s) => Ok(s),
        Err(e) => Err(SqidsError::Internal(e)),
    }
}

/// Decodes the opaque identifier `s` of the entity with `flag`. It fails with
/// `InvalidID` unless `s` carries exactly two numbers, the second being
/// `MAGIC_VALUE + flag` and the first fitting in an `i64`; so an identifier
/// of another entity, or one with a character outside the alphabet, is
/// refused.
pub fn decode_sqids(flag: u8, s: &str) -> (r: Result<i64, SqidsError>)
    ensures
        r is Ok <==> decoded(flag, s@) is Some,
        r is Ok ==> r->Ok_0 == decoded(flag, s@)->0,
        r is Err ==> r->Err_0 is InvalidID,
        s@.len() == 0 ==> r is Err,
        (exists|i: int| 0 <= i < s@.len() && !ALPHABET@.contains(#[trigger] s@[i])) ==> r is Err,
{
    proof {
        lemma_alphabet_valid();
    }
    let numbers = match sqids_decode(ALPHABET, MIN_LENGTH, s) {
        Ok(v) => v,
        Err(_) => return Err(SqidsError::InvalidID),
    };
    if numbers.len() != 2 {
        return Err(SqidsError::InvalidID);
    }
    let v = numbers[0];
    let m = numbers[1];
    if m < MAGIC_VALUE || m - MAGIC_VALUE != flag as u64 {
        return Err(SqidsError::InvalidID);
    }
    if v > i64::MAX as u64 {
        return Err(SqidsError::InvalidID);
    }
    Ok(v as i64)
}

/// Decoding an identifier that was encoded for the same entity gives the
/// encoded value back.
pub proof fn law_round_trip(flag: u8, value: i64, id: Seq<char>)
    requires
        0 <= value,
        numbers_of(ALPHABET@, id) == id_numbers(flag, value),
    ensures
        decoded(flag, id) == Some(value),
{
}

/// An identifier encoded for one entity is refused as an identifier of any
/// other entity.
pub proof fn law_no_cross_entity(minted: u8, expected: u8, value: i64, id: Seq<char>)
    requires
        minted != expected,
        numbers_of(ALPHABET@, id) == id_numbers(minted, value),
    ensures
        decoded(expected, id) is None,
{
}

/// Opaque identifier of a user.
#[derive(Debug, Clone, Copy, PartialEq, Eq)]
pub struct UserID(pub i64);

/// Opaque identifier of a structure.
#[derive(Debug, Clone, Copy, PartialEq, Eq)]
pub struct StructureID(pub i64);

impl UserID {
    /// The public form of this id.
    pub fn encode(&self) -> (r: Result<String, SqidsError>)
        ensures
            self.0 < 0 <==> (r is Err && r->Err_0 is InvalidID),
            self.0 >= 0 ==> (r is Ok <==> sqid_of(ALPHABET@, MIN_LENGTH, id_numbers(USER_FLAG, self.0))
                is Some),
            r is Ok ==> r->Ok_0@ == sqid_of(ALPHABET@, MIN_LENGTH, id_numbers(USER_FLAG, self.0))->0,
            r is Ok ==> is_sqid_shaped(r->Ok_0@, ALPHABET@, MIN_LENGTH),
            r is Ok ==> decoded(USER_FLAG, r->Ok_0@) == Some(self.0),
    {
        encode_sqids(USER_FLAG, self.0)
    }

    /// Reads the public form of a user id.
    pub fn decode(s: &str) -> (r: Result<UserID, SqidsError>)
        ensures
            r is Ok <==> decoded(USER_FLAG, s@) is Some,
            r is Ok ==> r->Ok_0.0 == decoded(USER_FLAG, s@)->0,
            r is Err ==> r->Err_0 is InvalidID,
    {
        match decode_sqids(USER_FLAG, s) {
            Ok(v) => Ok(UserID(v)),
            Err(e) => Err(e),
        }
    }
}

impl StructureID {
    /// The public form of this id.
    pub fn encode(&self) -> (r: Result<String, SqidsError>)
        ensures
            self.0 < 0 <==> (r is Err && r->Err_0 is InvalidID),
            self.0 >= 0 ==> (r is Ok <==> sqid_of(ALPHABET@, MIN_LENGTH, id_numbers(STRUCTURE_FLAG, self.0))
                is Some),
            r is Ok ==> r->Ok_0@ == sqid_of(ALPHABET@, MIN_LENGTH, id_numbers(STRUCTURE_FLAG, self.0))->0,
            r is Ok ==> is_sqid_shaped(r->Ok_0@, ALPHABET@, MIN_LENGTH),
            r is Ok ==> decoded(STRUCTURE_FLAG, r->Ok_0@) == Some(self.0),
    {
        encode_sqids(STRUCTURE_FLAG, self.0)
    }

    /// Reads the public form of a structure id.
    pub fn decode(s: &str) -> (r: Result<StructureID, SqidsError>)
        ensures
            r is Ok <==> decoded(STRUCTURE_FLAG, s@) is Some,
            r is Ok ==> r->Ok_0.0 == decoded(STRUCTURE_FLAG, s@)->0,
            r is Err ==> r->Err_0 is InvalidID,
    {
        match decode_sqids(STRUCTURE_FLAG, s) {
            Ok(v) => Ok(StructureID(v)),
            Err(e) => Err(e),
        }
    }
}

} // verus!
