use vstd::arithmetic::power::pow;
use vstd::prelude::*;

verus! {

/// The hexadecimal digit, in lower case, of a number below 16.
pub open spec fn hex_digit(n: int) -> char {
    if n < 10 {
        ('0' as int + n) as char
    } else {
        ('a' as int + n - 10) as char
    }
}

/// The 32 hexadecimal digits of a 128-bit value, most significant first.
pub open spec fn hex_digits(v: u128) -> Seq<char> {
    Seq::new(32, |i: int| hex_digit((v as int / pow(16, (31 - i) as nat)) % 16))
}

/// The hyphenated lower-case form of a UUID, such as
/// `67e55044-10b1-426f-9247-bb680e5fe0c8`: its hexadecimal digits in groups of
/// 8, 4, 4, 4 and 12.
pub open spec fn uuid_text(v: u128) -> Seq<char> {
    let h = hex_digits(v);
    h.subrange(0, 8) + seq!['-'] + h.subrange(8, 12) + seq!['-'] + h.subrange(12, 16) + seq!['-']
        + h.subrange(16, 20) + seq!['-'] + h.subrange(20, 32)
}

/// The bits of a UUID that hold its version and its variant.
pub open spec fn version_variant_bits(v: u128) -> u128 {
    v & 0xF000C000000000000000u128
}

/// The version and variant bits of a random (version 4, RFC 4122) UUID.
pub open spec fn random_version_variant() -> u128 {
    0x40008000000000000000u128
}

/// Calls `uuid::Uuid::new_v4` and reads the result with `as_u128`. The contract
/// claims what the source of `new_v4` shows: the random bits are masked so that
/// the version nibble is 4 and the variant bits are `10`. Which value comes out
/// is left open: it is drawn from a random source.
#[verifier::external_body]
fn random_uuid_value() -> (v: u128)
    ensures
        version_variant_bits(v) == random_version_variant(),
{
    uuid::Uuid::new_v4().as_u128()
}

/// Calls `uuid::Uuid::from_u128` and formats the UUID with `to_string`. The
/// contract claims what the crate documents and its source shows: `Display`
/// writes the hyphenated lower-case form of the big-endian 128-bit value.
#[verifier::external_body]
fn uuid_text_of(value: u128) -> (text: String)
    ensures
        text@ == uuid_text(value),
{
    uuid::Uuid::from_u128(value).to_string()
}

/// The UUID whose big-endian 128-bit value is `value`, as `uuid::Uuid::from_u128`
/// builds it.
pub uninterp spec fn uuid_from_value(value: u128) -> uuid::Uuid;

/// Calls `uuid::Uuid::from_u128`, which builds the UUID from the big-endian bytes
/// of the value; the result depends on the value alone. The contract claims that it
/// is `uuid_from_value(value)`.
#[verifier::external_body]
fn uuid_of_value(value: u128) -> (u: uuid::Uuid)
    ensures
        u == uuid_from_value(value),
{
    uuid::Uuid::from_u128(value)
}

/// Calls `uuid::Uuid::as_u128`, which returns the big-endian 128-bit value of
/// the UUID. The contract claims what the source shows: `from_u128` of that value
/// gives the UUID back, and no other value does, since both go through the same
/// big-endian bytes.
#[verifier::external_body]
fn value_of_uuid(u: &uuid::Uuid) -> (v: u128)
    ensures
        uuid_from_value(v) == *u,
        forall|w: u128| uuid_from_value(w) == *u ==> w == v,
{
    u.as_u128()
}

/// A unique identifier used for all kind of entities.
#[derive(Debug, Clone, Copy, PartialEq, Eq, Structural, Hash, PartialOrd, Ord)]
pub struct Id {
    value: u128,
}

impl Id {
    /// The 128-bit value of the identifier.
    pub closed spec fn value(self) -> u128 {
        self.value
    }

    /// Creates a new random identifier: a random (version 4) UUID.
    pub fn new() -> (id: Self)
        ensures
            version_variant_bits(id.value()) == random_version_variant(),
    {
        Id { value: random_uuid_value() }
    }

    /// Returns the UUID of the identifier: the one whose 128-bit value it holds.
    pub fn into_inner(self) -> (u: uuid::Uuid)
        ensures
            u == uuid_from_value(self.value()),
    {
        uuid_of_value(self.value)
    }

    /// Returns the hyphenated lower-case form of the identifier's UUID.
    pub fn to_string(&self) -> (text: String)
        ensures
            text@ == uuid_text(self.value()),
    {
        uuid_text_of(self.value)
    }
}

/// Two identifiers are the same exactly when they hold the same value.
pub proof fn lemma_id_is_its_value(a: Id, b: Id)
    ensures
        a == b <==> a.value() == b.value(),
{
}

impl Default for Id {
    /// A new random identifier.
    fn default() -> (id: Self)
        ensures
            version_variant_bits(id.value()) == random_version_variant(),
    {
        Self::new()
    }
}

impl From<uuid::Uuid> for Id {
    /// The identifier of a UUID: it holds the UUID's 128-bit value, the only value
    /// from which the UUID is built.
    fn from(value: uuid::Uuid) -> (id: Self)
        ensures
            uuid_from_value(id.value()) == value,
            forall|w: u128| uuid_from_value(w) == value ==> w == id.value(),
    {
        Id { value: value_of_uuid(&value) }
    }
}

impl vstd::std_specs::convert::FromSpecImpl<uuid::Uuid> for Id {
    open spec fn obeys_from_spec() -> bool {
        true
    }

    /// The identifier that holds the value from which the UUID is built.
    closed spec fn from_spec(value: uuid::Uuid) -> Id {
        Id { value: choose|w: u128| uuid_from_value(w) == value }
    }
}

} // verus!
