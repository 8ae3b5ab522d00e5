//! Identifiers: 128-bit UUIDs, one type for each kind of thing.
use uuid::Uuid;
use vstd::arithmetic::div_mod::lemma_div_denominator;
use vstd::arithmetic::power::{lemma_pow0, lemma_pow1, lemma_pow_adds, lemma_pow_positive, pow};
use vstd::prelude::*;

verus! {

/// The lowercase hexadecimal digit of a number below sixteen.
pub open spec fn hex_char(d: int) -> char {
    if d == 10 {
        'a'
    } else if d == 11 {
        'b'
    } else if d == 12 {
        'c'
    } else if d == 13 {
        'd'
    } else if d == 14 {
        'e'
    } else if d == 15 {
        'f'
    } else {
        crate::text::digit_char(d)
    }
}

/// The hexadecimal digit of `value` at a place that counts from the most significant one.
pub open spec fn hex_place(value: u128, place: int) -> char {
    hex_char((value as int / pow(16, (31 - place) as nat)) % 16)
}

/// The text of a UUID: 32 hexadecimal digits in groups of 8, 4, 4, 4 and 12.
pub open spec fn uuid_text(value: u128) -> Seq<char> {
    Seq::new(
        36,
        |i: int|
            if i == 8 || i == 13 || i == 18 || i == 23 {
                '-'
            } else if i < 8 {
                hex_place(value, i)
            } else if i < 13 {
                hex_place(value, i - 1)
            } else if i < 18 {
                hex_place(value, i - 2)
            } else if i < 23 {
                hex_place(value, i - 3)
            } else {
                hex_place(value, i - 4)
            },
    )
}

proof fn lemma_hex_digit(a: int, b: int)
    requires
        0 <= a < 16,
        0 <= b < 16,
        hex_char(a) == hex_char(b),
    ensures
        a == b,
{
}

proof fn lemma_sixteenths(value: int, k: nat)
    requires
        0 <= value,
    ensures
        value / pow(16, k) == 16 * (value / pow(16, k + 1)) + (value / pow(16, k)) % 16,
{
    lemma_pow_positive(16, k);
    lemma_pow_adds(16, k, 1);
    lemma_pow1(16);
    lemma_div_denominator(value, pow(16, k), 16);
}

proof fn lemma_above_all_digits()
    ensures
        pow(16, 32) == 0x1_0000_0000_0000_0000_0000_0000_0000_0000int,
{
    assert(pow(16, 8) == 0x1_0000_0000) by {
        reveal_with_fuel(pow, 9);
    }
    lemma_pow_adds(16, 8, 8);
    assert(pow(16, 16) == 0x1_0000_0000_0000_0000int) by (nonlinear_arith)
        requires
            pow(16, 8) == 0x1_0000_0000,
            pow(16, 16) == pow(16, 8) * pow(16, 8),
    ;
    lemma_pow_adds(16, 16, 16);
    assert(pow(16, 32) == 0x1_0000_0000_0000_0000_0000_0000_0000_0000int) by (nonlinear_arith)
        requires
            pow(16, 16) == 0x1_0000_0000_0000_0000int,
            pow(16, 32) == pow(16, 16) * pow(16, 16),
    ;
}

/// Values with the same digits from a place on are the same from there on.
proof fn lemma_same_digits(a: u128, b: u128, k: nat)
    requires
        k <= 32,
        uuid_text(a) == uuid_text(b),
    ensures
        a as int / pow(16, k) == b as int / pow(16, k),
    decreases 32 - k,
{
    if k == 32 {
        lemma_above_all_digits();
        assert(a as int / pow(16, 32) == 0);
        assert(b as int / pow(16, 32) == 0);
    } else {
        lemma_same_digits(a, b, k + 1);
        let place = 31 - k;
        let at = if place < 8 {
            place
        } else if place < 12 {
            place + 1
        } else if place < 16 {
            place + 2
        } else if place < 20 {
            place + 3
        } else {
            place + 4
        };
        assert(uuid_text(a)[at] == hex_place(a, place));
        assert(uuid_text(b)[at] == hex_place(b, place));
        lemma_hex_digit((a as int / pow(16, k)) % 16, (b as int / pow(16, k)) % 16);
        lemma_sixteenths(a as int, k);
        lemma_sixteenths(b as int, k);
    }
}

/// Different identifiers have different texts.
pub proof fn law_identifiers_have_texts_of_their_own(a: u128, b: u128)
    ensures
        uuid_text(a) == uuid_text(b) <==> a == b,
{
    if uuid_text(a) == uuid_text(b) {
        lemma_same_digits(a, b, 0);
        lemma_pow0(16);
    }
}

/// Whether the version digit and the variant bits are those of a random UUID.
pub open spec fn is_random_uuid(value: u128) -> bool {
    &&& (value as int / pow(2, 76)) % 16 == 4
    &&& (value as int / pow(2, 62)) % 4 == 2
}

/// What the `uuid` crate reads from a text, or what it says of one that is no UUID.
pub uninterp spec fn uuid_parse(text: Seq<char>) -> Result<u128, Seq<char>>;

/// `Uuid::new_v4`: random but for the version and the variant.
#[verifier::external_body]
fn random_uuid() -> (r: u128)
    ensures
        is_random_uuid(r),
{
    Uuid::new_v4().as_u128()
}

/// `Uuid`'s `to_string`: the lowercase hyphenated text.
#[verifier::external_body]
fn text_of_uuid(value: u128) -> (r: String)
    ensures
        r@ == uuid_text(value),
{
    Uuid::from_u128(value).to_string()
}

/// `Uuid::parse_str`: reads back every text that `to_string` writes; of other texts it tells only
/// by name what comes of them.
#[verifier::external_body]
fn uuid_of_text(text: &str) -> (r: Result<u128, String>)
    ensures
        match r {
            Ok(value) => uuid_parse(text@) == Ok::<u128, Seq<char>>(value),
            Err(e) => uuid_parse(text@) == Err::<u128, Seq<char>>(e@),
        },
        forall|value: u128| text@ == #[trigger] uuid_text(value) ==> r is Ok && r->Ok_0 == value,
{
    match Uuid::parse_str(text) {
        Ok(uuid) => Ok(uuid.as_u128()),
        Err(e) => Err(e.to_string()),
    }
}

/// Reads a UUID. Every text of [`text_of`] is read back as the value it was written for.
pub fn parse_uuid(text: &str) -> (r: Result<u128, String>)
    ensures
        match r {
            Ok(value) => uuid_parse(text@) == Ok::<u128, Seq<char>>(value),
            Err(e) => uuid_parse(text@) == Err::<u128, Seq<char>>(e@),
        },
        forall|value: u128| text@ == #[trigger] uuid_text(value) ==> r is Ok && r->Ok_0 == value,
{
    uuid_of_text(text)
}

/// The text of a UUID.
pub fn text_of(value: u128) -> (r: String)
    ensures
        r@ == uuid_text(value),
{
    text_of_uuid(value)
}

/// Identifies an aspect.
#[derive(Debug, Clone, Copy, PartialEq, Eq, Hash, Structural)]
pub struct AspectId {
    pub value: u128,
}

impl AspectId {
    /// A new random identifier.
    pub fn new() -> (r: Self)
        ensures
            is_random_uuid(r.value),
    {
        AspectId { value: random_uuid() }
    }

    pub fn from_uuid(uuid: u128) -> (r: Self)
        ensures
            r.value == uuid,
    {
        AspectId { value: uuid }
    }

    pub fn as_uuid(&self) -> (r: u128)
        ensures
            r == self.value,
    {
        self.value
    }

    /// The text of the identifier.
    pub fn text(&self) -> (r: String)
        ensures
            r@ == uuid_text(self.value),
    {
        text_of_uuid(self.value)
    }

    /// The identifier that a text writes, or the text of the error.
    pub fn parse(text: &str) -> (r: Result<Self, String>)
        ensures
            match r {
                Ok(id) => uuid_parse(text@) == Ok::<u128, Seq<char>>(id.value),
                Err(e) => uuid_parse(text@) == Err::<u128, Seq<char>>(e@),
            },
            forall|value: u128|
                text@ == #[trigger] uuid_text(value) ==> r is Ok && r->Ok_0.value == value,
    {
        match uuid_of_text(text) {
            Ok(value) => Ok(AspectId { value }),
            Err(e) => Err(e),
        }
    }
}

impl Default for AspectId {
    fn default() -> (r: Self)
        ensures
            is_random_uuid(r.value),
    {
        AspectId::new()
    }
}

/// Identifies a batch.
#[derive(Debug, Clone, Copy, PartialEq, Eq, Hash, Structural)]
pub struct BatchId {
    pub value: u128,
}

impl BatchId {
    /// A new random identifier.
    pub fn new() -> (r: Self)
        ensures
            is_random_uuid(r.value),
    {
        BatchId { value: random_uuid() }
    }

    pub fn from_uuid(uuid: u128) -> (r: Self)
        ensures
            r.value == uuid,
    {
        BatchId { value: uuid }
    }

    pub fn as_uuid(&self) -> (r: u128)
        ensures
            r == self.value,
    {
        self.value
    }

    /// The text of the identifier.
    pub fn text(&self) -> (r: String)
        ensures
            r@ == uuid_text(self.value),
    {
        text_of_uuid(self.value)
    }

    /// The identifier that a text writes, or the text of the error.
    pub fn parse(text: &str) -> (r: Result<Self, String>)
        ensures
            match r {
                Ok(id) => uuid_parse(text@) == Ok::<u128, Seq<char>>(id.value),
                Err(e) => uuid_parse(text@) == Err::<u128, Seq<char>>(e@),
            },
            forall|value: u128|
                text@ == #[trigger] uuid_text(value) ==> r is Ok && r->Ok_0.value == value,
    {
        match uuid_of_text(text) {
            Ok(value) => Ok(BatchId { value }),
            Err(e) => Err(e),
        }
    }
}

impl Default for BatchId {
    fn default() -> (r: Self)
        ensures
            is_random_uuid(r.value),
    {
        BatchId::new()
    }
}

/// Identifies a correlation.
#[derive(Debug, Clone, Copy, PartialEq, Eq, Hash, Structural)]
pub struct CorrelationID {
    pub value: u128,
}

impl CorrelationID {
    /// A new random identifier.
    pub fn new() -> (r: Self)
        ensures
            is_random_uuid(r.value),
    {
        CorrelationID { value: random_uuid() }
    }

    pub fn from_uuid(uuid: u128) -> (r: Self)
        ensures
            r.value == uuid,
    {
        CorrelationID { value: uuid }
    }

    pub fn as_uuid(&self) -> (r: u128)
        ensures
            r == self.value,
    {
        self.value
    }

    /// The text of the identifier.
    pub fn text(&self) -> (r: String)
        ensures
            r@ == uuid_text(self.value),
    {
        text_of_uuid(self.value)
    }

    /// The identifier that a text writes, or the text of the error.
    pub fn parse(text: &str) -> (r: Result<Self, String>)
        ensures
            match r {
                Ok(id) => uuid_parse(text@) == Ok::<u128, Seq<char>>(id.value),
                Err(e) => uuid_parse(text@) == Err::<u128, Seq<char>>(e@),
            },
            forall|value: u128|
                text@ == #[trigger] uuid_text(value) ==> r is Ok && r->Ok_0.value == value,
    {
        match uuid_of_text(text) {
            Ok(value) => Ok(CorrelationID { value }),
            Err(e) => Err(e),
        }
    }
}

impl Default for CorrelationID {
    fn default() -> (r: Self)
        ensures
            is_random_uuid(r.value),
    {
        CorrelationID::new()
    }
}

/// Identifies a database.
#[derive(Debug, Clone, Copy, PartialEq, Eq, Hash, Structural)]
pub struct DatabaseId {
    pub value: u128,
}

impl DatabaseId {
    /// A new random identifier.
    pub fn new() -> (r: Self)
        ensures
            is_random_uuid(r.value),
    {
        DatabaseId { value: random_uuid() }
    }

    pub fn from_uuid(uuid: u128) -> (r: Self)
        ensures
            r.value == uuid,
    {
        DatabaseId { value: uuid }
    }

    pub fn as_uuid(&self) -> (r: u128)
        ensures
            r == self.value,
    {
        self.value
    }

    /// The text of the identifier.
    pub fn text(&self) -> (r: String)
        ensures
            r@ == uuid_text(self.value),
    {
        text_of_uuid(self.value)
    }

    /// The identifier that a text writes, or the text of the error.
    pub fn parse(text: &str) -> (r: Result<Self, String>)
        ensures
            match r {
                Ok(id) => uuid_parse(text@) == Ok::<u128, Seq<char>>(id.value),
                Err(e) => uuid_parse(text@) == Err::<u128, Seq<char>>(e@),
            },
            forall|value: u128|
                text@ == #[trigger] uuid_text(value) ==> r is Ok && r->Ok_0.value == value,
    {
        match uuid_of_text(text) {
            Ok(value) => Ok(DatabaseId { value }),
            Err(e) => Err(e),
        }
    }
}

impl Default for DatabaseId {
    fn default() -> (r: Self)
        ensures
            is_random_uuid(r.value),
    {
        DatabaseId::new()
    }
}

/// Identifies a dataset.
#[derive(Debug, Clone, Copy, PartialEq, Eq, Hash, Structural)]
pub struct DatasetId {
    pub value: u128,
}

impl DatasetId {
    /// A new random identifier.
    pub fn new() -> (r: Self)
        ensures
            is_random_uuid(r.value),
    {
        DatasetId { value: random_uuid() }
    }

    pub fn from_uuid(uuid: u128) -> (r: Self)
        ensures
            r.value == uuid,
    {
        DatasetId { value: uuid }
    }

    pub fn as_uuid(&self) -> (r: u128)
        ensures
            r == self.value,
    {
        self.value
    }

    /// The text of the identifier.
    pub fn text(&self) -> (r: String)
        ensures
            r@ == uuid_text(self.value),
    {
        text_of_uuid(self.value)
    }

    /// The identifier that a text writes, or the text of the error.
    pub fn parse(text: &str) -> (r: Result<Self, String>)
        ensures
            match r {
                Ok(id) => uuid_parse(text@) == Ok::<u128, Seq<char>>(id.value),
                Err(e) => uuid_parse(text@) == Err::<u128, Seq<char>>(e@),
            },
            forall|value: u128|
                text@ == #[trigger] uuid_text(value) ==> r is Ok && r->Ok_0.value == value,
    {
        match uuid_of_text(text) {
            Ok(value) => Ok(DatasetId { value }),
            Err(e) => Err(e),
        }
    }
}

impl Default for DatasetId {
    fn default() -> (r: Self)
        ensures
            is_random_uuid(r.value),
    {
        DatasetId::new()
    }
}

/// Identifies a dictionary.
#[derive(Debug, Clone, Copy, PartialEq, Eq, Hash, Structural)]
pub struct DictionaryId {
    pub value: u128,
}

impl DictionaryId {
    /// A new random identifier.
    pub fn new() -> (r: Self)
        ensures
            is_random_uuid(r.value),
    {
        DictionaryId { value: random_uuid() }
    }

    pub fn from_uuid(uuid: u128) -> (r: Self)
        ensures
            r.value == uuid,
    {
        DictionaryId { value: uuid }
    }

    pub fn as_uuid(&self) -> (r: u128)
        ensures
            r == self.value,
    {
        self.value
    }

    /// The text of the identifier.
    pub fn text(&self) -> (r: String)
        ensures
            r@ == uuid_text(self.value),
    {
        text_of_uuid(self.value)
    }

    /// The identifier that a text writes, or the text of the error.
    pub fn parse(text: &str) -> (r: Result<Self, String>)
        ensures
            match r {
                Ok(id) => uuid_parse(text@) == Ok::<u128, Seq<char>>(id.value),
                Err(e) => uuid_parse(text@) == Err::<u128, Seq<char>>(e@),
            },
            forall|value: u128|
                text@ == #[trigger] uuid_text(value) ==> r is Ok && r->Ok_0.value == value,
    {
        match uuid_of_text(text) {
            Ok(value) => Ok(DictionaryId { value }),
            Err(e) => Err(e),
        }
    }
}

impl Default for DictionaryId {
    fn default() -> (r: Self)
        ensures
            is_random_uuid(r.value),
    {
        DictionaryId::new()
    }
}

/// Identifies an event.
#[derive(Debug, Clone, Copy, PartialEq, Eq, Hash, Structural)]
pub struct EventID {
    pub value: u128,
}

impl EventID {
    /// A new random identifier.
    pub fn new() -> (r: Self)
        ensures
            is_random_uuid(r.value),
    {
        EventID { value: random_uuid() }
    }

    pub fn from_uuid(uuid: u128) -> (r: Self)
        ensures
            r.value == uuid,
    {
        EventID { value: uuid }
    }

    pub fn as_uuid(&self) -> (r: u128)
        ensures
            r == self.value,
    {
        self.value
    }

    /// The text of the identifier.
    pub fn text(&self) -> (r: String)
        ensures
            r@ == uuid_text(self.value),
    {
        text_of_uuid(self.value)
    }

    /// The identifier that a text writes, or the text of the error.
    pub fn parse(text: &str) -> (r: Result<Self, String>)
        ensures
            match r {
                Ok(id) => uuid_parse(text@) == Ok::<u128, Seq<char>>(id.value),
                Err(e) => uuid_parse(text@) == Err::<u128, Seq<char>>(e@),
            },
            forall|value: u128|
                text@ == #[trigger] uuid_text(value) ==> r is Ok && r->Ok_0.value == value,
    {
        match uuid_of_text(text) {
            Ok(value) => Ok(EventID { value }),
            Err(e) => Err(e),
        }
    }
}

impl Default for EventID {
    fn default() -> (r: Self)
        ensures
            is_random_uuid(r.value),
    {
        EventID::new()
    }
}

/// Identifies a manifestation of an event.
#[derive(Debug, Clone, Copy, PartialEq, Eq, Hash, Structural)]
pub struct ManifestationId {
    pub value: u128,
}

impl ManifestationId {
    /// A new random identifier.
    pub fn new() -> (r: Self)
        ensures
            is_random_uuid(r.value),
    {
        ManifestationId { value: random_uuid() }
    }

    pub fn from_uuid(uuid: u128) -> (r: Self)
        ensures
            r.value == uuid,
    {
        ManifestationId { value: uuid }
    }

    pub fn as_uuid(&self) -> (r: u128)
        ensures
            r == self.value,
    {
        self.value
    }

    /// The text of the identifier.
    pub fn text(&self) -> (r: String)
        ensures
            r@ == uuid_text(self.value),
    {
        text_of_uuid(self.value)
    }

    /// The identifier that a text writes, or the text of the error.
    pub fn parse(text: &str) -> (r: Result<Self, String>)
        ensures
            match r {
                Ok(id) => uuid_parse(text@) == Ok::<u128, Seq<char>>(id.value),
                Err(e) => uuid_parse(text@) == Err::<u128, Seq<char>>(e@),
            },
            forall|value: u128|
                text@ == #[trigger] uuid_text(value) ==> r is Ok && r->Ok_0.value == value,
    {
        match uuid_of_text(text) {
            Ok(value) => Ok(ManifestationId { value }),
            Err(e) => Err(e),
        }
    }
}

impl Default for ManifestationId {
    fn default() -> (r: Self)
        ensures
            is_random_uuid(r.value),
    {
        ManifestationId::new()
    }
}

/// Identifies a measurement.
#[derive(Debug, Clone, Copy, PartialEq, Eq, Hash, Structural)]
pub struct MeasurementId {
    pub value: u128,
}

impl MeasurementId {
    /// A new random identifier.
    pub fn new() -> (r: Self)
        ensures
            is_random_uuid(r.value),
    {
        MeasurementId { value: random_uuid() }
    }

    pub fn from_uuid(uuid: u128) -> (r: Self)
        ensures
            r.value == uuid,
    {
        MeasurementId { value: uuid }
    }

    pub fn as_uuid(&self) -> (r: u128)
        ensures
            r == self.value,
    {
        self.value
    }

    /// The text of the identifier.
    pub fn text(&self) -> (r: String)
        ensures
            r@ == uuid_text(self.value),
    {
        text_of_uuid(self.value)
    }

    /// The identifier that a text writes, or the text of the error.
    pub fn parse(text: &str) -> (r: Result<Self, String>)
        ensures
            match r {
                Ok(id) => uuid_parse(text@) == Ok::<u128, Seq<char>>(id.value),
                Err(e) => uuid_parse(text@) == Err::<u128, Seq<char>>(e@),
            },
            forall|value: u128|
                text@ == #[trigger] uuid_text(value) ==> r is Ok && r->Ok_0.value == value,
    {
        match uuid_of_text(text) {
            Ok(value) => Ok(MeasurementId { value }),
            Err(e) => Err(e),
        }
    }
}

impl Default for MeasurementId {
    fn default() -> (r: Self)
        ensures
            is_random_uuid(r.value),
    {
        MeasurementId::new()
    }
}

/// Identifies a pattern.
#[derive(Debug, Clone, Copy, PartialEq, Eq, Hash, Structural)]
pub struct PatternID {
    pub value: u128,
}

impl PatternID {
    /// A new random identifier.
    pub fn new() -> (r: Self)
        ensures
            is_random_uuid(r.value),
    {
        PatternID { value: random_uuid() }
    }

    pub fn from_uuid(uuid: u128) -> (r: Self)
        ensures
            r.value == uuid,
    {
        PatternID { value: uuid }
    }

    pub fn as_uuid(&self) -> (r: u128)
        ensures
            r == self.value,
    {
        self.value
    }

    /// The text of the identifier.
    pub fn text(&self) -> (r: String)
        ensures
            r@ == uuid_text(self.value),
    {
        text_of_uuid(self.value)
    }

    /// The identifier that a text writes, or the text of the error.
    pub fn parse(text: &str) -> (r: Result<Self, String>)
        ensures
            match r {
                Ok(id) => uuid_parse(text@) == Ok::<u128, Seq<char>>(id.value),
                Err(e) => uuid_parse(text@) == Err::<u128, Seq<char>>(e@),
            },
            forall|value: u128|
                text@ == #[trigger] uuid_text(value) ==> r is Ok && r->Ok_0.value == value,
    {
        match uuid_of_text(text) {
            Ok(value) => Ok(PatternID { value }),
            Err(e) => Err(e),
        }
    }
}

impl Default for PatternID {
    fn default() -> (r: Self)
        ensures
            is_random_uuid(r.value),
    {
        PatternID::new()
    }
}

/// Identifies a subject.
#[derive(Debug, Clone, Copy, PartialEq, Eq, Hash, Structural)]
pub struct SubjectId {
    pub value: u128,
}

impl SubjectId {
    /// A new random identifier.
    pub fn new() -> (r: Self)
        ensures
            is_random_uuid(r.value),
    {
        SubjectId { value: random_uuid() }
    }

    pub fn from_uuid(uuid: u128) -> (r: Self)
        ensures
            r.value == uuid,
    {
        SubjectId { value: uuid }
    }

    pub fn as_uuid(&self) -> (r: u128)
        ensures
            r == self.value,
    {
        self.value
    }

    /// The text of the identifier.
    pub fn text(&self) -> (r: String)
        ensures
            r@ == uuid_text(self.value),
    {
        text_of_uuid(self.value)
    }

    /// The identifier that a text writes, or the text of the error.
    pub fn parse(text: &str) -> (r: Result<Self, String>)
        ensures
            match r {
                Ok(id) => uuid_parse(text@) == Ok::<u128, Seq<char>>(id.value),
                Err(e) => uuid_parse(text@) == Err::<u128, Seq<char>>(e@),
            },
            forall|value: u128|
                text@ == #[trigger] uuid_text(value) ==> r is Ok && r->Ok_0.value == value,
    {
        match uuid_of_text(text) {
            Ok(value) => Ok(SubjectId { value }),
            Err(e) => Err(e),
        }
    }
}

impl Default for SubjectId {
    fn default() -> (r: Self)
        ensures
            is_random_uuid(r.value),
    {
        SubjectId::new()
    }
}

/// Identifies a transaction.
#[derive(Debug, Clone, Copy, PartialEq, Eq, Hash, Structural)]
pub struct TxId {
    pub value: u128,
}

impl TxId {
    /// A new random identifier.
    pub fn new() -> (r: Self)
        ensures
            is_random_uuid(r.value),
    {
        TxId { value: random_uuid() }
    }

    pub fn from_uuid(uuid: u128) -> (r: Self)
        ensures
            r.value == uuid,
    {
        TxId { value: uuid }
    }

    pub fn as_uuid(&self) -> (r: u128)
        ensures
            r == self.value,
    {
        self.value
    }

    /// The text of the identifier.
    pub fn text(&self) -> (r: String)
        ensures
            r@ == uuid_text(self.value),
    {
        text_of_uuid(self.value)
    }

    /// The identifier that a text writes, or the text of the error.
    pub fn parse(text: &str) -> (r: Result<Self, String>)
        ensures
            match r {
                Ok(id) => uuid_parse(text@) == Ok::<u128, Seq<char>>(id.value),
                Err(e) => uuid_parse(text@) == Err::<u128, Seq<char>>(e@),
            },
            forall|value: u128|
                text@ == #[trigger] uuid_text(value) ==> r is Ok && r->Ok_0.value == value,
    {
        match uuid_of_text(text) {
            Ok(value) => Ok(TxId { value }),
            Err(e) => Err(e),
        }
    }
}

impl Default for TxId {
    fn default() -> (r: Self)
        ensures
            is_random_uuid(r.value),
    {
        TxId::new()
    }
}

}
