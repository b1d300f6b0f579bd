//! The attribute vocabulary: the label fragments that route a data object of
//! the card to a field of the identity record.

use vstd::prelude::*;

verus! {

/// A field of the identity record, in the order of the vocabulary.
#[derive(Clone, Copy, Debug, PartialEq, Eq, Structural)]
pub enum Field {
    AddressMunicipality,
    AddressStreetAndNumber,
    AddressZip,
    Gender,
    DateOfBirth,
    Firstnames,
    Surname,
    NationalNumber,
    Photo,
}

/// `part` stands in `text` at position `at`.
pub open spec fn occurs_at(text: Seq<char>, part: Seq<char>, at: int) -> bool {
    &&& 0 <= at
    &&& at + part.len() <= text.len()
    &&& text.subrange(at, at + part.len()) == part
}

/// `part` is a substring of `text`: the characters of `part` stand somewhere
/// in `text`, in order and without a gap. Case matters.
pub open spec fn contains(text: Seq<char>, part: Seq<char>) -> bool {
    exists|at: int| occurs_at(text, part, at)
}

impl Field {
    /// The label fragment of this field.
    pub open spec fn spec_label(self) -> Seq<char> {
        match self {
            Field::AddressMunicipality => "address_municipality"@,
            Field::AddressStreetAndNumber => "address_street_and_number"@,
            Field::AddressZip => "address_zip"@,
            Field::Gender => "gender"@,
            Field::DateOfBirth => "date_of_birth"@,
            Field::Firstnames => "firstnames"@,
            Field::Surname => "surname"@,
            Field::NationalNumber => "national_number"@,
            Field::Photo => "PHOTO_FILE"@,
        }
    }

    /// The place of this field in the vocabulary.
    pub open spec fn spec_index(self) -> int {
        match self {
            Field::AddressMunicipality => 0,
            Field::AddressStreetAndNumber => 1,
            Field::AddressZip => 2,
            Field::Gender => 3,
            Field::DateOfBirth => 4,
            Field::Firstnames => 5,
            Field::Surname => 6,
            Field::NationalNumber => 7,
            Field::Photo => 8,
        }
    }

    /// The label fragment of this field.
    pub fn label(self) -> (text: &'static str)
        ensures
            text@ == self.spec_label(),
    {
        match self {
            Field::AddressMunicipality => "address_municipality",
            Field::AddressStreetAndNumber => "address_street_and_number",
            Field::AddressZip => "address_zip",
            Field::Gender => "gender",
            Field::DateOfBirth => "date_of_birth",
            Field::Firstnames => "firstnames",
            Field::Surname => "surname",
            Field::NationalNumber => "national_number",
            Field::Photo => "PHOTO_FILE",
        }
    }
}

/// The vocabulary, in its fixed order.
pub open spec fn spec_vocabulary() -> Seq<Field> {
    seq![
        Field::AddressMunicipality,
        Field::AddressStreetAndNumber,
        Field::AddressZip,
        Field::Gender,
        Field::DateOfBirth,
        Field::Firstnames,
        Field::Surname,
        Field::NationalNumber,
        Field::Photo,
    ]
}

/// A label is relevant if it contains the fragment of some field.
pub open spec fn relevant(label: Seq<char>) -> bool {
    exists|field: Field| contains(label, #[trigger] field.spec_label())
}

/// Every field stands in the vocabulary, once, at its own place.
pub proof fn lemma_vocabulary_complete(field: Field)
    ensures
        0 <= field.spec_index() < spec_vocabulary().len() == 9,
        spec_vocabulary()[field.spec_index()] == field,
        forall|at: int|
            0 <= at < 9 && spec_vocabulary()[at] == field ==> at == field.spec_index(),
{
}

/// Matching tolerates what stands around a fragment: a label made of
/// anything, then the fragment of a field, then anything, contains that
/// fragment, and so is relevant.
pub proof fn law_fragment_inside_matches(before: Seq<char>, field: Field, after: Seq<char>)
    ensures
        contains(before + field.spec_label() + after, field.spec_label()),
        relevant(before + field.spec_label() + after),
{
    let label = before + field.spec_label() + after;
    let at = before.len() as int;
    assert(label.subrange(at, at + field.spec_label().len()) =~= field.spec_label());
    assert(occurs_at(label, field.spec_label(), at));
}

/// The vocabulary, in its fixed order.
pub fn vocabulary() -> (fields: Vec<Field>)
    ensures
        fields@ == spec_vocabulary(),
{
    vec![
        Field::AddressMunicipality,
        Field::AddressStreetAndNumber,
        Field::AddressZip,
        Field::Gender,
        Field::DateOfBirth,
        Field::Firstnames,
        Field::Surname,
        Field::NationalNumber,
        Field::Photo,
    ]
}

/// The characters of `text`, one by one.
fn chars_of(text: &str) -> (chars: Vec<char>)
    ensures
        chars@ == text@,
{
    let mut chars: Vec<char> = Vec::new();
    for c in it: text.chars()
        invariant
            chars@ == it.seq().take(it.index() as int),
    {
        chars.push(c);
    }
    chars
}

/// Whether `part` stands in `text` at position `at`.
fn stands_at(text: &Vec<char>, part: &Vec<char>, at: usize) -> (yes: bool)
    requires
        at + part.len() <= text.len(),
    ensures
        yes == occurs_at(text@, part@, at as int),
{
    let mut k: usize = 0;
    while k < part.len()
        invariant
            k <= part.len(),
            at + part.len() <= text.len(),
            forall|j: int| 0 <= j < k ==> text@[at + j] == part@[j],
        decreases part.len() - k,
    {
        if text[at + k] != part[k] {
            assert(text@.subrange(at as int, at + part@.len())[k as int] == text@[at + k]);
            return false;
        }
        k += 1;
    }
    assert(text@.subrange(at as int, at + part@.len()) =~= part@);
    true
}

/// Whether `part` is a substring of `text`.
pub fn text_contains(text: &str, part: &str) -> (found: bool)
    ensures
        found == contains(text@, part@),
{
    let hay = chars_of(text);
    let needle = chars_of(part);
    if needle.len() > hay.len() {
        return false;
    }
    let last: usize = hay.len() - needle.len();
    let mut at: usize = 0;
    while at < last
        invariant
            at <= last,
            last == hay.len() - needle.len(),
            hay@ == text@,
            needle@ == part@,
            forall|i: int| 0 <= i < at ==> !occurs_at(text@, part@, i),
        decreases last - at,
    {
        if stands_at(&hay, &needle, at) {
            return true;
        }
        at += 1;
    }
    stands_at(&hay, &needle, last)
}

impl Field {
    /// Whether `label` contains the fragment of this field.
    pub fn matches(self, label: &str) -> (yes: bool)
        ensures
            yes == contains(label@, self.spec_label()),
    {
        text_contains(label, self.label())
    }
}

/// Whether `label` contains the fragment of some field.
pub fn is_relevant(label: &str) -> (yes: bool)
    ensures
        yes == relevant(label@),
{
    let fields = vocabulary();
    let mut i: usize = 0;
    while i < fields.len()
        invariant
            i <= fields.len(),
            fields@ == spec_vocabulary(),
            forall|j: int| 0 <= j < i ==> !contains(label@, #[trigger] fields@[j].spec_label()),
        decreases fields.len() - i,
    {
        if fields[i].matches(label) {
            return true;
        }
        i += 1;
    }
    assert forall|field: Field| !contains(label@, #[trigger] field.spec_label()) by {
        lemma_vocabulary_complete(field);
        assert(!contains(label@, fields@[field.spec_index()].spec_label()));
    }
    false
}

} // verus!
