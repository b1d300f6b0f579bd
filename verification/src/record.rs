//! The identity record, and the values found on a card before the record is
//! assembled.

use crate::vocabulary::{contains, lemma_vocabulary_complete, spec_vocabulary, vocabulary, Field};
use vstd::prelude::*;

verus! {

/// The identity record: nine texts, each present, each empty where the card
/// held nothing for it. The photo is base64 text.
#[derive(Clone, Debug, PartialEq, Eq)]
pub struct Person {
    pub national_number: String,
    pub surname: String,
    pub firstnames: String,
    pub date_of_birth: String,
    pub gender: String,
    pub address_street_and_number: String,
    pub address_zip: String,
    pub address_municipality: String,
    pub photo: String,
}

/// What an identity record holds, as mathematical text.
pub struct PersonView {
    pub national_number: Seq<char>,
    pub surname: Seq<char>,
    pub firstnames: Seq<char>,
    pub date_of_birth: Seq<char>,
    pub gender: Seq<char>,
    pub address_street_and_number: Seq<char>,
    pub address_zip: Seq<char>,
    pub address_municipality: Seq<char>,
    pub photo: Seq<char>,
}

impl PersonView {
    /// The text of one field.
    pub open spec fn field(self, field: Field) -> Seq<char> {
        match field {
            Field::AddressMunicipality => self.address_municipality,
            Field::AddressStreetAndNumber => self.address_street_and_number,
            Field::AddressZip => self.address_zip,
            Field::Gender => self.gender,
            Field::DateOfBirth => self.date_of_birth,
            Field::Firstnames => self.firstnames,
            Field::Surname => self.surname,
            Field::NationalNumber => self.national_number,
            Field::Photo => self.photo,
        }
    }
}

impl View for Person {
    type V = PersonView;

    open spec fn view(&self) -> PersonView {
        PersonView {
            national_number: self.national_number@,
            surname: self.surname@,
            firstnames: self.firstnames@,
            date_of_birth: self.date_of_birth@,
            gender: self.gender@,
            address_street_and_number: self.address_street_and_number@,
            address_zip: self.address_zip@,
            address_municipality: self.address_municipality@,
            photo: self.photo@,
        }
    }
}

/// The mapping after one more object: every field whose fragment `label`
/// contains now holds `text`; the others keep what they had.
pub open spec fn absorbed(found: Map<Field, Seq<char>>, label: Seq<char>, text: Seq<char>) -> Map<
    Field,
    Seq<char>,
> {
    Map::new(
        |field: Field| found.dom().contains(field) || contains(label, field.spec_label()),
        |field: Field|
            if contains(label, field.spec_label()) {
                text
            } else {
                found[field]
            },
    )
}

/// What the mapping holds for `field`, or the empty text.
pub open spec fn value_or_empty(found: Map<Field, Seq<char>>, field: Field) -> Seq<char> {
    if found.dom().contains(field) {
        found[field]
    } else {
        Seq::empty()
    }
}

/// The identity record of a mapping: each field holds what was found for
/// it, or the empty text.
pub open spec fn assembled(found: Map<Field, Seq<char>>) -> PersonView {
    PersonView {
        national_number: value_or_empty(found, Field::NationalNumber),
        surname: value_or_empty(found, Field::Surname),
        firstnames: value_or_empty(found, Field::Firstnames),
        date_of_birth: value_or_empty(found, Field::DateOfBirth),
        gender: value_or_empty(found, Field::Gender),
        address_street_and_number: value_or_empty(found, Field::AddressStreetAndNumber),
        address_zip: value_or_empty(found, Field::AddressZip),
        address_municipality: value_or_empty(found, Field::AddressMunicipality),
        photo: value_or_empty(found, Field::Photo),
    }
}

/// The values found on a card so far, by field. Its view is the mapping
/// from each field that has a value to that value.
#[derive(Clone, Debug, PartialEq, Eq)]
pub struct Found {
    national_number: Option<String>,
    surname: Option<String>,
    firstnames: Option<String>,
    date_of_birth: Option<String>,
    gender: Option<String>,
    address_street_and_number: Option<String>,
    address_zip: Option<String>,
    address_municipality: Option<String>,
    photo: Option<String>,
}

/// A copy of the text in `slot`, or the empty text.
fn text_or_empty(slot: &Option<String>) -> (text: String)
    ensures
        text@ == (match *slot {
            Some(t) => t@,
            None => Seq::empty(),
        }),
{
    match slot {
        Some(t) => t.clone(),
        None => String::new(),
    }
}

impl Found {
    spec fn slot(&self, field: Field) -> Option<String> {
        match field {
            Field::AddressMunicipality => self.address_municipality,
            Field::AddressStreetAndNumber => self.address_street_and_number,
            Field::AddressZip => self.address_zip,
            Field::Gender => self.gender,
            Field::DateOfBirth => self.date_of_birth,
            Field::Firstnames => self.firstnames,
            Field::Surname => self.surname,
            Field::NationalNumber => self.national_number,
            Field::Photo => self.photo,
        }
    }

    /// Nothing found yet.
    pub fn new() -> (found: Found)
        ensures
            found@ == Map::<Field, Seq<char>>::empty(),
    {
        let found = Found {
            national_number: None,
            surname: None,
            firstnames: None,
            date_of_birth: None,
            gender: None,
            address_street_and_number: None,
            address_zip: None,
            address_municipality: None,
            photo: None,
        };
        assert(found@ =~= Map::<Field, Seq<char>>::empty());
        found
    }

    /// Gives `field` the value `text`, over what it had.
    pub fn set(&mut self, field: Field, text: String)
        ensures
            final(self)@ == old(self)@.insert(field, text@),
    {
        match field {
            Field::AddressMunicipality => {
                self.address_municipality = Some(text);
            },
            Field::AddressStreetAndNumber => {
                self.address_street_and_number = Some(text);
            },
            Field::AddressZip => {
                self.address_zip = Some(text);
            },
            Field::Gender => {
                self.gender = Some(text);
            },
            Field::DateOfBirth => {
                self.date_of_birth = Some(text);
            },
            Field::Firstnames => {
                self.firstnames = Some(text);
            },
            Field::Surname => {
                self.surname = Some(text);
            },
            Field::NationalNumber => {
                self.national_number = Some(text);
            },
            Field::Photo => {
                self.photo = Some(text);
            },
        }
        assert(self@ =~= old(self)@.insert(field, text@));
    }

    /// Takes in one object of the card: every field whose fragment `label`
    /// contains gets `text`, over what it had.
    pub fn absorb(&mut self, label: &str, text: &str)
        ensures
            final(self)@ == absorbed(old(self)@, label@, text@),
    {
        let fields = vocabulary();
        let mut i: usize = 0;
        while i < fields.len()
            invariant
                i <= fields.len(),
                fields@ == spec_vocabulary(),
                self@ == Map::new(
                    |field: Field|
                        old(self)@.dom().contains(field) || (field.spec_index() < i && contains(
                            label@,
                            field.spec_label(),
                        )),
                    |field: Field|
                        if field.spec_index() < i && contains(label@, field.spec_label()) {
                            text@
                        } else {
                            old(self)@[field]
                        },
                ),
            decreases fields.len() - i,
        {
            let field = fields[i];
            if field.matches(label) {
                self.set(field, text.to_owned());
            }
            proof {
                assert forall|other: Field| #[trigger]
                    other.spec_index() == i implies other == field by {
                    lemma_vocabulary_complete(other);
                }
                lemma_vocabulary_complete(field);
                assert(self@ =~= Map::new(
                    |field: Field|
                        old(self)@.dom().contains(field) || (field.spec_index() < i + 1
                            && contains(label@, field.spec_label())),
                    |field: Field|
                        if field.spec_index() < i + 1 && contains(label@, field.spec_label()) {
                            text@
                        } else {
                            old(self)@[field]
                        },
                ));
            }
            i += 1;
        }
        proof {
            assert forall|field: Field| field.spec_index() < 9 by {
                lemma_vocabulary_complete(field);
            }
            assert(self@ =~= absorbed(old(self)@, label@, text@));
        }
    }

    /// The identity record: each field holds what was found for it, or the
    /// empty text.
    pub fn assemble(&self) -> (person: Person)
        ensures
            person@ == assembled(self@),
    {
        Person {
            national_number: text_or_empty(&self.national_number),
            surname: text_or_empty(&self.surname),
            firstnames: text_or_empty(&self.firstnames),
            date_of_birth: text_or_empty(&self.date_of_birth),
            gender: text_or_empty(&self.gender),
            address_street_and_number: text_or_empty(&self.address_street_and_number),
            address_zip: text_or_empty(&self.address_zip),
            address_municipality: text_or_empty(&self.address_municipality),
            photo: text_or_empty(&self.photo),
        }
    }
}

impl View for Found {
    type V = Map<Field, Seq<char>>;

    closed spec fn view(&self) -> Map<Field, Seq<char>> {
        Map::new(|field: Field| self.slot(field) is Some, |field: Field| self.slot(field)->0@)
    }
}

} // verus!
