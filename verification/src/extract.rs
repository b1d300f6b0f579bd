//! From the data objects of a card to the identity record: reading label
//! and value out of an object's attributes, turning the value into text,
//! and folding the objects, in the order of enumeration, into one record.

use crate::error::{EidError, Fault};
use crate::record::{absorbed, assembled, Found, Person, PersonView};
use crate::text::{base64_fits, base64_text, photo_text, utf8_text};
use crate::vocabulary::{contains, is_relevant, relevant, Field};
use vstd::prelude::*;
use vstd::utf8::*;

verus! {

/// One attribute of a data object, as the middleware hands it over.
#[derive(Clone, Debug, PartialEq, Eq)]
pub enum RawAttribute {
    /// The object's label, as bytes.
    Label(Vec<u8>),
    /// The object's value, as bytes.
    Value(Vec<u8>),
    /// Any other attribute.
    Other,
}

/// The label and the value of one data object: the label as text, the value
/// as the bytes read from the card.
#[derive(Clone, Debug, PartialEq, Eq)]
pub struct RawEntry {
    pub label: String,
    pub value: Vec<u8>,
}

/// The failure of an object that cannot be made text.
pub open spec fn decode_error() -> EidError {
    EidError::InternalError(Fault::Decode)
}

/// Whether every label among `attributes` is UTF-8.
pub open spec fn labels_are_text(attributes: Seq<RawAttribute>) -> bool {
    forall|i: int|
        0 <= i < attributes.len() ==> (#[trigger] attributes[i] matches RawAttribute::Label(bytes)
            ==> valid_utf8(bytes@))
}

/// The bytes of the last label among `attributes`; none, if there is no
/// label.
pub open spec fn last_label(attributes: Seq<RawAttribute>) -> Seq<u8>
    decreases attributes.len(),
{
    if attributes.len() == 0 {
        Seq::empty()
    } else {
        match attributes.last() {
            RawAttribute::Label(bytes) => bytes@,
            _ => last_label(attributes.drop_last()),
        }
    }
}

/// The label of an object with these attributes, as text.
pub open spec fn label_text(attributes: Seq<RawAttribute>) -> Seq<char> {
    decode_utf8(last_label(attributes))
}

/// The bytes of the last value among `attributes`; none, if there is no
/// value.
pub open spec fn last_value(attributes: Seq<RawAttribute>) -> Seq<u8>
    decreases attributes.len(),
{
    if attributes.len() == 0 {
        Seq::empty()
    } else {
        match attributes.last() {
            RawAttribute::Value(bytes) => bytes@,
            _ => last_value(attributes.drop_last()),
        }
    }
}

/// The label and the value of an object with these attributes. Where an
/// attribute comes more than once, the last one counts; where it is
/// missing, it is empty. A label that is not UTF-8 fails the object,
/// whether it is the last one or not.
pub fn read_entry(attributes: Vec<RawAttribute>) -> (entry: Result<RawEntry, EidError>)
    ensures
        entry is Ok <==> labels_are_text(attributes@),
        entry matches Ok(e) ==> e.label@ == label_text(attributes@) && e.value@ == last_value(
            attributes@,
        ),
        entry matches Err(error) ==> error == decode_error(),
{
    let mut label = String::new();
    let mut value: Vec<u8> = Vec::new();
    let ghost all = attributes@;
    for attribute in it: attributes
        invariant
            it.seq() == all,
            labels_are_text(all.take(it.index() as int)),
            label@ == label_text(all.take(it.index() as int)),
            value@ == last_value(all.take(it.index() as int)),
    {
        let ghost seen = all.take(it.index() as int);
        let ghost next = all.take(it.index() + 1);
        proof {
            assert(next.drop_last() =~= seen);
            assert(next.last() == attribute);
            assert(all[it.index() as int] == attribute);
        }
        match attribute {
            RawAttribute::Label(bytes) => {
                match utf8_text(bytes.as_slice()) {
                    Some(text) => {
                        label = text;
                    },
                    None => {
                        return Err(EidError::InternalError(Fault::Decode));
                    },
                }
            },
            RawAttribute::Value(bytes) => {
                value = bytes;
            },
            RawAttribute::Other => {},
        }
        proof {
            assert forall|i: int| 0 <= i < next.len() implies (#[trigger] next[i]
                matches RawAttribute::Label(bytes) ==> valid_utf8(bytes@)) by {
                if i < seen.len() {
                    assert(seen[i] == next[i]);
                }
            }
        }
    }
    proof {
        assert(all.take(all.len() as int) =~= all);
    }
    Ok(RawEntry { label, value })
}

/// Whether `label` marks the photo.
pub open spec fn is_photo(label: Seq<char>) -> bool {
    contains(label, Field::Photo.spec_label())
}

/// Whether the value of an object with this label can be made text: a
/// photo always, as long as its text can be counted; anything else where it
/// is UTF-8.
pub open spec fn value_decodes(label: Seq<char>, value: Seq<u8>) -> bool {
    if is_photo(label) {
        base64_fits(value.len())
    } else {
        valid_utf8(value)
    }
}

/// The text of the value of an object with this label: base64 for the
/// photo, the UTF-8 reading for anything else.
pub open spec fn value_text(label: Seq<char>, value: Seq<u8>) -> Seq<char> {
    if is_photo(label) {
        base64_text(value)
    } else {
        decode_utf8(value)
    }
}

/// Turns the value of an object with this label into text.
pub fn decode_value(label: &str, value: &[u8]) -> (text: Result<String, EidError>)
    ensures
        text is Ok <==> value_decodes(label@, value@),
        text matches Ok(t) ==> t@ == value_text(label@, value@),
        text matches Err(error) ==> error == decode_error(),
{
    let text = if Field::Photo.matches(label) {
        photo_text(value)
    } else {
        utf8_text(value)
    };
    match text {
        Some(t) => Ok(t),
        None => Err(EidError::InternalError(Fault::Decode)),
    }
}

/// The mapping after one more entry, or the failure of that entry. An
/// entry without a relevant label leaves the mapping as it was, whatever
/// its value; one with a relevant label fails where its value cannot be
/// made text.
pub open spec fn folded(found: Map<Field, Seq<char>>, label: Seq<char>, value: Seq<u8>) -> Result<
    Map<Field, Seq<char>>,
    EidError,
> {
    if !relevant(label) {
        Ok(found)
    } else if value_decodes(label, value) {
        Ok(absorbed(found, label, value_text(label, value)))
    } else {
        Err(decode_error())
    }
}

/// Folds one entry into `found`. On failure `found` is left as it was.
pub fn fold(found: &mut Found, entry: &RawEntry) -> (done: Result<(), EidError>)
    ensures
        match folded(old(found)@, entry.label@, entry.value@) {
            Ok(after) => done is Ok && final(found)@ == after,
            Err(error) => done == Err::<(), EidError>(error) && final(found)@ == old(found)@,
        },
{
    if !is_relevant(entry.label.as_str()) {
        return Ok(());
    }
    match decode_value(entry.label.as_str(), entry.value.as_slice()) {
        Ok(text) => {
            found.absorb(entry.label.as_str(), text.as_str());
            Ok(())
        },
        Err(error) => Err(error),
    }
}

/// Whether an object with these attributes can be read: its labels are
/// UTF-8, and if its label is relevant, its value can be made text.
pub open spec fn readable(attributes: Seq<RawAttribute>) -> bool {
    &&& labels_are_text(attributes)
    &&& relevant(label_text(attributes)) ==> value_decodes(
        label_text(attributes),
        last_value(attributes),
    )
}

/// The mapping after one more object, or the failure of that object.
pub open spec fn extracted(found: Map<Field, Seq<char>>, attributes: Seq<RawAttribute>) -> Result<
    Map<Field, Seq<char>>,
    EidError,
> {
    if labels_are_text(attributes) {
        folded(found, label_text(attributes), last_value(attributes))
    } else {
        Err(decode_error())
    }
}

/// Takes one object of the card into `found`: reads its label and value,
/// and folds them in. On failure `found` is left as it was.
pub fn extract(found: &mut Found, attributes: Vec<RawAttribute>) -> (done: Result<(), EidError>)
    ensures
        match extracted(old(found)@, attributes@) {
            Ok(after) => done is Ok && final(found)@ == after,
            Err(error) => done == Err::<(), EidError>(error) && final(found)@ == old(found)@,
        },
        done is Ok <==> readable(attributes@),
        done matches Err(error) ==> error == decode_error(),
{
    match read_entry(attributes) {
        Ok(entry) => fold(found, &entry),
        Err(error) => Err(error),
    }
}

/// The mapping after all of `objects`, taken in order, or the failure of
/// the first object that cannot be read.
pub open spec fn extracted_all(objects: Seq<Vec<RawAttribute>>) -> Result<
    Map<Field, Seq<char>>,
    EidError,
>
    decreases objects.len(),
{
    if objects.len() == 0 {
        Ok(Map::empty())
    } else {
        match extracted_all(objects.drop_last()) {
            Ok(found) => extracted(found, objects.last()@),
            Err(error) => Err(error),
        }
    }
}

/// The identity record of a card that holds `objects`, or the failure of
/// the first object that cannot be read.
pub open spec fn identity(objects: Seq<Vec<RawAttribute>>) -> Result<PersonView, EidError> {
    match extracted_all(objects) {
        Ok(found) => Ok(assembled(found)),
        Err(error) => Err(error),
    }
}

/// Reads the identity record out of the data objects of a card, each given
/// by its attributes, in the order of enumeration. It fails exactly where
/// some object cannot be read.
pub fn read_identity(objects: Vec<Vec<RawAttribute>>) -> (person: Result<Person, EidError>)
    ensures
        match person {
            Ok(p) => identity(objects@) == Ok::<PersonView, EidError>(p@),
            Err(error) => identity(objects@) == Err::<PersonView, EidError>(error),
        },
        person is Ok <==> forall|i: int|
            0 <= i < objects@.len() ==> readable(#[trigger] objects@[i]@),
        person matches Err(error) ==> error == decode_error(),
{
    proof {
        law_reads_what_is_readable(objects@);
    }
    let mut found = Found::new();
    let ghost all = objects@;
    for attributes in it: objects
        invariant
            it.seq() == all,
            extracted_all(all.take(it.index() as int)) == Ok::<Map<Field, Seq<char>>, EidError>(
                found@,
            ),
    {
        proof {
            assert(all.take(it.index() + 1).drop_last() =~= all.take(it.index() as int));
            assert(all.take(it.index() + 1).last() == attributes);
        }
        match extract(&mut found, attributes) {
            Ok(()) => {},
            Err(error) => {
                proof {
                    lemma_failure_stays(all, it.index() + 1);
                }
                return Err(error);
            },
        }
    }
    proof {
        assert(all.take(all.len() as int) =~= all);
    }
    Ok(found.assemble())
}

/// Once the first `n` objects have failed, so has the whole card, with the
/// same failure.
proof fn lemma_failure_stays(objects: Seq<Vec<RawAttribute>>, n: int)
    requires
        0 <= n <= objects.len(),
        extracted_all(objects.take(n)) is Err,
    ensures
        extracted_all(objects) == extracted_all(objects.take(n)),
    decreases objects.len() - n,
{
    if n == objects.len() {
        assert(objects.take(n) =~= objects);
    } else {
        assert(objects.take(n + 1).drop_last() =~= objects.take(n));
        lemma_failure_stays(objects, n + 1);
    }
}

/// Whether the label of an object with these attributes contains the
/// fragment of `field`.
pub open spec fn matches_field(attributes: Seq<RawAttribute>, field: Field) -> bool {
    contains(label_text(attributes), field.spec_label())
}

/// The text of the value of an object with these attributes.
pub open spec fn object_text(attributes: Seq<RawAttribute>) -> Seq<char> {
    value_text(label_text(attributes), last_value(attributes))
}

/// A card is read exactly where each of its objects can be read, and the
/// only failure of reading is the decode error.
pub proof fn law_reads_what_is_readable(objects: Seq<Vec<RawAttribute>>)
    ensures
        identity(objects) is Ok <==> forall|i: int|
            0 <= i < objects.len() ==> readable(#[trigger] objects[i]@),
        identity(objects) matches Err(error) ==> error == decode_error(),
    decreases objects.len(),
{
    if objects.len() > 0 {
        let front = objects.drop_last();
        law_reads_what_is_readable(front);
        if identity(objects) is Ok {
            assert forall|i: int| 0 <= i < objects.len() implies readable(
                #[trigger] objects[i]@,
            ) by {
                if i < front.len() {
                    assert(objects[i] == front[i]);
                }
            }
        }
        if forall|i: int| 0 <= i < objects.len() ==> readable(#[trigger] objects[i]@) {
            assert forall|i: int| 0 <= i < front.len() implies readable(#[trigger] front[i]@) by {
                assert(front[i] == objects[i]);
            }
            assert(readable(objects[objects.len() - 1]@));
        }
    }
}

/// Last write wins: where a card is read, a field holds the text of the
/// last object whose label contains the field's fragment.
pub proof fn law_last_match_wins(objects: Seq<Vec<RawAttribute>>, field: Field, last: int)
    requires
        identity(objects) is Ok,
        0 <= last < objects.len(),
        matches_field(objects[last]@, field),
        forall|j: int| last < j < objects.len() ==> !matches_field(#[trigger] objects[j]@, field),
    ensures
        identity(objects) matches Ok(person) && person.field(field) == object_text(
            objects[last]@,
        ),
{
    lemma_found_last_match(objects, field, last);
}

/// Where a card is read, a field whose fragment no label contains is the
/// empty text.
pub proof fn law_unmatched_field_is_empty(objects: Seq<Vec<RawAttribute>>, field: Field)
    requires
        identity(objects) is Ok,
        forall|i: int| 0 <= i < objects.len() ==> !matches_field(#[trigger] objects[i]@, field),
    ensures
        identity(objects) matches Ok(person) && person.field(field) == Seq::<char>::empty(),
{
    lemma_found_unmatched(objects, field);
}

proof fn lemma_found_last_match(objects: Seq<Vec<RawAttribute>>, field: Field, last: int)
    requires
        extracted_all(objects) is Ok,
        0 <= last < objects.len(),
        matches_field(objects[last]@, field),
        forall|j: int| last < j < objects.len() ==> !matches_field(#[trigger] objects[j]@, field),
    ensures
        extracted_all(objects) matches Ok(found) && found.dom().contains(field) && found[field]
            == object_text(objects[last]@),
    decreases objects.len(),
{
    let front = objects.drop_last();
    let end = objects.last();
    if last == objects.len() - 1 {
        assert(relevant(label_text(end@)));
    } else {
        assert(front[last] == objects[last]);
        assert forall|j: int| last < j < front.len() implies !matches_field(
            #[trigger] front[j]@,
            field,
        ) by {
            assert(front[j] == objects[j]);
        }
        lemma_found_last_match(front, field, last);
        assert(!matches_field(objects[objects.len() - 1]@, field));
    }
}

proof fn lemma_found_unmatched(objects: Seq<Vec<RawAttribute>>, field: Field)
    requires
        extracted_all(objects) is Ok,
        forall|i: int| 0 <= i < objects.len() ==> !matches_field(#[trigger] objects[i]@, field),
    ensures
        extracted_all(objects) matches Ok(found) && !found.dom().contains(field),
    decreases objects.len(),
{
    if objects.len() > 0 {
        let front = objects.drop_last();
        assert forall|i: int| 0 <= i < front.len() implies !matches_field(
            #[trigger] front[i]@,
            field,
        ) by {
            assert(front[i] == objects[i]);
        }
        lemma_found_unmatched(front, field);
        assert(!matches_field(objects[objects.len() - 1]@, field));
    }
}

} // verus!
