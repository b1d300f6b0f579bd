use eid_reader::error::{EidError, Fault};
use eid_reader::extract::{
    decode_value, extract, fold, read_entry, read_identity, RawAttribute, RawEntry,
};
use eid_reader::record::{Found, Person};
use eid_reader::vocabulary::Field;

fn entry(label: &str, value: &[u8]) -> RawEntry {
    RawEntry { label: String::from(label), value: value.to_vec() }
}

fn object(label: &str, value: &[u8]) -> Vec<RawAttribute> {
    vec![
        RawAttribute::Label(label.as_bytes().to_vec()),
        RawAttribute::Value(value.to_vec()),
    ]
}

fn empty_person() -> Person {
    Person {
        national_number: String::new(),
        surname: String::new(),
        firstnames: String::new(),
        date_of_birth: String::new(),
        gender: String::new(),
        address_street_and_number: String::new(),
        address_zip: String::new(),
        address_municipality: String::new(),
        photo: String::new(),
    }
}

const DECODE: EidError = EidError::InternalError(Fault::Decode);

#[test]
fn read_entry_takes_label_and_value() {
    let read = read_entry(vec![
        RawAttribute::Label(b"surname".to_vec()),
        RawAttribute::Value(b"Doe".to_vec()),
    ]);
    assert_eq!(read, Ok(entry("surname", b"Doe")));
}

#[test]
fn read_entry_takes_them_in_any_order() {
    let read = read_entry(vec![
        RawAttribute::Other,
        RawAttribute::Value(b"Doe".to_vec()),
        RawAttribute::Other,
        RawAttribute::Label(b"surname".to_vec()),
    ]);
    assert_eq!(read, Ok(entry("surname", b"Doe")));
}

#[test]
fn read_entry_takes_the_last_of_each() {
    let read = read_entry(vec![
        RawAttribute::Label(b"gender".to_vec()),
        RawAttribute::Value(b"M".to_vec()),
        RawAttribute::Label(b"surname".to_vec()),
        RawAttribute::Value(b"Doe".to_vec()),
    ]);
    assert_eq!(read, Ok(entry("surname", b"Doe")));
}

#[test]
fn read_entry_leaves_what_is_missing_empty() {
    assert_eq!(read_entry(vec![]), Ok(entry("", b"")));
    assert_eq!(read_entry(vec![RawAttribute::Other]), Ok(entry("", b"")));
    assert_eq!(
        read_entry(vec![RawAttribute::Label(b"surname".to_vec())]),
        Ok(entry("surname", b""))
    );
    assert_eq!(read_entry(vec![RawAttribute::Value(b"Doe".to_vec())]), Ok(entry("", b"Doe")));
}

#[test]
fn read_entry_reads_the_label_as_utf8() {
    let read = read_entry(vec![
        RawAttribute::Label(vec![b'n', 0xc3, 0xa9, b'e']),
        RawAttribute::Value(vec![0xff, 0xd8]),
    ]);
    assert_eq!(read, Ok(RawEntry { label: String::from("née"), value: vec![0xff, 0xd8] }));
}

#[test]
fn read_entry_fails_on_a_label_that_is_not_utf8() {
    assert_eq!(read_entry(vec![RawAttribute::Label(vec![0xff, 0xfe])]), Err(DECODE));
    assert_eq!(
        read_entry(vec![
            RawAttribute::Value(b"Doe".to_vec()),
            RawAttribute::Label(vec![0xc3]),
        ]),
        Err(DECODE)
    );
}

#[test]
fn read_entry_fails_on_an_earlier_label_that_is_not_utf8() {
    assert_eq!(
        read_entry(vec![
            RawAttribute::Label(vec![0x80]),
            RawAttribute::Label(b"surname".to_vec()),
            RawAttribute::Value(b"Doe".to_vec()),
        ]),
        Err(DECODE)
    );
}

#[test]
fn read_entry_takes_any_bytes_as_value() {
    assert_eq!(
        read_entry(vec![RawAttribute::Value(vec![0xff, 0x00])]),
        Ok(RawEntry { label: String::new(), value: vec![0xff, 0x00] })
    );
}

#[test]
fn decode_value_reads_text_as_utf8() {
    assert_eq!(decode_value("surname", b"Doe"), Ok(String::from("Doe")));
    assert_eq!(decode_value("firstnames", "Zoë".as_bytes()), Ok(String::from("Zoë")));
    assert_eq!(decode_value("gender", b""), Ok(String::new()));
}

#[test]
fn decode_value_refuses_text_that_is_not_utf8() {
    assert_eq!(decode_value("surname", &[0xff, 0xd8, 0xff]), Err(DECODE));
}

#[test]
fn decode_value_writes_the_photo_as_base64() {
    assert_eq!(decode_value("PHOTO_FILE", &[0xff, 0xd8, 0xff]), Ok(String::from("/9j/")));
    assert_eq!(decode_value("PHOTO_FILE", b"Doe"), Ok(String::from("RG9l")));
    assert_eq!(decode_value("my_PHOTO_FILE_1", &[0xff]), Ok(String::from("/w==")));
}

#[test]
fn found_starts_empty() {
    assert_eq!(Found::new().assemble(), empty_person());
}

#[test]
fn found_set_gives_one_field() {
    let mut found = Found::new();
    found.set(Field::Gender, String::from("F"));
    found.set(Field::Gender, String::from("M"));
    found.set(Field::AddressZip, String::from("1000"));
    let person = found.assemble();
    assert_eq!(person.gender, "M");
    assert_eq!(person.address_zip, "1000");
    assert_eq!(person.surname, "");
}

#[test]
fn found_set_reaches_each_field() {
    let mut found = Found::new();
    found.set(Field::NationalNumber, String::from("1"));
    found.set(Field::Surname, String::from("2"));
    found.set(Field::Firstnames, String::from("3"));
    found.set(Field::DateOfBirth, String::from("4"));
    found.set(Field::Gender, String::from("5"));
    found.set(Field::AddressStreetAndNumber, String::from("6"));
    found.set(Field::AddressZip, String::from("7"));
    found.set(Field::AddressMunicipality, String::from("8"));
    found.set(Field::Photo, String::from("9"));
    assert_eq!(
        found.assemble(),
        Person {
            national_number: String::from("1"),
            surname: String::from("2"),
            firstnames: String::from("3"),
            date_of_birth: String::from("4"),
            gender: String::from("5"),
            address_street_and_number: String::from("6"),
            address_zip: String::from("7"),
            address_municipality: String::from("8"),
            photo: String::from("9"),
        }
    );
}

#[test]
fn found_absorb_fills_every_field_that_the_label_names() {
    let mut found = Found::new();
    found.absorb("surname_and_firstnames", "Doe");
    found.absorb("nothing", "x");
    let person = found.assemble();
    assert_eq!(person.surname, "Doe");
    assert_eq!(person.firstnames, "Doe");
    assert_eq!(person.gender, "");
    assert_eq!(person.national_number, "");
}

#[test]
fn fold_takes_a_relevant_entry_in() {
    let mut found = Found::new();
    assert_eq!(fold(&mut found, &entry("surname", b"Doe")), Ok(()));
    assert_eq!(fold(&mut found, &entry("the_PHOTO_FILE", &[0xff])), Ok(()));
    let person = found.assemble();
    assert_eq!(person.surname, "Doe");
    assert_eq!(person.photo, "/w==");
}

#[test]
fn fold_ignores_an_irrelevant_entry() {
    let mut found = Found::new();
    assert_eq!(fold(&mut found, &entry("carddata_serial", b"123")), Ok(()));
    assert_eq!(found, Found::new());
}

#[test]
fn fold_ignores_an_irrelevant_entry_even_if_binary() {
    let mut found = Found::new();
    assert_eq!(fold(&mut found, &entry("sign_file", &[0xff, 0x00, 0xfe])), Ok(()));
    assert_eq!(found, Found::new());
}

#[test]
fn fold_fails_on_a_text_value_that_is_not_utf8() {
    let mut found = Found::new();
    found.set(Field::Gender, String::from("M"));
    let before = found.clone();
    assert_eq!(fold(&mut found, &entry("surname", &[0xc3])), Err(DECODE));
    assert_eq!(found, before);
}

#[test]
fn extract_reads_and_folds_an_object() {
    let mut found = Found::new();
    assert_eq!(extract(&mut found, object("citizen_surname", b"Doe")), Ok(()));
    assert_eq!(extract(&mut found, object("other", &[0xff])), Ok(()));
    assert_eq!(found.assemble().surname, "Doe");
}

#[test]
fn extract_fails_on_a_label_that_is_not_utf8() {
    let mut found = Found::new();
    found.set(Field::Gender, String::from("M"));
    let before = found.clone();
    let bad = vec![RawAttribute::Label(vec![0xff, 0xfe]), RawAttribute::Value(b"x".to_vec())];
    assert_eq!(extract(&mut found, bad), Err(DECODE));
    assert_eq!(found, before);
}

#[test]
fn extract_fails_on_a_text_value_that_is_not_utf8() {
    let mut found = Found::new();
    assert_eq!(extract(&mut found, object("surname", &[0xc3])), Err(DECODE));
    assert_eq!(found, Found::new());
}

#[test]
fn matching_is_by_substring_and_case() {
    let person = read_identity(vec![
        object("citizen_surname", b"Doe"),
        object("GENDER_X", b"M"),
    ])
    .unwrap();
    assert_eq!(person.surname, "Doe");
    assert_eq!(person.gender, "");

    let person = read_identity(vec![object("SURNAME_X", b"Doe")]).unwrap();
    assert_eq!(person.surname, "");
    assert_eq!(person, empty_person());
}

#[test]
fn last_write_wins() {
    let person = read_identity(vec![
        object("national_number", b"11111111111"),
        object("national_number", b"22222222222"),
    ])
    .unwrap();
    assert_eq!(person.national_number, "22222222222");
}

#[test]
fn last_write_wins_across_labels_and_other_objects() {
    let person = read_identity(vec![
        object("surname", b"First"),
        object("gender", b"F"),
        object("citizen_surname", b"Second"),
        object("unrelated", b"Third"),
        object("SURNAME", b"Fourth"),
    ])
    .unwrap();
    assert_eq!(person.surname, "Second");
    assert_eq!(person.gender, "F");
}

#[test]
fn photo_is_base64_where_text_would_fail() {
    let jpeg = [0xff, 0xd8, 0xff, 0xe0];
    let person = read_identity(vec![object("PHOTO_FILE", &jpeg)]).unwrap();
    assert_eq!(person.photo, "/9j/4A==");
    assert_eq!(read_identity(vec![object("surname", &jpeg)]), Err(DECODE));
}

#[test]
fn scenario_two_objects_give_two_fields() {
    let person = read_identity(vec![
        object("national_number", b"12345678901"),
        object("surname", b"Doe"),
    ])
    .unwrap();
    assert_eq!(
        person,
        Person {
            national_number: String::from("12345678901"),
            surname: String::from("Doe"),
            firstnames: String::new(),
            date_of_birth: String::new(),
            gender: String::new(),
            address_street_and_number: String::new(),
            address_zip: String::new(),
            address_municipality: String::new(),
            photo: String::new(),
        }
    );
}

#[test]
fn no_objects_give_an_empty_record() {
    assert_eq!(read_identity(vec![]), Ok(empty_person()));
}

#[test]
fn no_matching_objects_give_an_empty_record() {
    let person = read_identity(vec![
        object("carddata_serial", b"1"),
        object("", b"2"),
        object("ADDRESS_ZIP", b"3"),
    ]);
    assert_eq!(person, Ok(empty_person()));
}

#[test]
fn a_full_card_fills_all_nine_fields() {
    let person = read_identity(vec![
        object("address_municipality", b"Brussel"),
        object("address_street_and_number", b"Wetstraat 16"),
        object("address_zip", b"1000"),
        object("gender", b"F"),
        object("date_of_birth", b"01 JAN 1980"),
        object("firstnames", b"Jane Mary"),
        object("surname", b"Doe"),
        object("national_number", b"80010112345"),
        object("PHOTO_FILE", &[0xff, 0xd8, 0xff]),
    ])
    .unwrap();
    assert_eq!(
        person,
        Person {
            national_number: String::from("80010112345"),
            surname: String::from("Doe"),
            firstnames: String::from("Jane Mary"),
            date_of_birth: String::from("01 JAN 1980"),
            gender: String::from("F"),
            address_street_and_number: String::from("Wetstraat 16"),
            address_zip: String::from("1000"),
            address_municipality: String::from("Brussel"),
            photo: String::from("/9j/"),
        }
    );
}

#[test]
fn values_pass_through_verbatim() {
    let person = read_identity(vec![
        object("surname", b"  Doe \n"),
        object("date_of_birth", b"not a date"),
        object("gender", b""),
    ])
    .unwrap();
    assert_eq!(person.surname, "  Doe \n");
    assert_eq!(person.date_of_birth, "not a date");
    assert_eq!(person.gender, "");
}

#[test]
fn one_unreadable_object_fails_the_card() {
    let bad_label = vec![RawAttribute::Label(vec![0x80])];
    assert_eq!(
        read_identity(vec![object("surname", b"Doe"), bad_label.clone()]),
        Err(DECODE)
    );
    assert_eq!(
        read_identity(vec![bad_label, object("surname", b"Doe")]),
        Err(DECODE)
    );
    assert_eq!(
        read_identity(vec![
            object("surname", b"Doe"),
            object("gender", &[0xff]),
            object("surname", b"Roe"),
        ]),
        Err(DECODE)
    );
}
