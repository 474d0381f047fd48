use rowdb::compiler::PrepareError;
use rowdb::row::{Row, COLUMN_EMAIL_SIZE, COLUMN_USERNAME_SIZE, EMAIL_OFFSET, ROW_SIZE, USERNAME_OFFSET};

fn fresh_slot() -> Vec<u8> {
    vec![0u8; ROW_SIZE]
}

fn round_trip(id: u32, username: &str, email: &str) -> Row {
    let row = Row::new(id, username, email).unwrap();
    let mut slot = fresh_slot();
    row.serialize(&mut slot);
    Row::deserialize(&slot)
}

#[test]
fn sizes_are_as_laid_out() {
    assert_eq!(ROW_SIZE, 291);
    assert_eq!(USERNAME_OFFSET, 4);
    assert_eq!(EMAIL_OFFSET, 36);
    assert_eq!(COLUMN_USERNAME_SIZE, 32);
    assert_eq!(COLUMN_EMAIL_SIZE, 255);
}

#[test]
fn row_round_trip_through_fresh_slot() {
    let back = round_trip(7, "alice", "a@x.com");
    assert_eq!(back.id(), 7);
    assert_eq!(back.username(), "alice");
    assert_eq!(back.email(), "a@x.com");
}

#[test]
fn round_trip_of_empty_strings() {
    let back = round_trip(0, "", "");
    assert_eq!(back.id(), 0);
    assert_eq!(back.username(), "");
    assert_eq!(back.email(), "");
}

#[test]
fn round_trip_of_longest_strings_and_largest_id() {
    let name = "n".repeat(31);
    let mail = "m".repeat(254);
    let back = round_trip(u32::MAX, &name, &mail);
    assert_eq!(back.id(), u32::MAX);
    assert_eq!(back.username(), name);
    assert_eq!(back.email(), mail);
}

#[test]
fn round_trip_of_every_ascii_character_but_nul() {
    let all: String = (1u8..128).map(|b| b as char).collect();
    let name = &all[0..31];
    let mail = &all[31..];
    let back = round_trip(42, name, mail);
    assert_eq!(back.username(), name);
    assert_eq!(back.email(), mail);
}

#[test]
fn round_trip_of_text_beyond_ascii() {
    let back = round_trip(3, "z\u{e9}ro", "\u{1f600}@x.org");
    assert_eq!(back.username(), "z\u{e9}ro");
    assert_eq!(back.email(), "\u{1f600}@x.org");
}

#[test]
fn username_of_31_bytes_is_taken() {
    let name = "x".repeat(31);
    let row = Row::new(1, &name, "e").unwrap();
    assert_eq!(row.username(), name);
}

#[test]
fn username_of_32_bytes_is_refused() {
    let name = "x".repeat(32);
    match Row::new(1, &name, "e") {
        Err(PrepareError::StringTooLong(m)) => {
            assert_eq!(m, "username string is too long. (>31)")
        }
        _ => panic!("expected a too-long error"),
    }
}

#[test]
fn email_of_254_bytes_is_taken() {
    let mail = "y".repeat(254);
    let row = Row::new(1, "u", &mail).unwrap();
    assert_eq!(row.email(), mail);
}

#[test]
fn email_of_255_bytes_is_refused() {
    let mail = "y".repeat(255);
    match Row::new(1, "u", &mail) {
        Err(PrepareError::StringTooLong(m)) => assert_eq!(m, "email string is too long. (>254)"),
        _ => panic!("expected a too-long error"),
    }
}

#[test]
fn both_too_long_complains_of_the_username() {
    let name = "x".repeat(40);
    let mail = "y".repeat(300);
    match Row::new(1, &name, &mail) {
        Err(PrepareError::StringTooLong(m)) => {
            assert_eq!(m, "username string is too long. (>31)")
        }
        _ => panic!("expected a too-long error"),
    }
}

#[test]
fn length_is_counted_in_bytes() {
    // Sixteen two-byte characters make 32 bytes.
    let name = "\u{e9}".repeat(16);
    assert!(matches!(Row::new(1, &name, "e"), Err(PrepareError::StringTooLong(_))));
    let name = "\u{e9}".repeat(15);
    assert!(Row::new(1, &name, "e").is_ok());
}

#[test]
fn serialize_lays_the_fields_out() {
    let row = Row::new(0x1234_5678, "ab", "c@d").unwrap();
    let mut slot = fresh_slot();
    row.serialize(&mut slot);
    let mut expected = vec![0u8; 291];
    expected[0] = 0x78;
    expected[1] = 0x56;
    expected[2] = 0x34;
    expected[3] = 0x12;
    expected[4] = b'a';
    expected[5] = b'b';
    expected[36] = b'c';
    expected[37] = b'@';
    expected[38] = b'd';
    assert_eq!(slot, expected);
}

#[test]
fn serialize_leaves_other_bytes_alone() {
    let row = Row::new(1, "ab", "c").unwrap();
    let mut slot = vec![0xaau8; ROW_SIZE];
    row.serialize(&mut slot);
    let mut expected = vec![0xaau8; 291];
    expected[0] = 1;
    expected[1] = 0;
    expected[2] = 0;
    expected[3] = 0;
    expected[4] = b'a';
    expected[5] = b'b';
    expected[36] = b'c';
    assert_eq!(slot, expected);
}

#[test]
fn shorter_string_over_longer_keeps_the_tail() {
    let mut slot = fresh_slot();
    Row::new(1, "longname", "long@mail").unwrap().serialize(&mut slot);
    Row::new(2, "ab", "c").unwrap().serialize(&mut slot);
    let back = Row::deserialize(&slot);
    assert_eq!(back.id(), 2);
    assert_eq!(back.username(), "abngname");
    assert_eq!(back.email(), "cong@mail");
}

#[test]
fn deserialize_reads_the_fields() {
    let mut slot = fresh_slot();
    slot[0] = 0x01;
    slot[1] = 0x02;
    slot[4..7].copy_from_slice(b"bob");
    slot[36..43].copy_from_slice(b"b@y.com");
    let row = Row::deserialize(&slot);
    assert_eq!(row.id(), 0x0201);
    assert_eq!(row.username(), "bob");
    assert_eq!(row.email(), "b@y.com");
}

#[test]
fn deserialize_reads_the_id_least_significant_byte_first() {
    let mut slot = fresh_slot();
    slot[0] = 0xef;
    slot[1] = 0xbe;
    slot[2] = 0xad;
    slot[3] = 0xde;
    assert_eq!(Row::deserialize(&slot).id(), 0xdead_beef);
}

#[test]
fn deserialize_stops_at_the_first_zero_byte() {
    let mut slot = fresh_slot();
    slot[4..9].copy_from_slice(b"ab\0cd");
    slot[36..41].copy_from_slice(b"\0late");
    let row = Row::deserialize(&slot);
    assert_eq!(row.username(), "ab");
    assert_eq!(row.email(), "");
}

#[test]
fn deserialize_replaces_invalid_utf8() {
    let mut slot = fresh_slot();
    slot[4] = b'a';
    slot[5] = 0xff;
    slot[6] = b'b';
    slot[36] = 0xc3;
    let row = Row::deserialize(&slot);
    assert_eq!(row.username(), "a\u{fffd}b");
    assert_eq!(row.email(), "\u{fffd}");
}

#[test]
fn username_without_terminator_runs_into_the_email() {
    let mut slot = fresh_slot();
    for b in slot[4..36].iter_mut() {
        *b = b'a';
    }
    slot[36] = b'e';
    let row = Row::deserialize(&slot);
    let mut expected = "a".repeat(32);
    expected.push('e');
    assert_eq!(row.username(), expected);
    assert_eq!(row.email(), "e");
}

#[test]
fn text_without_any_terminator_loses_its_last_byte() {
    let mut slot = fresh_slot();
    for b in slot[36..].iter_mut() {
        *b = b'z';
    }
    let row = Row::deserialize(&slot);
    assert_eq!(row.email(), "z".repeat(254));
}

#[test]
fn row_prints_its_fields() {
    let row = Row::new(1, "alice", "a@x.com").unwrap();
    assert_eq!(
        format!("{:?}", row),
        "Row { id: 1, username: \"alice\", email: \"a@x.com\" }"
    );
}
