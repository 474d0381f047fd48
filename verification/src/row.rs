//! The row codec: one record and its fixed-offset binary form.

use vstd::prelude::*;
use vstd::utf8::{decode_utf8, encode_utf8, is_ascii_chars, valid_utf8};
use byteorder::{ByteOrder, LittleEndian};

use crate::compiler::{PrepareError, PrepareFailure};

verus! {

/// Width of the id column in bytes.
pub const COLUMN_ID_SIZE: usize = 4;

/// Width of the username column in bytes, terminator included.
pub const COLUMN_USERNAME_SIZE: usize = 32;

/// Width of the email column in bytes, terminator included.
pub const COLUMN_EMAIL_SIZE: usize = 255;

/// Width of one encoded row.
pub const ROW_SIZE: usize = COLUMN_ID_SIZE + COLUMN_EMAIL_SIZE + COLUMN_USERNAME_SIZE;

/// Offset of the username column within a slot.
pub const USERNAME_OFFSET: usize = COLUMN_ID_SIZE;

/// Offset of the email column within a slot.
pub const EMAIL_OFFSET: usize = COLUMN_ID_SIZE + COLUMN_USERNAME_SIZE;

/// The four bytes of `n`, least significant first.
pub open spec fn le_bytes(n: u32) -> Seq<u8> {
    seq![
        (n % 256) as u8,
        (n / 256 % 256) as u8,
        (n / 65536 % 256) as u8,
        (n / 16777216 % 256) as u8,
    ]
}

/// The number whose little-endian bytes are the first four bytes of `b`.
pub open spec fn le_value(b: Seq<u8>) -> u32
    recommends
        b.len() >= 4,
{
    (b[0] + 256 * b[1] + 65536 * b[2] + 16777216 * b[3]) as u32
}

/// Reading back the little-endian bytes of a number gives the number.
pub proof fn lemma_le_round_trip(n: u32)
    ensures
        le_bytes(n).len() == 4,
        le_value(le_bytes(n)) == n,
{
}

/// The bytes of `buf` after `data` has been written over it from position
/// `at` on. What does not fit before the end of `buf` is not written.
pub open spec fn overlay(buf: Seq<u8>, at: int, data: Seq<u8>) -> Seq<u8> {
    Seq::new(
        buf.len(),
        |k: int|
            if at <= k < at + data.len() {
                data[k - at]
            } else {
                buf[k]
            },
    )
}

/// The position of the first zero byte of `buf` at or after `from`, or the
/// length of `buf` where there is none.
pub open spec fn nul_position(buf: Seq<u8>, from: int) -> int
    decreases buf.len() - from,
{
    if from < 0 || from >= buf.len() {
        buf.len() as int
    } else if buf[from] == 0 {
        from
    } else {
        nul_position(buf, from + 1)
    }
}

/// The bytes of the text field that starts at `from`: those before the first
/// zero byte. A buffer that holds no zero byte from `from` on yields all its
/// remaining bytes but the last.
pub open spec fn text_field(buf: Seq<u8>, from: int) -> Seq<u8>
    recommends
        0 <= from < buf.len(),
{
    let end = nul_position(buf, from);
    if end < buf.len() {
        buf.subrange(from, end)
    } else {
        buf.subrange(from, buf.len() - 1)
    }
}

/// What lossy decoding yields for bytes that are not valid UTF-8: the text
/// with each invalid sequence replaced by U+FFFD.
pub uninterp spec fn utf8_replaced(bytes: Seq<u8>) -> Seq<char>;

/// The text that lossy decoding yields for `bytes`.
pub open spec fn lossy_text(bytes: Seq<u8>) -> Seq<char> {
    if valid_utf8(bytes) {
        decode_utf8(bytes)
    } else {
        utf8_replaced(bytes)
    }
}

/// One record.
#[derive(Debug)]
pub struct Row {
    id: u32,
    username: String,
    email: String,
}

/// The mathematical value of a [`Row`].
#[verifier::ext_equal]
pub struct RowView {
    pub id: u32,
    pub username: Seq<char>,
    pub email: Seq<char>,
}

impl RowView {
    /// The strings leave room for their terminators.
    pub open spec fn fits(self) -> bool {
        &&& encode_utf8(self.username).len() <= COLUMN_USERNAME_SIZE - 1
        &&& encode_utf8(self.email).len() <= COLUMN_EMAIL_SIZE - 1
    }
}

/// What making a row of these values gives: the row where both strings
/// leave room for their terminators, and otherwise the complaint about the
/// first that does not.
pub open spec fn made_row(id: u32, username: Seq<char>, email: Seq<char>) -> Result<
    RowView,
    PrepareFailure,
> {
    if encode_utf8(username).len() > COLUMN_USERNAME_SIZE - 1 {
        Err(PrepareFailure::StringTooLong("username string is too long. (>31)"@))
    } else if encode_utf8(email).len() > COLUMN_EMAIL_SIZE - 1 {
        Err(PrepareFailure::StringTooLong("email string is too long. (>254)"@))
    } else {
        Ok(RowView { id, username, email })
    }
}

/// A slot of zero bytes, as a freshly materialized one.
pub open spec fn blank_slot() -> Seq<u8> {
    Seq::new(ROW_SIZE as nat, |k: int| 0u8)
}

/// The bytes of a slot after `row` has been encoded into it.
pub open spec fn row_image(slot: Seq<u8>, row: RowView) -> Seq<u8> {
    overlay(
        overlay(overlay(slot, 0, le_bytes(row.id)), USERNAME_OFFSET as int, encode_utf8(row.username)),
        EMAIL_OFFSET as int,
        encode_utf8(row.email),
    )
}

/// The row that a slot decodes to.
pub open spec fn row_decoded(slot: Seq<u8>) -> RowView
    recommends
        slot.len() == ROW_SIZE,
{
    RowView {
        id: le_value(slot),
        username: lossy_text(text_field(slot, USERNAME_OFFSET as int)),
        email: lossy_text(text_field(slot, EMAIL_OFFSET as int)),
    }
}

/// Where no byte from `from` up to `end` is zero and the byte at `end` is,
/// the first zero byte at or after `from` is the one at `end`.
proof fn lemma_nul_position(buf: Seq<u8>, from: int, end: int)
    requires
        0 <= from <= end < buf.len(),
        forall|k: int| from <= k < end ==> buf[k] != 0,
        buf[end] == 0,
    ensures
        nul_position(buf, from) == end,
    decreases end - from,
{
    if from < end {
        lemma_nul_position(buf, from + 1, end);
    }
}

/// A row whose strings fit their columns and encode without a zero byte
/// decodes, from a fresh slot it was encoded into, to itself.
pub proof fn lemma_round_trip(row: RowView)
    requires
        row.fits(),
        !encode_utf8(row.username).contains(0u8),
        !encode_utf8(row.email).contains(0u8),
    ensures
        row_decoded(row_image(blank_slot(), row)) == row,
{
    let name = encode_utf8(row.username);
    let mail = encode_utf8(row.email);
    let image = row_image(blank_slot(), row);
    let name_end = USERNAME_OFFSET + name.len();
    let mail_end = EMAIL_OFFSET + mail.len();

    assert forall|k: int| USERNAME_OFFSET <= k < name_end implies image[k] != 0 by {
        assert(image[k] == name[k - USERNAME_OFFSET]);
        assert(name.contains(name[k - USERNAME_OFFSET]));
    }
    assert forall|k: int| EMAIL_OFFSET <= k < mail_end implies image[k] != 0 by {
        assert(image[k] == mail[k - EMAIL_OFFSET]);
        assert(mail.contains(mail[k - EMAIL_OFFSET]));
    }
    lemma_nul_position(image, USERNAME_OFFSET as int, name_end);
    lemma_nul_position(image, EMAIL_OFFSET as int, mail_end);
    assert(text_field(image, USERNAME_OFFSET as int) =~= name);
    assert(text_field(image, EMAIL_OFFSET as int) =~= mail);

    vstd::utf8::encode_utf8_valid_utf8(row.username);
    vstd::utf8::encode_utf8_valid_utf8(row.email);
    vstd::utf8::encode_utf8_decode_utf8(row.username);
    vstd::utf8::encode_utf8_decode_utf8(row.email);

    lemma_le_round_trip(row.id);
    assert(image.take(4) =~= le_bytes(row.id));
    assert(le_value(image) == le_value(le_bytes(row.id)));
}

/// The round trip for plain text: a row with a username of at most 31 ASCII
/// characters and an email of at most 254, none of them NUL, decodes from a
/// fresh slot it was encoded into to itself, whatever its id.
pub proof fn lemma_round_trip_ascii(row: RowView)
    requires
        is_ascii_chars(row.username),
        is_ascii_chars(row.email),
        row.username.len() <= COLUMN_USERNAME_SIZE - 1,
        row.email.len() <= COLUMN_EMAIL_SIZE - 1,
        !row.username.contains('\0'),
        !row.email.contains('\0'),
    ensures
        row_decoded(row_image(blank_slot(), row)) == row,
{
    lemma_ascii_bytes(row.username);
    lemma_ascii_bytes(row.email);
    lemma_round_trip(row);
}

/// Plain text encodes to as many bytes as it has characters, and to a zero
/// byte only where it holds NUL.
proof fn lemma_ascii_bytes(text: Seq<char>)
    requires
        is_ascii_chars(text),
    ensures
        encode_utf8(text).len() == text.len(),
        !text.contains('\0') ==> !encode_utf8(text).contains(0u8),
{
    vstd::utf8::is_ascii_chars_encode_utf8(text);
    let bytes = encode_utf8(text);
    if !text.contains('\0') && bytes.contains(0u8) {
        let i = choose|i: int| 0 <= i < bytes.len() && bytes[i] == 0u8;
        assert(text[i] as u8 == bytes[i]);
        assert(text[i] == '\0');
        assert(text.contains(text[i]));
    }
}

/// Writes `n` over the first four bytes of `buf` with
/// `byteorder::LittleEndian::write_u32`: the four bytes become those of `n`,
/// least significant first, and the rest of `buf` is left as it was.
#[verifier::external_body]
fn write_u32_le(buf: &mut Vec<u8>, n: u32)
    requires
        old(buf).len() >= 4,
    ensures
        final(buf)@ == le_bytes(n) + old(buf)@.skip(4),
{
    LittleEndian::write_u32(buf, n);
}

/// Reads the first four bytes of `buf` with
/// `byteorder::LittleEndian::read_u32`: the number whose bytes, least
/// significant first, they are.
#[verifier::external_body]
fn read_u32_le(buf: &Vec<u8>) -> (n: u32)
    requires
        buf.len() >= 4,
    ensures
        n == le_value(buf@),
{
    LittleEndian::read_u32(buf)
}

/// Decodes `bytes` with `String::from_utf8_lossy`: valid UTF-8 decodes to the
/// text it encodes; anything else to the text named by [`utf8_replaced`].
#[verifier::external_body]
fn decode_lossy(bytes: &Vec<u8>) -> (text: String)
    ensures
        text@ == (if valid_utf8(bytes@) {
            decode_utf8(bytes@)
        } else {
            utf8_replaced(bytes@)
        }),
{
    String::from_utf8_lossy(bytes).into_owned()
}

/// Copies `data` into `buf` from position `at` on, stopping at the end of
/// `buf`.
pub(crate) fn write_at(buf: &mut Vec<u8>, at: usize, data: &[u8])
    requires
        at <= old(buf).len(),
    ensures
        final(buf)@ == overlay(old(buf)@, at as int, data@),
{
    let room: usize = buf.len() - at;
    let mut i: usize = 0;
    while i < data.len() && i < room
        invariant
            buf.len() == old(buf).len(),
            room == buf.len() - at,
            i <= data.len(),
            i <= room,
            forall|k: int| 0 <= k < buf.len() ==> buf@[k] == (if at <= k < at + i {
                data@[k - at]
            } else {
                old(buf)@[k]
            }),
        decreases data.len() - i,
    {
        buf[at + i] = data[i];
        i += 1;
    }
    assert(buf@ =~= overlay(old(buf)@, at as int, data@));
}

/// Reads the text field of `buf` that starts at `from`.
fn read_text(buf: &Vec<u8>, from: usize) -> (text: Vec<u8>)
    requires
        from < buf.len(),
    ensures
        text@ == text_field(buf@, from as int),
{
    let mut end: usize = from;
    while end < buf.len() && buf[end] != 0
        invariant
            from <= end <= buf.len(),
            nul_position(buf@, from as int) == nul_position(buf@, end as int),
        decreases buf.len() - end,
    {
        end += 1;
    }
    let stop: usize = if end < buf.len() {
        end
    } else {
        buf.len() - 1
    };
    let mut text: Vec<u8> = Vec::new();
    let mut i: usize = from;
    while i < stop
        invariant
            from <= i <= stop <= buf.len(),
            text@ == buf@.subrange(from as int, i as int),
        decreases stop - i,
    {
        text.push(buf[i]);
        assert(buf@.subrange(from as int, i + 1) =~= buf@.subrange(from as int, i as int).push(
            buf@[i as int],
        ));
        i += 1;
    }
    text
}

impl View for Row {
    type V = RowView;

    closed spec fn view(&self) -> RowView {
        RowView { id: self.id, username: self.username@, email: self.email@ }
    }
}

impl DeepView for Row {
    type V = RowView;

    open spec fn deep_view(&self) -> RowView {
        self@
    }
}

impl Row {
    /// Makes a row, refusing a string that would not leave room for its
    /// terminator in its column.
    pub fn new(id: u32, username: &str, email: &str) -> (made: Result<Row, PrepareError>)
        ensures
            match made {
                Ok(row) => made_row(id, username@, email@) == Ok::<RowView, PrepareFailure>(row@),
                Err(e) => made_row(id, username@, email@) == Err::<RowView, PrepareFailure>(e@),
            },
    {
        if username.as_bytes().len() > COLUMN_USERNAME_SIZE - 1 {
            return Err(
                PrepareError::StringTooLong("username string is too long. (>31)".to_owned()),
            );
        }
        if email.as_bytes().len() > COLUMN_EMAIL_SIZE - 1 {
            return Err(PrepareError::StringTooLong("email string is too long. (>254)".to_owned()));
        }
        Ok(Row { id, username: username.to_owned(), email: email.to_owned() })
    }

    /// The row's id.
    pub fn id(&self) -> (id: u32)
        ensures
            id == self@.id,
    {
        self.id
    }

    /// The row's username.
    pub fn username(&self) -> (username: &str)
        ensures
            username@ == self@.username,
    {
        self.username.as_str()
    }

    /// The row's email.
    pub fn email(&self) -> (email: &str)
        ensures
            email@ == self@.email,
    {
        self.email.as_str()
    }

    /// Encodes the row into `buf`: the id over bytes 0 to 3, least
    /// significant byte first, then the username from byte 4 on and the
    /// email from byte 36 on. No other byte of `buf` is touched, so a
    /// string reads back as written only where a zero byte follows it.
    pub fn serialize(&self, buf: &mut Vec<u8>)
        requires
            old(buf).len() == ROW_SIZE,
        ensures
            final(buf)@ == row_image(old(buf)@, self@),
    {
        write_u32_le(buf, self.id);
        assert(buf@ =~= overlay(old(buf)@, 0, le_bytes(self.id)));
        write_at(buf, USERNAME_OFFSET, self.username.as_str().as_bytes());
        write_at(buf, EMAIL_OFFSET, self.email.as_str().as_bytes());
    }

    /// Decodes the row held in `buf`: the id from bytes 0 to 3, the
    /// username from byte 4 up to the first zero byte, the email likewise
    /// from byte 36. A text that no zero byte ends within its column runs
    /// on to the next zero byte, and one that no zero byte ends at all takes
    /// the rest of `buf` but its last byte. Bytes that are not valid UTF-8
    /// decode with replacement characters.
    pub fn deserialize(buf: &Vec<u8>) -> (row: Row)
        requires
            buf.len() == ROW_SIZE,
        ensures
            row@ == row_decoded(buf@),
    {
        let id: u32 = read_u32_le(buf);
        let username = read_text(buf, USERNAME_OFFSET);
        let email = read_text(buf, EMAIL_OFFSET);
        Row { id, username: decode_lossy(&username), email: decode_lossy(&email) }
    }
}

} // verus!
