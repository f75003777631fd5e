//! Decoding of backend messages.
//!
//! A backend message arrives as one frame `[id:1][len:4 BE][body]`.
//! [`BackendMessage::parse`] turns a complete frame into a tagged value.
//! Messages with embedded variable-length arrays expose them as
//! restartable cursors that stop at the first malformed element, so a
//! partially damaged message still surfaces everything parseable.

use vstd::prelude::*;

verus! {

/* ------------------------------ Frame tags -------------------------------- */

// ASCII identifier bytes of the backend message frames.

pub const TAG_AUTHENTICATION: u8 = 82;
pub const TAG_BACKEND_KEY_DATA: u8 = 75;
pub const TAG_BIND_COMPLETE: u8 = 50;
pub const TAG_CLOSE_COMPLETE: u8 = 51;
pub const TAG_COMMAND_COMPLETE: u8 = 67;
pub const TAG_COPY_DATA: u8 = 100;
pub const TAG_COPY_DONE: u8 = 99;
pub const TAG_COPY_IN_RESPONSE: u8 = 71;
pub const TAG_COPY_OUT_RESPONSE: u8 = 72;
pub const TAG_COPY_BOTH_RESPONSE: u8 = 87;
pub const TAG_DATA_ROW: u8 = 68;
pub const TAG_EMPTY_QUERY_RESPONSE: u8 = 73;
pub const TAG_ERROR_RESPONSE: u8 = 69;
pub const TAG_FUNCTION_CALL_RESPONSE: u8 = 86;
pub const TAG_NEGOTIATE_PROTOCOL_VERSION: u8 = 118;
pub const TAG_NO_DATA: u8 = 110;
pub const TAG_NOTICE_RESPONSE: u8 = 78;
pub const TAG_NOTIFICATION_RESPONSE: u8 = 65;
pub const TAG_PARAMETER_DESCRIPTION: u8 = 116;
pub const TAG_PARAMETER_STATUS: u8 = 83;
pub const TAG_PARSE_COMPLETE: u8 = 49;
pub const TAG_PORTAL_SUSPENDED: u8 = 115;
pub const TAG_READY_FOR_QUERY: u8 = 90;
pub const TAG_ROW_DESCRIPTION: u8 = 84;

/* ------------------------- Field-level models ----------------------------- */

/// The big-endian 16-bit integer at offset `i` of `s`.
pub open spec fn be16_at(s: Seq<u8>, i: int) -> u16
    recommends
        0 <= i,
        i + 2 <= s.len(),
{
    (s[i] * 256 + s[i + 1]) as u16
}

/// The big-endian 32-bit integer at offset `i` of `s`.
pub open spec fn be32_at(s: Seq<u8>, i: int) -> u32
    recommends
        0 <= i,
        i + 4 <= s.len(),
{
    (s[i] * 16777216 + s[i + 1] * 65536 + s[i + 2] * 256 + s[i + 3]) as u32
}

/// Reinterpretation of a 16-bit unsigned value as two's-complement.
pub open spec fn i16_from_u16(v: u16) -> i16 {
    if v < 32768 {
        v as i16
    } else {
        (v - 65536) as i16
    }
}

/// Offset of the first nul byte of `s`, or `s.len()` if there is none.
pub open spec fn nul_index(s: Seq<u8>) -> int
    decreases s.len(),
{
    if s.len() == 0 {
        0
    } else if s[0] == 0 {
        0
    } else {
        1 + nul_index(s.skip(1))
    }
}

pub proof fn lemma_nul_index_bounds(s: Seq<u8>)
    ensures
        0 <= nul_index(s) <= s.len(),
        nul_index(s) < s.len() ==> s[nul_index(s)] == 0,
        forall|k: int| 0 <= k < nul_index(s) ==> s[k] != 0,
    decreases s.len(),
{
    if s.len() == 0 {
    } else if s[0] == 0 {
    } else {
        lemma_nul_index_bounds(s.skip(1));
        assert forall|k: int| 0 <= k < nul_index(s) implies s[k] != 0 by {
            if k >= 1 {
                assert(s.skip(1)[k - 1] == s[k]);
            }
        }
        if nul_index(s) < s.len() {
            assert(s.skip(1)[nul_index(s) - 1] == s[nul_index(s)]);
        }
    }
}

pub proof fn lemma_nul_index_is(s: Seq<u8>, j: int)
    requires
        0 <= j <= s.len(),
        forall|k: int| 0 <= k < j ==> s[k] != 0,
        j == s.len() || s[j] == 0,
    ensures
        nul_index(s) == j,
    decreases j,
{
    if s.len() == 0 {
    } else if s[0] == 0 {
        assert(j == 0);
    } else {
        assert(j >= 1);
        assert forall|k: int| 0 <= k < j - 1 implies s.skip(1)[k] != 0 by {
            assert(s.skip(1)[k] == s[k + 1]);
        }
        if j < s.len() {
            assert(s.skip(1)[j - 1] == s[j]);
        }
        lemma_nul_index_is(s.skip(1), j - 1);
    }
}

/* ------------------------- Low-level field parsing ------------------------ */

// These functions parse the PostgreSQL message data types over a
// cursor, a pair of a byte slice and an offset into it.  They are named
// `parse_<pgty>_<rsty>` where `<pgty>` is the message data type and
// `<rsty>` is the corresponding Rust type.  Each either yields the
// value with the advanced offset or reports that too few bytes remain.

/// Consume one byte.
pub fn parse_int8_u8(buf: &[u8], pos: usize) -> (r: Option<(u8, usize)>)
    requires
        pos <= buf@.len(),
    ensures
        match r {
            Some(v) => {
                &&& pos + 1 <= buf@.len()
                &&& v.0 == buf@[pos as int]
                &&& v.1 == pos + 1
            },
            None => pos == buf@.len(),
        },
{
    if buf.len() - pos >= 1 {
        Some((buf[pos], pos + 1))
    } else {
        None
    }
}

/// Consume two bytes as a big-endian unsigned integer.
pub fn parse_int16_u16(buf: &[u8], pos: usize) -> (r: Option<(u16, usize)>)
    requires
        pos <= buf@.len(),
    ensures
        match r {
            Some(v) => {
                &&& pos + 2 <= buf@.len()
                &&& v.0 == be16_at(buf@.skip(pos as int), 0)
                &&& v.1 == pos + 2
            },
            None => buf@.len() - pos < 2,
        },
{
    if buf.len() - pos >= 2 {
        let v: u16 = (buf[pos] as u16) * 256 + (buf[pos + 1] as u16);
        assert(buf@.skip(pos as int)[0] == buf@[pos as int]);
        assert(buf@.skip(pos as int)[1] == buf@[pos as int + 1]);
        Some((v, pos + 2))
    } else {
        None
    }
}

/// Consume two bytes as a big-endian signed integer.
pub fn parse_int16_i16(buf: &[u8], pos: usize) -> (r: Option<(i16, usize)>)
    requires
        pos <= buf@.len(),
    ensures
        match r {
            Some(v) => {
                &&& pos + 2 <= buf@.len()
                &&& v.0 == i16_from_u16(be16_at(buf@.skip(pos as int), 0))
                &&& v.1 == pos + 2
            },
            None => buf@.len() - pos < 2,
        },
{
    match parse_int16_u16(buf, pos) {
        Some((v, p)) => {
            let w: i16 = if v < 32768 {
                v as i16
            } else {
                let d: u16 = 65535 - v;
                -(d as i16) - 1
            };
            Some((w, p))
        },
        None => None,
    }
}

/// Consume four bytes as a big-endian unsigned integer.
pub fn parse_int32_u32(buf: &[u8], pos: usize) -> (r: Option<(u32, usize)>)
    requires
        pos <= buf@.len(),
    ensures
        match r {
            Some(v) => {
                &&& pos + 4 <= buf@.len()
                &&& v.0 == be32_at(buf@.skip(pos as int), 0)
                &&& v.1 == pos + 4
            },
            None => buf@.len() - pos < 4,
        },
{
    if buf.len() - pos >= 4 {
        let v: u32 = (buf[pos] as u32) * 16777216 + (buf[pos + 1] as u32) * 65536
            + (buf[pos + 2] as u32) * 256 + (buf[pos + 3] as u32);
        assert(buf@.skip(pos as int)[0] == buf@[pos as int]);
        assert(buf@.skip(pos as int)[1] == buf@[pos as int + 1]);
        assert(buf@.skip(pos as int)[2] == buf@[pos as int + 2]);
        assert(buf@.skip(pos as int)[3] == buf@[pos as int + 3]);
        Some((v, pos + 4))
    } else {
        None
    }
}

/// Copy `buf[start .. end]` into an owned vector.
pub fn copy_range(buf: &[u8], start: usize, end: usize) -> (v: Vec<u8>)
    requires
        start <= end <= buf@.len(),
    ensures
        v@ == buf@.subrange(start as int, end as int),
{
    let mut v: Vec<u8> = Vec::new();
    let mut i: usize = start;
    while i < end
        invariant
            start <= i <= end <= buf@.len(),
            v@ == buf@.subrange(start as int, i as int),
        decreases end - i,
    {
        v.push(buf[i]);
        i = i + 1;
        assert(buf@.subrange(start as int, i as int) =~= buf@.subrange(
            start as int,
            i - 1,
        ).push(buf@[i - 1]));
    }
    v
}

/// Consume the nul-terminated string that starts at the cursor,
/// yielding its bytes without the terminator.
pub fn parse_string_cstr(buf: &[u8], pos: usize) -> (r: Option<(Vec<u8>, usize)>)
    requires
        pos <= buf@.len(),
    ensures
        ({
            let s = buf@.skip(pos as int);
            match r {
                Some(v) => {
                    &&& nul_index(s) < s.len()
                    &&& v.0@ == s.take(nul_index(s))
                    &&& v.1 == pos + nul_index(s) + 1
                    &&& v.1 <= buf@.len()
                },
                None => nul_index(s) == s.len(),
            }
        }),
{
    let ghost s = buf@.skip(pos as int);
    let mut i: usize = pos;
    while i < buf.len() && buf[i] != 0
        invariant
            pos <= i <= buf@.len(),
            forall|k: int| pos <= k < i ==> buf@[k] != 0,
        decreases buf@.len() - i,
    {
        i = i + 1;
    }
    proof {
        assert forall|k: int| 0 <= k < i - pos implies s[k] != 0 by {
            assert(s[k] == buf@[pos + k]);
        }
        if i < buf@.len() {
            assert(s[i - pos] == buf@[i as int]);
        }
        lemma_nul_index_is(s, i - pos);
    }
    if i < buf.len() {
        let value = copy_range(buf, pos, i);
        proof {
            assert(value@ =~= s.take(nul_index(s)));
        }
        Some((value, i + 1))
    } else {
        None
    }
}

/* ----------------- Shifting helpers for field models ---------------------- */

pub proof fn lemma_be16_shift(s: Seq<u8>, a: int, b: int)
    requires
        0 <= a,
        0 <= b,
        a + b + 2 <= s.len(),
    ensures
        be16_at(s.skip(a), b) == be16_at(s.skip(a + b), 0),
{
    assert(s.skip(a)[b] == s[a + b]);
    assert(s.skip(a)[b + 1] == s[a + b + 1]);
    assert(s.skip(a + b)[0] == s[a + b]);
    assert(s.skip(a + b)[1] == s[a + b + 1]);
}

pub proof fn lemma_be32_shift(s: Seq<u8>, a: int, b: int)
    requires
        0 <= a,
        0 <= b,
        a + b + 4 <= s.len(),
    ensures
        be32_at(s.skip(a), b) == be32_at(s.skip(a + b), 0),
{
    assert(s.skip(a)[b] == s[a + b] && s.skip(a + b)[0] == s[a + b]);
    assert(s.skip(a)[b + 1] == s[a + b + 1] && s.skip(a + b)[1] == s[a + b + 1]);
    assert(s.skip(a)[b + 2] == s[a + b + 2] && s.skip(a + b)[2] == s[a + b + 2]);
    assert(s.skip(a)[b + 3] == s[a + b + 3] && s.skip(a + b)[3] == s[a + b + 3]);
}

pub proof fn lemma_skip_skip(s: Seq<u8>, a: int, b: int)
    requires
        0 <= a,
        0 <= b,
        a + b <= s.len(),
    ensures
        s.skip(a).skip(b) == s.skip(a + b),
{
    assert(s.skip(a).skip(b) =~= s.skip(a + b));
}

/// Consume exactly `n` bytes, yielding them as an owned vector.
pub fn parse_bytes_slice(buf: &[u8], pos: usize, n: usize) -> (r: Option<(Vec<u8>, usize)>)
    requires
        pos <= buf@.len(),
    ensures
        ({
            let s = buf@.skip(pos as int);
            match r {
                Some(v) => {
                    &&& n <= s.len()
                    &&& v.0@ == s.take(n as int)
                    &&& v.1 == pos + n
                },
                None => n > s.len(),
            }
        }),
{
    if buf.len() - pos >= n {
        let value = copy_range(buf, pos, pos + n);
        proof {
            assert(value@ =~= buf@.skip(pos as int).take(n as int));
        }
        Some((value, pos + n))
    } else {
        None
    }
}

/* ------------- Iterators over array fields of backend messages ------------ */

// Each array-bearing message stores the raw tail of its frame.  A
// cursor parses one element per `next` call and stops at the first
// malformed element or when the tail is exhausted; the declared element
// count of the enclosing message is deliberately ignored.  The items a
// cursor yields are a function of its remaining bytes alone, so two
// cursors over the same bytes yield identical sequences.

/// The `Int16` values encoded at the front of `s`, greedily.
pub open spec fn int16_items(s: Seq<u8>) -> Seq<u16>
    decreases s.len(),
{
    if s.len() < 2 {
        Seq::empty()
    } else {
        seq![be16_at(s, 0)] + int16_items(s.skip(2))
    }
}

/// The `Int32` values encoded at the front of `s`, greedily.
pub open spec fn int32_items(s: Seq<u8>) -> Seq<u32>
    decreases s.len(),
{
    if s.len() < 4 {
        Seq::empty()
    } else {
        seq![be32_at(s, 0)] + int32_items(s.skip(4))
    }
}

/// The nul-terminated strings encoded at the front of `s`, greedily.
pub open spec fn string_items(s: Seq<u8>) -> Seq<Seq<u8>>
    decreases s.len(),
    via string_items_decreases
{
    if nul_index(s) < s.len() {
        seq![s.take(nul_index(s))] + string_items(s.skip(nul_index(s) + 1))
    } else {
        Seq::empty()
    }
}

#[via_fn]
proof fn string_items_decreases(s: Seq<u8>) {
    lemma_nul_index_bounds(s);
}

/// Model of an [`ErrorNoticeField`].
pub struct ErrorNoticeFieldModel {
    pub type_code: u8,
    pub value: Seq<u8>,
}

/// Subordinate field of an `ErrorResponse` or `NoticeResponse` field
/// list: a non-zero type code and a nul-terminated value.
#[derive(Clone, Debug)]
pub struct ErrorNoticeField {
    pub type_code: u8,
    pub value: Vec<u8>,
}

impl View for ErrorNoticeField {
    type V = ErrorNoticeFieldModel;

    open spec fn view(&self) -> ErrorNoticeFieldModel {
        ErrorNoticeFieldModel { type_code: self.type_code, value: self.value@ }
    }
}

/// The models of a sequence of owned error/notice fields.
pub open spec fn field_views(s: Seq<ErrorNoticeField>) -> Seq<ErrorNoticeFieldModel> {
    s.map_values(|f: ErrorNoticeField| f@)
}

/// The error/notice fields encoded at the front of `s`, greedily.
pub open spec fn error_notice_items(s: Seq<u8>) -> Seq<ErrorNoticeFieldModel>
    decreases s.len(),
    via error_notice_items_decreases
{
    if s.len() == 0 || s[0] == 0 {
        Seq::empty()
    } else {
        let rest = s.skip(1);
        if nul_index(rest) < rest.len() {
            seq![ErrorNoticeFieldModel { type_code: s[0], value: rest.take(nul_index(rest)) }]
                + error_notice_items(rest.skip(nul_index(rest) + 1))
        } else {
            Seq::empty()
        }
    }
}

#[via_fn]
proof fn error_notice_items_decreases(s: Seq<u8>) {
    if s.len() > 0 && s[0] != 0 {
        lemma_nul_index_bounds(s.skip(1));
    }
}

/// View of a `DataRow` column: the column bytes, or nothing for NULL.
pub open spec fn opt_bytes_view(o: Option<Vec<u8>>) -> Option<Seq<u8>> {
    match o {
        Some(v) => Some(v@),
        None => None,
    }
}

/// The `DataRow` column values encoded at the front of `s`, greedily.
/// A length of `-1` (all ones) stands for a NULL column.
pub open spec fn data_row_items(s: Seq<u8>) -> Seq<Option<Seq<u8>>>
    decreases s.len(),
{
    if s.len() < 4 {
        Seq::empty()
    } else {
        let l = be32_at(s, 0);
        if l == 0xFFFF_FFFFu32 {
            seq![Option::<Seq<u8>>::None] + data_row_items(s.skip(4))
        } else if 4 + l <= s.len() {
            seq![Option::<Seq<u8>>::Some(s.subrange(4, 4 + l))] + data_row_items(s.skip(4 + l))
        } else {
            Seq::empty()
        }
    }
}

/// Model of a [`RowDescriptionField`].
pub struct RowDescriptionFieldModel {
    pub name: Seq<u8>,
    pub table_oid: Option<u32>,
    pub attribute_number: Option<u16>,
    pub data_type_oid: u32,
    pub data_type_size: i16,
    pub data_type_modifier: u32,
    pub format_code: u16,
}

/// Subordinate fields of a `RowDescription` field record.
///
/// A `table_oid` or `attribute_number` of zero on the wire means "not
/// a real column" and is mapped to `None`.
#[derive(Clone, Debug)]
pub struct RowDescriptionField {
    pub name: Vec<u8>,
    pub table_oid: Option<u32>,
    pub attribute_number: Option<u16>,
    pub data_type_oid: u32,
    pub data_type_size: i16,
    pub data_type_modifier: u32,
    pub format_code: u16,
}

impl View for RowDescriptionField {
    type V = RowDescriptionFieldModel;

    open spec fn view(&self) -> RowDescriptionFieldModel {
        RowDescriptionFieldModel {
            name: self.name@,
            table_oid: self.table_oid,
            attribute_number: self.attribute_number,
            data_type_oid: self.data_type_oid,
            data_type_size: self.data_type_size,
            data_type_modifier: self.data_type_modifier,
            format_code: self.format_code,
        }
    }
}

/// `None` for a zero value, as the protocol uses zero for "absent".
pub open spec fn nonzero_u32(v: u32) -> Option<u32> {
    if v == 0 {
        None
    } else {
        Some(v)
    }
}

/// `None` for a zero value, as the protocol uses zero for "absent".
pub open spec fn nonzero_u16(v: u16) -> Option<u16> {
    if v == 0 {
        None
    } else {
        Some(v)
    }
}

/// The `RowDescription` record whose nul-terminated name ends at `j`.
pub open spec fn row_description_field_at(s: Seq<u8>, j: int) -> RowDescriptionFieldModel {
    RowDescriptionFieldModel {
        name: s.take(j),
        table_oid: nonzero_u32(be32_at(s, j + 1)),
        attribute_number: nonzero_u16(be16_at(s, j + 5)),
        data_type_oid: be32_at(s, j + 7),
        data_type_size: i16_from_u16(be16_at(s, j + 11)),
        data_type_modifier: be32_at(s, j + 13),
        format_code: be16_at(s, j + 17),
    }
}

/// The `RowDescription` records encoded at the front of `s`, greedily.
pub open spec fn row_description_items(s: Seq<u8>) -> Seq<RowDescriptionFieldModel>
    decreases s.len(),
    via row_description_items_decreases
{
    if s.len() == 0 {
        Seq::empty()
    } else {
        let j = nul_index(s);
        if j + 19 <= s.len() {
            seq![row_description_field_at(s, j)] + row_description_items(s.skip(j + 19))
        } else {
            Seq::empty()
        }
    }
}

#[via_fn]
proof fn row_description_items_decreases(s: Seq<u8>) {
    if s.len() > 0 {
        lemma_nul_index_bounds(s);
    }
}

/// Cursor over an array of `Int16`s.
#[derive(Clone, Debug)]
pub struct Int16Array {
    bytes: Vec<u8>,
    pos: usize,
}

impl View for Int16Array {
    type V = Seq<u8>;

    /// The bytes the cursor has not consumed yet.
    closed spec fn view(&self) -> Seq<u8> {
        if self.pos as int <= self.bytes@.len() {
            self.bytes@.skip(self.pos as int)
        } else {
            Seq::empty()
        }
    }
}

impl Int16Array {
    /// The items this cursor will yield, in order.
    pub open spec fn items(&self) -> Seq<u16> {
        int16_items(self@)
    }

    pub fn from_bytes(bytes: Vec<u8>) -> (r: Self)
        ensures
            r@ == bytes@,
    {
        Int16Array { bytes, pos: 0 }
    }

    /// Parse the next element, or stop at exhaustion or damage.
    pub fn next(&mut self) -> (r: Option<u16>)
        ensures
            match r {
                Some(v) => {
                    &&& old(self)@.len() >= 2
                    &&& v == be16_at(old(self)@, 0)
                    &&& final(self)@ == old(self)@.skip(2)
                    &&& old(self).items() == seq![v] + final(self).items()
                },
                None => {
                    &&& old(self)@.len() < 2
                    &&& final(self)@ == old(self)@
                    &&& old(self).items() == Seq::<u16>::empty()
                },
            },
    {
        if self.pos <= self.bytes.len() && self.bytes.len() - self.pos >= 2 {
            match parse_int16_u16(self.bytes.as_slice(), self.pos) {
                Some((v, p)) => {
                    proof {
                        lemma_skip_skip(self.bytes@, self.pos as int, 2);
                    }
                    self.pos = p;
                    Some(v)
                },
                None => None,
            }
        } else {
            None
        }
    }
}

/// Cursor over an array of `Int32`s.
#[derive(Clone, Debug)]
pub struct Int32Array {
    bytes: Vec<u8>,
    pos: usize,
}

impl View for Int32Array {
    type V = Seq<u8>;

    /// The bytes the cursor has not consumed yet.
    closed spec fn view(&self) -> Seq<u8> {
        if self.pos as int <= self.bytes@.len() {
            self.bytes@.skip(self.pos as int)
        } else {
            Seq::empty()
        }
    }
}

impl Int32Array {
    /// The items this cursor will yield, in order.
    pub open spec fn items(&self) -> Seq<u32> {
        int32_items(self@)
    }

    pub fn from_bytes(bytes: Vec<u8>) -> (r: Self)
        ensures
            r@ == bytes@,
    {
        Int32Array { bytes, pos: 0 }
    }

    /// Parse the next element, or stop at exhaustion or damage.
    pub fn next(&mut self) -> (r: Option<u32>)
        ensures
            match r {
                Some(v) => {
                    &&& old(self)@.len() >= 4
                    &&& v == be32_at(old(self)@, 0)
                    &&& final(self)@ == old(self)@.skip(4)
                    &&& old(self).items() == seq![v] + final(self).items()
                },
                None => {
                    &&& old(self)@.len() < 4
                    &&& final(self)@ == old(self)@
                    &&& old(self).items() == Seq::<u32>::empty()
                },
            },
    {
        if self.pos <= self.bytes.len() && self.bytes.len() - self.pos >= 4 {
            match parse_int32_u32(self.bytes.as_slice(), self.pos) {
                Some((v, p)) => {
                    proof {
                        lemma_skip_skip(self.bytes@, self.pos as int, 4);
                    }
                    self.pos = p;
                    Some(v)
                },
                None => None,
            }
        } else {
            None
        }
    }
}

/// Cursor over an array of nul-terminated strings.
#[derive(Clone, Debug)]
pub struct StringArray {
    bytes: Vec<u8>,
    pos: usize,
}

impl View for StringArray {
    type V = Seq<u8>;

    /// The bytes the cursor has not consumed yet.
    closed spec fn view(&self) -> Seq<u8> {
        if self.pos as int <= self.bytes@.len() {
            self.bytes@.skip(self.pos as int)
        } else {
            Seq::empty()
        }
    }
}

impl StringArray {
    /// The items this cursor will yield, in order.
    pub open spec fn items(&self) -> Seq<Seq<u8>> {
        string_items(self@)
    }

    pub fn from_bytes(bytes: Vec<u8>) -> (r: Self)
        ensures
            r@ == bytes@,
    {
        StringArray { bytes, pos: 0 }
    }

    /// Parse the next element, or stop at exhaustion or damage.
    pub fn next(&mut self) -> (r: Option<Vec<u8>>)
        ensures
            match r {
                Some(v) => {
                    &&& nul_index(old(self)@) < old(self)@.len()
                    &&& v@ == old(self)@.take(nul_index(old(self)@))
                    &&& final(self)@ == old(self)@.skip(nul_index(old(self)@) + 1)
                    &&& old(self).items() == seq![v@] + final(self).items()
                },
                None => {
                    &&& nul_index(old(self)@) == old(self)@.len()
                    &&& final(self)@ == old(self)@
                    &&& old(self).items() == Seq::<Seq<u8>>::empty()
                },
            },
    {
        if self.pos > self.bytes.len() {
            return None;
        }
        match parse_string_cstr(self.bytes.as_slice(), self.pos) {
            Some((v, p)) => {
                proof {
                    lemma_nul_index_bounds(self@);
                    lemma_skip_skip(self.bytes@, self.pos as int, nul_index(self@) + 1);
                }
                self.pos = p;
                Some(v)
            },
            None => None,
        }
    }
}

/// Cursor over the fields of an `ErrorResponse` or `NoticeResponse`.
#[derive(Clone, Debug)]
pub struct ErrorNoticeFieldArray {
    bytes: Vec<u8>,
    pos: usize,
}

impl View for ErrorNoticeFieldArray {
    type V = Seq<u8>;

    /// The bytes the cursor has not consumed yet.
    closed spec fn view(&self) -> Seq<u8> {
        if self.pos as int <= self.bytes@.len() {
            self.bytes@.skip(self.pos as int)
        } else {
            Seq::empty()
        }
    }
}

impl ErrorNoticeFieldArray {
    /// The items this cursor will yield, in order.
    pub open spec fn items(&self) -> Seq<ErrorNoticeFieldModel> {
        error_notice_items(self@)
    }

    pub fn from_bytes(bytes: Vec<u8>) -> (r: Self)
        ensures
            r@ == bytes@,
    {
        ErrorNoticeFieldArray { bytes, pos: 0 }
    }

    /// Copy the bytes the cursor has not consumed yet.
    pub fn remaining_to_vec(&self) -> (r: Vec<u8>)
        ensures
            r@ == self@,
    {
        if self.pos <= self.bytes.len() {
            let r = copy_range(self.bytes.as_slice(), self.pos, self.bytes.len());
            proof {
                assert(r@ =~= self@);
            }
            r
        } else {
            Vec::new()
        }
    }

    /// Parse the next field, or stop at exhaustion, at the zero byte
    /// that terminates the list, or at damage.
    pub fn next(&mut self) -> (r: Option<ErrorNoticeField>)
        ensures
            match r {
                Some(f) => {
                    &&& f.type_code != 0
                    &&& old(self).items() == seq![f@] + final(self).items()
                    &&& final(self)@.len() < old(self)@.len()
                },
                None => {
                    &&& old(self).items() == Seq::<ErrorNoticeFieldModel>::empty()
                    &&& final(self)@ == old(self)@
                },
            },
    {
        if self.pos >= self.bytes.len() {
            return None;
        }
        let type_code: u8 = self.bytes[self.pos];
        if type_code == 0 {
            return None;
        }
        let ghost v0 = self@;
        assert(v0[0] == type_code);
        match parse_string_cstr(self.bytes.as_slice(), self.pos + 1) {
            Some((value, p)) => {
                proof {
                    lemma_skip_skip(self.bytes@, self.pos as int, 1);
                    assert(v0.skip(1) == self.bytes@.skip(self.pos + 1));
                    lemma_nul_index_bounds(v0.skip(1));
                    lemma_skip_skip(
                        self.bytes@,
                        self.pos + 1,
                        nul_index(v0.skip(1)) + 1,
                    );
                }
                self.pos = p;
                Some(ErrorNoticeField { type_code, value })
            },
            None => {
                proof {
                    lemma_skip_skip(self.bytes@, self.pos as int, 1);
                }
                None
            },
        }
    }

    /// Drain the cursor into an owned vector of fields.
    #[verifier::loop_isolation(false)]
    pub fn collect(self) -> (r: Vec<ErrorNoticeField>)
        ensures
            field_views(r@) == self.items(),
    {
        let mut cursor = self;
        let ghost all = cursor.items();
        let mut r: Vec<ErrorNoticeField> = Vec::new();
        proof {
            assert(all =~= field_views(r@) + cursor.items());
        }
        loop
            invariant
                all == field_views(r@) + cursor.items(),
            decreases cursor@.len(),
        {
            match cursor.next() {
                Some(f) => {
                    r.push(f);
                    proof {
                        assert(field_views(r@) =~= field_views(r@.drop_last()).push(r@.last()@));
                        assert(all =~= field_views(r@) + cursor.items());
                    }
                },
                None => {
                    proof {
                        assert(all =~= field_views(r@));
                    }
                    return r;
                },
            }
        }
    }
}

/// Cursor over an array of `DataRow` column values.
#[derive(Clone, Debug)]
pub struct DataRowColumnValueArray {
    bytes: Vec<u8>,
    pos: usize,
}

impl View for DataRowColumnValueArray {
    type V = Seq<u8>;

    /// The bytes the cursor has not consumed yet.
    closed spec fn view(&self) -> Seq<u8> {
        if self.pos as int <= self.bytes@.len() {
            self.bytes@.skip(self.pos as int)
        } else {
            Seq::empty()
        }
    }
}

impl DataRowColumnValueArray {
    /// The items this cursor will yield, in order.
    pub open spec fn items(&self) -> Seq<Option<Seq<u8>>> {
        data_row_items(self@)
    }

    pub fn from_bytes(bytes: Vec<u8>) -> (r: Self)
        ensures
            r@ == bytes@,
    {
        DataRowColumnValueArray { bytes, pos: 0 }
    }

    /// Parse the next column value, or stop at exhaustion or damage.
    /// An inner `None` is a NULL column.
    pub fn next(&mut self) -> (r: Option<Option<Vec<u8>>>)
        ensures
            match r {
                Some(item) => {
                    &&& old(self).items() == seq![opt_bytes_view(item)] + final(self).items()
                    &&& final(self)@.len() < old(self)@.len()
                },
                None => {
                    &&& old(self).items() == Seq::<Option<Seq<u8>>>::empty()
                    &&& final(self)@ == old(self)@
                },
            },
    {
        if self.pos > self.bytes.len() {
            return None;
        }
        let ghost v0 = self@;
        match parse_int32_u32(self.bytes.as_slice(), self.pos) {
            Some((length, p)) => {
                proof {
                    lemma_be32_shift(self.bytes@, self.pos as int, 0);
                    assert(be32_at(v0, 0) == length);
                }
                if length == 0xFFFF_FFFFu32 {
                    proof {
                        lemma_skip_skip(self.bytes@, self.pos as int, 4);
                    }
                    self.pos = p;
                    Some(None)
                } else {
                    let n: usize = crate::usize_conversions::u32_to_usize(length);
                    match parse_bytes_slice(self.bytes.as_slice(), p, n) {
                        Some((value, p2)) => {
                            proof {
                                lemma_skip_skip(self.bytes@, self.pos as int, 4);
                                assert(value@ =~= v0.subrange(4, 4 + length as int));
                                lemma_skip_skip(
                                    self.bytes@,
                                    self.pos as int,
                                    4 + length as int,
                                );
                            }
                            self.pos = p2;
                            Some(Some(value))
                        },
                        None => {
                            proof {
                                lemma_skip_skip(self.bytes@, self.pos as int, 4);
                            }
                            None
                        },
                    }
                }
            },
            None => None,
        }
    }
}

/// Cursor over an array of `RowDescription` field records.
#[derive(Clone, Debug)]
pub struct RowDescriptionFieldArray {
    bytes: Vec<u8>,
    pos: usize,
}

impl View for RowDescriptionFieldArray {
    type V = Seq<u8>;

    /// The bytes the cursor has not consumed yet.
    closed spec fn view(&self) -> Seq<u8> {
        if self.pos as int <= self.bytes@.len() {
            self.bytes@.skip(self.pos as int)
        } else {
            Seq::empty()
        }
    }
}

impl RowDescriptionFieldArray {
    /// The items this cursor will yield, in order.
    pub open spec fn items(&self) -> Seq<RowDescriptionFieldModel> {
        row_description_items(self@)
    }

    pub fn from_bytes(bytes: Vec<u8>) -> (r: Self)
        ensures
            r@ == bytes@,
    {
        RowDescriptionFieldArray { bytes, pos: 0 }
    }

    /// Parse the next field record, or stop at exhaustion or damage.
    pub fn next(&mut self) -> (r: Option<RowDescriptionField>)
        ensures
            match r {
                Some(f) => {
                    &&& old(self).items() == seq![f@] + final(self).items()
                    &&& final(self)@.len() < old(self)@.len()
                },
                None => {
                    &&& old(self).items() == Seq::<RowDescriptionFieldModel>::empty()
                    &&& final(self)@ == old(self)@
                },
            },
    {
        if self.pos > self.bytes.len() {
            return None;
        }
        let ghost v0 = self@;
        let name = match parse_string_cstr(self.bytes.as_slice(), self.pos) {
            Some(v) => v,
            None => {
                return None;
            },
        };
        let ghost j = nul_index(v0);
        proof {
            lemma_nul_index_bounds(v0);
        }
        let after_name: usize = name.1;
        if self.bytes.len() - after_name < 18 {
            return None;
        }
        let table_oid_raw = match parse_int32_u32(self.bytes.as_slice(), after_name) {
            Some(v) => v,
            None => {
                return None;
            },
        };
        let attribute_number_raw = match parse_int16_u16(self.bytes.as_slice(), table_oid_raw.1) {
            Some(v) => v,
            None => {
                return None;
            },
        };
        let data_type_oid = match parse_int32_u32(self.bytes.as_slice(), attribute_number_raw.1) {
            Some(v) => v,
            None => {
                return None;
            },
        };
        let data_type_size = match parse_int16_i16(self.bytes.as_slice(), data_type_oid.1) {
            Some(v) => v,
            None => {
                return None;
            },
        };
        let data_type_modifier = match parse_int32_u32(self.bytes.as_slice(), data_type_size.1) {
            Some(v) => v,
            None => {
                return None;
            },
        };
        let format_code = match parse_int16_u16(self.bytes.as_slice(), data_type_modifier.1) {
            Some(v) => v,
            None => {
                return None;
            },
        };
        proof {
            lemma_be32_shift(self.bytes@, self.pos as int, j + 1);
            lemma_be16_shift(self.bytes@, self.pos as int, j + 5);
            lemma_be32_shift(self.bytes@, self.pos as int, j + 7);
            lemma_be16_shift(self.bytes@, self.pos as int, j + 11);
            lemma_be32_shift(self.bytes@, self.pos as int, j + 13);
            lemma_be16_shift(self.bytes@, self.pos as int, j + 17);
            lemma_skip_skip(self.bytes@, self.pos as int, j + 19);
        }
        let table_oid: Option<u32> = if table_oid_raw.0 == 0 {
            None
        } else {
            Some(table_oid_raw.0)
        };
        let attribute_number: Option<u16> = if attribute_number_raw.0 == 0 {
            None
        } else {
            Some(attribute_number_raw.0)
        };
        self.pos = format_code.1;
        let item = RowDescriptionField {
            name: name.0,
            table_oid,
            attribute_number,
            data_type_oid: data_type_oid.0,
            data_type_size: data_type_size.0,
            data_type_modifier: data_type_modifier.0,
            format_code: format_code.0,
        };
        Some(item)
    }
}

/* --------------------------- Backend messages ----------------------------- */

/// Model of a decoded [`BackendMessage`]: every borrowed or cursored
/// payload is a byte sequence.
pub enum BackendMessageModel {
    AuthenticationOk,
    AuthenticationKerberosV5,
    AuthenticationCleartextPassword,
    AuthenticationMD5Password { salt: Seq<u8> },
    AuthenticationSCMCredential,
    AuthenticationGSS,
    AuthenticationGSSContinue { authentication_data: Seq<u8> },
    AuthenticationSSPI,
    AuthenticationSASL { authentication_mechanism_names: Seq<u8> },
    AuthenticationSASLContinue { data: Seq<u8> },
    AuthenticationSASLFinal { additional_data: Seq<u8> },
    BackendKeyData { this_backend_process_id: u32, this_backend_secret_key: u32 },
    BindComplete,
    CloseComplete,
    CommandComplete { command_tag: Seq<u8> },
    CopyData { data: Seq<u8> },
    CopyDone,
    CopyInResponse { overall_copy_format: u8, column_format_codes: Seq<u8> },
    CopyOutResponse { overall_copy_format: u8, column_format_codes: Seq<u8> },
    CopyBothResponse { overall_copy_format: u8, column_format_codes: Seq<u8> },
    DataRow { column_values: Seq<u8> },
    EmptyQueryResponse,
    ErrorResponse { fields: Seq<u8> },
    FunctionCallResponse { result_value: Option<Seq<u8>> },
    NegotiateProtocolVersion {
        newest_minor_protocol_version: u32,
        unrecognized_option_names: Seq<u8>,
    },
    NoData,
    NoticeResponse { fields: Seq<u8> },
    NotificationResponse {
        notifying_backend_process_id: u32,
        channel_name: Seq<u8>,
        payload: Seq<u8>,
    },
    ParameterDescription { data_type_oids: Seq<u8> },
    ParameterStatus { name: Seq<u8>, current_value: Seq<u8> },
    ParseComplete,
    PortalSuspended,
    ReadyForQuery { transaction_status_indicator: u8 },
    RowDescription { fields: Seq<u8> },
}

/// Decoded backend message.
///
/// Variants with variable-length arrays carry restartable cursors over
/// an owned copy of the relevant frame tail.
#[derive(Clone, Debug)]
pub enum BackendMessage {
    AuthenticationOk,
    AuthenticationKerberosV5,
    AuthenticationCleartextPassword,
    AuthenticationMD5Password { salt: [u8; 4] },
    AuthenticationSCMCredential,
    AuthenticationGSS,
    AuthenticationGSSContinue { authentication_data: Vec<u8> },
    AuthenticationSSPI,
    AuthenticationSASL { authentication_mechanism_names: StringArray },
    AuthenticationSASLContinue { data: Vec<u8> },
    AuthenticationSASLFinal { additional_data: Vec<u8> },
    BackendKeyData { this_backend_process_id: u32, this_backend_secret_key: u32 },
    BindComplete,
    CloseComplete,
    CommandComplete { command_tag: Vec<u8> },
    CopyData { data: Vec<u8> },
    CopyDone,
    CopyInResponse { overall_copy_format: u8, column_format_codes: Int16Array },
    CopyOutResponse { overall_copy_format: u8, column_format_codes: Int16Array },
    CopyBothResponse { overall_copy_format: u8, column_format_codes: Int16Array },
    DataRow { column_values: DataRowColumnValueArray },
    EmptyQueryResponse,
    ErrorResponse { fields: ErrorNoticeFieldArray },
    FunctionCallResponse { result_value: Option<Vec<u8>> },
    NegotiateProtocolVersion {
        newest_minor_protocol_version: u32,
        unrecognized_option_names: StringArray,
    },
    NoData,
    NoticeResponse { fields: ErrorNoticeFieldArray },
    NotificationResponse {
        notifying_backend_process_id: u32,
        channel_name: Vec<u8>,
        payload: Vec<u8>,
    },
    ParameterDescription { data_type_oids: Int32Array },
    ParameterStatus { name: Vec<u8>, current_value: Vec<u8> },
    ParseComplete,
    PortalSuspended,
    ReadyForQuery { transaction_status_indicator: u8 },
    RowDescription { fields: RowDescriptionFieldArray },
}

impl View for BackendMessage {
    type V = BackendMessageModel;

    open spec fn view(&self) -> BackendMessageModel {
        match self {
            BackendMessage::AuthenticationOk => BackendMessageModel::AuthenticationOk,
            BackendMessage::AuthenticationKerberosV5 => BackendMessageModel::AuthenticationKerberosV5,
            BackendMessage::AuthenticationCleartextPassword => BackendMessageModel::AuthenticationCleartextPassword,
            BackendMessage::AuthenticationMD5Password { salt } => BackendMessageModel::AuthenticationMD5Password { salt: salt@ },
            BackendMessage::AuthenticationSCMCredential => BackendMessageModel::AuthenticationSCMCredential,
            BackendMessage::AuthenticationGSS => BackendMessageModel::AuthenticationGSS,
            BackendMessage::AuthenticationGSSContinue { authentication_data } => BackendMessageModel::AuthenticationGSSContinue { authentication_data: authentication_data@ },
            BackendMessage::AuthenticationSSPI => BackendMessageModel::AuthenticationSSPI,
            BackendMessage::AuthenticationSASL { authentication_mechanism_names } => BackendMessageModel::AuthenticationSASL { authentication_mechanism_names: authentication_mechanism_names@ },
            BackendMessage::AuthenticationSASLContinue { data } => BackendMessageModel::AuthenticationSASLContinue { data: data@ },
            BackendMessage::AuthenticationSASLFinal { additional_data } => BackendMessageModel::AuthenticationSASLFinal { additional_data: additional_data@ },
            BackendMessage::BackendKeyData { this_backend_process_id, this_backend_secret_key } => BackendMessageModel::BackendKeyData {
                this_backend_process_id: *this_backend_process_id,
                this_backend_secret_key: *this_backend_secret_key,
            },
            BackendMessage::BindComplete => BackendMessageModel::BindComplete,
            BackendMessage::CloseComplete => BackendMessageModel::CloseComplete,
            BackendMessage::CommandComplete { command_tag } => BackendMessageModel::CommandComplete { command_tag: command_tag@ },
            BackendMessage::CopyData { data } => BackendMessageModel::CopyData { data: data@ },
            BackendMessage::CopyDone => BackendMessageModel::CopyDone,
            BackendMessage::CopyInResponse { overall_copy_format, column_format_codes } => BackendMessageModel::CopyInResponse {
                overall_copy_format: *overall_copy_format,
                column_format_codes: column_format_codes@,
            },
            BackendMessage::CopyOutResponse { overall_copy_format, column_format_codes } => BackendMessageModel::CopyOutResponse {
                overall_copy_format: *overall_copy_format,
                column_format_codes: column_format_codes@,
            },
            BackendMessage::CopyBothResponse { overall_copy_format, column_format_codes } => BackendMessageModel::CopyBothResponse {
                overall_copy_format: *overall_copy_format,
                column_format_codes: column_format_codes@,
            },
            BackendMessage::DataRow { column_values } => BackendMessageModel::DataRow { column_values: column_values@ },
            BackendMessage::EmptyQueryResponse => BackendMessageModel::EmptyQueryResponse,
            BackendMessage::ErrorResponse { fields } => BackendMessageModel::ErrorResponse { fields: fields@ },
            BackendMessage::FunctionCallResponse { result_value } => BackendMessageModel::FunctionCallResponse { result_value: opt_bytes_view(*result_value) },
            BackendMessage::NegotiateProtocolVersion { newest_minor_protocol_version, unrecognized_option_names } => BackendMessageModel::NegotiateProtocolVersion {
                newest_minor_protocol_version: *newest_minor_protocol_version,
                unrecognized_option_names: unrecognized_option_names@,
            },
            BackendMessage::NoData => BackendMessageModel::NoData,
            BackendMessage::NoticeResponse { fields } => BackendMessageModel::NoticeResponse { fields: fields@ },
            BackendMessage::NotificationResponse { notifying_backend_process_id, channel_name, payload } => BackendMessageModel::NotificationResponse {
                notifying_backend_process_id: *notifying_backend_process_id,
                channel_name: channel_name@,
                payload: payload@,
            },
            BackendMessage::ParameterDescription { data_type_oids } => BackendMessageModel::ParameterDescription { data_type_oids: data_type_oids@ },
            BackendMessage::ParameterStatus { name, current_value } => BackendMessageModel::ParameterStatus {
                name: name@,
                current_value: current_value@,
            },
            BackendMessage::ParseComplete => BackendMessageModel::ParseComplete,
            BackendMessage::PortalSuspended => BackendMessageModel::PortalSuspended,
            BackendMessage::ReadyForQuery { transaction_status_indicator } => BackendMessageModel::ReadyForQuery { transaction_status_indicator: *transaction_status_indicator },
            BackendMessage::RowDescription { fields } => BackendMessageModel::RowDescription { fields: fields@ },
        }
    }
}

/* ------------------------ Specification of parsing ------------------------ */

/// What the authentication sub-dispatch yields for a message body.
pub open spec fn spec_parse_authentication(body: Seq<u8>) -> Option<BackendMessageModel> {
    if body.len() < 4 {
        None
    } else {
        let sub = be32_at(body, 0);
        if sub == 0 {
            Some(BackendMessageModel::AuthenticationOk)
        } else if sub == 2 {
            Some(BackendMessageModel::AuthenticationKerberosV5)
        } else if sub == 3 {
            Some(BackendMessageModel::AuthenticationCleartextPassword)
        } else if sub == 5 {
            if body.len() >= 8 {
                Some(BackendMessageModel::AuthenticationMD5Password { salt: body.subrange(4, 8) })
            } else {
                None
            }
        } else if sub == 6 {
            Some(BackendMessageModel::AuthenticationSCMCredential)
        } else if sub == 7 {
            Some(BackendMessageModel::AuthenticationGSS)
        } else if sub == 8 {
            Some(BackendMessageModel::AuthenticationGSSContinue { authentication_data: body.skip(4) })
        } else if sub == 9 {
            Some(BackendMessageModel::AuthenticationSSPI)
        } else if sub == 10 {
            Some(BackendMessageModel::AuthenticationSASL { authentication_mechanism_names: body.skip(4) })
        } else if sub == 11 {
            Some(BackendMessageModel::AuthenticationSASLContinue { data: body.skip(4) })
        } else if sub == 12 {
            Some(BackendMessageModel::AuthenticationSASLFinal { additional_data: body.skip(4) })
        } else {
            None
        }
    }
}

/// What decoding a `BackendKeyData` body yields.
pub open spec fn spec_parse_backend_key_data(body: Seq<u8>) -> Option<BackendMessageModel> {
    if body.len() >= 8 {
        Some(BackendMessageModel::BackendKeyData {
            this_backend_process_id: be32_at(body, 0),
            this_backend_secret_key: be32_at(body, 4),
        })
    } else {
        None
    }
}

/// What decoding a `CommandComplete` body yields.
pub open spec fn spec_parse_command_complete(body: Seq<u8>) -> Option<BackendMessageModel> {
    if nul_index(body) < body.len() {
        Some(BackendMessageModel::CommandComplete { command_tag: body.take(nul_index(body)) })
    } else {
        None
    }
}

/// What decoding a `Copy{In,Out,Both}Response` body yields: the format
/// byte, a count that is ignored, and the format-code array tail.
pub open spec fn spec_parse_copy_response(body: Seq<u8>) -> Option<(u8, Seq<u8>)> {
    if body.len() >= 3 {
        Some((body[0], body.skip(3)))
    } else {
        None
    }
}

/// What decoding an `ErrorResponse` or `NoticeResponse` body yields:
/// the field list with the final terminator byte removed.
pub open spec fn spec_parse_error_notice_fields(body: Seq<u8>) -> Option<Seq<u8>> {
    if body.len() >= 1 {
        Some(body.take(body.len() - 1))
    } else {
        None
    }
}

/// What decoding a `FunctionCallResponse` body yields.
pub open spec fn spec_parse_function_call_response(body: Seq<u8>) -> Option<BackendMessageModel> {
    if body.len() < 4 {
        None
    } else {
        let l = be32_at(body, 0);
        if l == 0xFFFF_FFFFu32 {
            Some(BackendMessageModel::FunctionCallResponse { result_value: None })
        } else if 4 + l <= body.len() {
            Some(BackendMessageModel::FunctionCallResponse {
                result_value: Some(body.subrange(4, 4 + l)),
            })
        } else {
            None
        }
    }
}

/// What decoding a `NotificationResponse` body yields.
pub open spec fn spec_parse_notification_response(body: Seq<u8>) -> Option<BackendMessageModel> {
    if body.len() < 4 {
        None
    } else {
        let r1 = body.skip(4);
        if nul_index(r1) < r1.len() {
            let r2 = r1.skip(nul_index(r1) + 1);
            if nul_index(r2) < r2.len() {
                Some(BackendMessageModel::NotificationResponse {
                    notifying_backend_process_id: be32_at(body, 0),
                    channel_name: r1.take(nul_index(r1)),
                    payload: r2.take(nul_index(r2)),
                })
            } else {
                None
            }
        } else {
            None
        }
    }
}

/// What decoding a `ParameterStatus` body yields.
pub open spec fn spec_parse_parameter_status(body: Seq<u8>) -> Option<BackendMessageModel> {
    if nul_index(body) < body.len() {
        let r2 = body.skip(nul_index(body) + 1);
        if nul_index(r2) < r2.len() {
            Some(BackendMessageModel::ParameterStatus {
                name: body.take(nul_index(body)),
                current_value: r2.take(nul_index(r2)),
            })
        } else {
            None
        }
    } else {
        None
    }
}

/// What decoding one complete frame `[id][len][body]` yields.
///
/// The length field must be present but its value plays no role here;
/// the framed reader has already validated it.  Embedded element counts
/// are read past and otherwise ignored: a cursor simply stops when its
/// tail is exhausted, which accepts servers whose declared count
/// disagrees with the payload.
pub open spec fn spec_parse(s: Seq<u8>) -> Option<BackendMessageModel> {
    if s.len() < 5 {
        None
    } else {
        let body = s.skip(5);
        let tag = s[0];
        if tag == TAG_AUTHENTICATION {
            spec_parse_authentication(body)
        } else if tag == TAG_BACKEND_KEY_DATA {
            spec_parse_backend_key_data(body)
        } else if tag == TAG_BIND_COMPLETE {
            Some(BackendMessageModel::BindComplete)
        } else if tag == TAG_CLOSE_COMPLETE {
            Some(BackendMessageModel::CloseComplete)
        } else if tag == TAG_COMMAND_COMPLETE {
            spec_parse_command_complete(body)
        } else if tag == TAG_COPY_DATA {
            Some(BackendMessageModel::CopyData { data: body })
        } else if tag == TAG_COPY_DONE {
            Some(BackendMessageModel::CopyDone)
        } else if tag == TAG_COPY_IN_RESPONSE {
            match spec_parse_copy_response(body) {
                Some(v) => Some(BackendMessageModel::CopyInResponse {
                    overall_copy_format: v.0,
                    column_format_codes: v.1,
                }),
                None => None,
            }
        } else if tag == TAG_COPY_OUT_RESPONSE {
            match spec_parse_copy_response(body) {
                Some(v) => Some(BackendMessageModel::CopyOutResponse {
                    overall_copy_format: v.0,
                    column_format_codes: v.1,
                }),
                None => None,
            }
        } else if tag == TAG_COPY_BOTH_RESPONSE {
            match spec_parse_copy_response(body) {
                Some(v) => Some(BackendMessageModel::CopyBothResponse {
                    overall_copy_format: v.0,
                    column_format_codes: v.1,
                }),
                None => None,
            }
        } else if tag == TAG_DATA_ROW {
            if body.len() >= 2 {
                Some(BackendMessageModel::DataRow { column_values: body.skip(2) })
            } else {
                None
            }
        } else if tag == TAG_EMPTY_QUERY_RESPONSE {
            Some(BackendMessageModel::EmptyQueryResponse)
        } else if tag == TAG_ERROR_RESPONSE {
            match spec_parse_error_notice_fields(body) {
                Some(fields) => Some(BackendMessageModel::ErrorResponse { fields }),
                None => None,
            }
        } else if tag == TAG_FUNCTION_CALL_RESPONSE {
            spec_parse_function_call_response(body)
        } else if tag == TAG_NEGOTIATE_PROTOCOL_VERSION {
            if body.len() >= 8 {
                Some(BackendMessageModel::NegotiateProtocolVersion {
                    newest_minor_protocol_version: be32_at(body, 0),
                    unrecognized_option_names: body.skip(8),
                })
            } else {
                None
            }
        } else if tag == TAG_NO_DATA {
            Some(BackendMessageModel::NoData)
        } else if tag == TAG_NOTICE_RESPONSE {
            match spec_parse_error_notice_fields(body) {
                Some(fields) => Some(BackendMessageModel::NoticeResponse { fields }),
                None => None,
            }
        } else if tag == TAG_NOTIFICATION_RESPONSE {
            spec_parse_notification_response(body)
        } else if tag == TAG_PARAMETER_DESCRIPTION {
            if body.len() >= 2 {
                Some(BackendMessageModel::ParameterDescription { data_type_oids: body.skip(2) })
            } else {
                None
            }
        } else if tag == TAG_PARAMETER_STATUS {
            spec_parse_parameter_status(body)
        } else if tag == TAG_PARSE_COMPLETE {
            Some(BackendMessageModel::ParseComplete)
        } else if tag == TAG_PORTAL_SUSPENDED {
            Some(BackendMessageModel::PortalSuspended)
        } else if tag == TAG_READY_FOR_QUERY {
            if body.len() >= 1 {
                Some(BackendMessageModel::ReadyForQuery { transaction_status_indicator: body[0] })
            } else {
                None
            }
        } else if tag == TAG_ROW_DESCRIPTION {
            if body.len() >= 2 {
                Some(BackendMessageModel::RowDescription { fields: body.skip(2) })
            } else {
                None
            }
        } else {
            None
        }
    }
}

/* --------------------------- Executable parsing --------------------------- */

impl BackendMessage {
    /// Parse one complete backend message frame.
    ///
    /// The expectation is that all backend messages are well-formed.
    /// An ill-formed backend message may either result in `None` or in
    /// a message that contains a cursor that stops early.  In no
    /// circumstance does this function panic.
    pub fn parse(input: &[u8]) -> (r: Option<BackendMessage>)
        ensures
            match r {
                Some(m) => spec_parse(input@) == Some(m@),
                None => spec_parse(input@) is None,
            },
    {
        if input.len() < 5 {
            return None;
        }
        let identifier: u8 = input[0];
        // The length field must be present, but its value was already
        // validated by the framed reader and plays no role here.
        if identifier == TAG_AUTHENTICATION {
            Self::parse_authentication(input, 5)
        } else if identifier == TAG_BACKEND_KEY_DATA {
            Self::parse_backend_key_data(input, 5)
        } else if identifier == TAG_BIND_COMPLETE {
            Some(BackendMessage::BindComplete)
        } else if identifier == TAG_CLOSE_COMPLETE {
            Some(BackendMessage::CloseComplete)
        } else if identifier == TAG_COMMAND_COMPLETE {
            Self::parse_command_complete(input, 5)
        } else if identifier == TAG_COPY_DATA {
            Self::parse_copy_data(input, 5)
        } else if identifier == TAG_COPY_DONE {
            Some(BackendMessage::CopyDone)
        } else if identifier == TAG_COPY_IN_RESPONSE {
            Self::parse_copy_in_response(input, 5)
        } else if identifier == TAG_COPY_OUT_RESPONSE {
            Self::parse_copy_out_response(input, 5)
        } else if identifier == TAG_COPY_BOTH_RESPONSE {
            Self::parse_copy_both_response(input, 5)
        } else if identifier == TAG_DATA_ROW {
            Self::parse_data_row(input, 5)
        } else if identifier == TAG_EMPTY_QUERY_RESPONSE {
            Some(BackendMessage::EmptyQueryResponse)
        } else if identifier == TAG_ERROR_RESPONSE {
            Self::parse_error_response(input, 5)
        } else if identifier == TAG_FUNCTION_CALL_RESPONSE {
            Self::parse_function_call_response(input, 5)
        } else if identifier == TAG_NEGOTIATE_PROTOCOL_VERSION {
            Self::parse_negotiate_protocol_version(input, 5)
        } else if identifier == TAG_NO_DATA {
            Some(BackendMessage::NoData)
        } else if identifier == TAG_NOTICE_RESPONSE {
            Self::parse_notice_response(input, 5)
        } else if identifier == TAG_NOTIFICATION_RESPONSE {
            Self::parse_notification_response(input, 5)
        } else if identifier == TAG_PARAMETER_DESCRIPTION {
            Self::parse_parameter_description(input, 5)
        } else if identifier == TAG_PARAMETER_STATUS {
            Self::parse_parameter_status(input, 5)
        } else if identifier == TAG_PARSE_COMPLETE {
            Some(BackendMessage::ParseComplete)
        } else if identifier == TAG_PORTAL_SUSPENDED {
            Some(BackendMessage::PortalSuspended)
        } else if identifier == TAG_READY_FOR_QUERY {
            Self::parse_ready_for_query(input, 5)
        } else if identifier == TAG_ROW_DESCRIPTION {
            Self::parse_row_description(input, 5)
        } else {
            None
        }
    }

    fn parse_authentication(input: &[u8], pos: usize) -> (r: Option<BackendMessage>)
        requires
            pos <= input@.len(),
        ensures
            match r {
                Some(m) => spec_parse_authentication(input@.skip(pos as int)) == Some(m@),
                None => spec_parse_authentication(input@.skip(pos as int)) is None,
            },
    {
        let ghost body = input@.skip(pos as int);
        let (challenge, p) = match parse_int32_u32(input, pos) {
            Some(v) => v,
            None => {
                return None;
            },
        };
        if challenge == 0 {
            Some(BackendMessage::AuthenticationOk)
        } else if challenge == 2 {
            Some(BackendMessage::AuthenticationKerberosV5)
        } else if challenge == 3 {
            Some(BackendMessage::AuthenticationCleartextPassword)
        } else if challenge == 5 {
            if input.len() - p >= 4 {
                let salt: [u8; 4] = [input[p], input[p + 1], input[p + 2], input[p + 3]];
                proof {
                    assert(salt@ =~= body.subrange(4, 8));
                }
                Some(BackendMessage::AuthenticationMD5Password { salt })
            } else {
                None
            }
        } else if challenge == 6 {
            Some(BackendMessage::AuthenticationSCMCredential)
        } else if challenge == 7 {
            Some(BackendMessage::AuthenticationGSS)
        } else if challenge == 8 {
            let authentication_data = copy_range(input, p, input.len());
            proof {
                assert(authentication_data@ =~= body.skip(4));
            }
            Some(BackendMessage::AuthenticationGSSContinue { authentication_data })
        } else if challenge == 9 {
            Some(BackendMessage::AuthenticationSSPI)
        } else if challenge == 10 {
            let tail = copy_range(input, p, input.len());
            proof {
                assert(tail@ =~= body.skip(4));
            }
            let authentication_mechanism_names = StringArray::from_bytes(tail);
            Some(BackendMessage::AuthenticationSASL { authentication_mechanism_names })
        } else if challenge == 11 {
            let data = copy_range(input, p, input.len());
            proof {
                assert(data@ =~= body.skip(4));
            }
            Some(BackendMessage::AuthenticationSASLContinue { data })
        } else if challenge == 12 {
            let additional_data = copy_range(input, p, input.len());
            proof {
                assert(additional_data@ =~= body.skip(4));
            }
            Some(BackendMessage::AuthenticationSASLFinal { additional_data })
        } else {
            None
        }
    }

    fn parse_backend_key_data(input: &[u8], pos: usize) -> (r: Option<BackendMessage>)
        requires
            pos <= input@.len(),
        ensures
            match r {
                Some(m) => spec_parse_backend_key_data(input@.skip(pos as int)) == Some(m@),
                None => spec_parse_backend_key_data(input@.skip(pos as int)) is None,
            },
    {
        let ghost body = input@.skip(pos as int);
        let (this_backend_process_id, p) = match parse_int32_u32(input, pos) {
            Some(v) => v,
            None => {
                return None;
            },
        };
        let (this_backend_secret_key, _p2) = match parse_int32_u32(input, p) {
            Some(v) => v,
            None => {
                return None;
            },
        };
        proof {
            lemma_be32_shift(input@, pos as int, 4);
            lemma_skip_skip(input@, pos as int, 4);
        }
        Some(BackendMessage::BackendKeyData { this_backend_process_id, this_backend_secret_key })
    }

    fn parse_command_complete(input: &[u8], pos: usize) -> (r: Option<BackendMessage>)
        requires
            pos <= input@.len(),
        ensures
            match r {
                Some(m) => spec_parse_command_complete(input@.skip(pos as int)) == Some(m@),
                None => spec_parse_command_complete(input@.skip(pos as int)) is None,
            },
    {
        match parse_string_cstr(input, pos) {
            Some((command_tag, _p)) => Some(BackendMessage::CommandComplete { command_tag }),
            None => None,
        }
    }

    fn parse_copy_data(input: &[u8], pos: usize) -> (r: Option<BackendMessage>)
        requires
            pos <= input@.len(),
        ensures
            match r {
                Some(m) => m@ == (BackendMessageModel::CopyData {
                    data: input@.skip(pos as int),
                }),
                None => false,
            },
    {
        let data = copy_range(input, pos, input.len());
        proof {
            assert(data@ =~= input@.skip(pos as int));
        }
        Some(BackendMessage::CopyData { data })
    }

    fn parse_copy_format_codes(input: &[u8], pos: usize) -> (r: Option<(u8, Int16Array)>)
        requires
            pos <= input@.len(),
        ensures
            match r {
                Some(v) => spec_parse_copy_response(input@.skip(pos as int)) == Some(
                    (v.0, v.1@),
                ),
                None => spec_parse_copy_response(input@.skip(pos as int)) is None,
            },
    {
        let ghost body = input@.skip(pos as int);
        let (overall_copy_format, p1) = match parse_int8_u8(input, pos) {
            Some(v) => v,
            None => {
                return None;
            },
        };
        let (_column_count, p2) = match parse_int16_u16(input, p1) {
            Some(v) => v,
            None => {
                return None;
            },
        };
        let tail = copy_range(input, p2, input.len());
        proof {
            assert(body[0] == input@[pos as int]);
            assert(tail@ =~= body.skip(3));
        }
        let column_format_codes = Int16Array::from_bytes(tail);
        Some((overall_copy_format, column_format_codes))
    }

    fn parse_copy_in_response(input: &[u8], pos: usize) -> (r: Option<BackendMessage>)
        requires
            pos <= input@.len(),
        ensures
            match r {
                Some(m) => match spec_parse_copy_response(input@.skip(pos as int)) {
                    Some(v) => m@ == (BackendMessageModel::CopyInResponse {
                        overall_copy_format: v.0,
                        column_format_codes: v.1,
                    }),
                    None => false,
                },
                None => spec_parse_copy_response(input@.skip(pos as int)) is None,
            },
    {
        match Self::parse_copy_format_codes(input, pos) {
            Some((overall_copy_format, column_format_codes)) => Some(
                BackendMessage::CopyInResponse { overall_copy_format, column_format_codes },
            ),
            None => None,
        }
    }

    fn parse_copy_out_response(input: &[u8], pos: usize) -> (r: Option<BackendMessage>)
        requires
            pos <= input@.len(),
        ensures
            match r {
                Some(m) => match spec_parse_copy_response(input@.skip(pos as int)) {
                    Some(v) => m@ == (BackendMessageModel::CopyOutResponse {
                        overall_copy_format: v.0,
                        column_format_codes: v.1,
                    }),
                    None => false,
                },
                None => spec_parse_copy_response(input@.skip(pos as int)) is None,
            },
    {
        match Self::parse_copy_format_codes(input, pos) {
            Some((overall_copy_format, column_format_codes)) => Some(
                BackendMessage::CopyOutResponse { overall_copy_format, column_format_codes },
            ),
            None => None,
        }
    }

    fn parse_copy_both_response(input: &[u8], pos: usize) -> (r: Option<BackendMessage>)
        requires
            pos <= input@.len(),
        ensures
            match r {
                Some(m) => match spec_parse_copy_response(input@.skip(pos as int)) {
                    Some(v) => m@ == (BackendMessageModel::CopyBothResponse {
                        overall_copy_format: v.0,
                        column_format_codes: v.1,
                    }),
                    None => false,
                },
                None => spec_parse_copy_response(input@.skip(pos as int)) is None,
            },
    {
        match Self::parse_copy_format_codes(input, pos) {
            Some((overall_copy_format, column_format_codes)) => Some(
                BackendMessage::CopyBothResponse { overall_copy_format, column_format_codes },
            ),
            None => None,
        }
    }

    fn parse_data_row(input: &[u8], pos: usize) -> (r: Option<BackendMessage>)
        requires
            pos <= input@.len(),
        ensures
            match r {
                Some(m) => input@.skip(pos as int).len() >= 2 && m@ == (BackendMessageModel::DataRow {
                    column_values: input@.skip(pos as int).skip(2),
                }),
                None => input@.skip(pos as int).len() < 2,
            },
    {
        let (_column_count, p) = match parse_int16_u16(input, pos) {
            Some(v) => v,
            None => {
                return None;
            },
        };
        let tail = copy_range(input, p, input.len());
        proof {
            assert(tail@ =~= input@.skip(pos as int).skip(2));
        }
        let column_values = DataRowColumnValueArray::from_bytes(tail);
        Some(BackendMessage::DataRow { column_values })
    }

    fn parse_error_notice_fields(input: &[u8], pos: usize) -> (r: Option<ErrorNoticeFieldArray>)
        requires
            pos <= input@.len(),
        ensures
            match r {
                Some(a) => spec_parse_error_notice_fields(input@.skip(pos as int)) == Some(a@),
                None => spec_parse_error_notice_fields(input@.skip(pos as int)) is None,
            },
    {
        let ghost body = input@.skip(pos as int);
        if input.len() - pos >= 1 {
            let tail = copy_range(input, pos, input.len() - 1);
            proof {
                assert(tail@ =~= body.take(body.len() - 1));
            }
            Some(ErrorNoticeFieldArray::from_bytes(tail))
        } else {
            None
        }
    }

    fn parse_error_response(input: &[u8], pos: usize) -> (r: Option<BackendMessage>)
        requires
            pos <= input@.len(),
        ensures
            match r {
                Some(m) => match spec_parse_error_notice_fields(input@.skip(pos as int)) {
                    Some(fields) => m@ == (BackendMessageModel::ErrorResponse { fields }),
                    None => false,
                },
                None => spec_parse_error_notice_fields(input@.skip(pos as int)) is None,
            },
    {
        match Self::parse_error_notice_fields(input, pos) {
            Some(fields) => Some(BackendMessage::ErrorResponse { fields }),
            None => None,
        }
    }

    fn parse_function_call_response(input: &[u8], pos: usize) -> (r: Option<BackendMessage>)
        requires
            pos <= input@.len(),
        ensures
            match r {
                Some(m) => spec_parse_function_call_response(input@.skip(pos as int)) == Some(m@),
                None => spec_parse_function_call_response(input@.skip(pos as int)) is None,
            },
    {
        let ghost body = input@.skip(pos as int);
        let (result_value_length, p) = match parse_int32_u32(input, pos) {
            Some(v) => v,
            None => {
                return None;
            },
        };
        if result_value_length == 0xFFFF_FFFFu32 {
            Some(BackendMessage::FunctionCallResponse { result_value: None })
        } else {
            let length: usize = crate::usize_conversions::u32_to_usize(result_value_length);
            match parse_bytes_slice(input, p, length) {
                Some((result_value, _p2)) => {
                    proof {
                        lemma_skip_skip(input@, pos as int, 4);
                        assert(result_value@ =~= body.subrange(4, 4 + result_value_length as int));
                    }
                    Some(BackendMessage::FunctionCallResponse { result_value: Some(result_value) })
                },
                None => {
                    proof {
                        lemma_skip_skip(input@, pos as int, 4);
                    }
                    None
                },
            }
        }
    }

    fn parse_negotiate_protocol_version(input: &[u8], pos: usize) -> (r: Option<BackendMessage>)
        requires
            pos <= input@.len(),
        ensures
            ({
                let body = input@.skip(pos as int);
                match r {
                    Some(m) => body.len() >= 8 && m@ == (BackendMessageModel::NegotiateProtocolVersion {
                        newest_minor_protocol_version: be32_at(body, 0),
                        unrecognized_option_names: body.skip(8),
                    }),
                    None => body.len() < 8,
                }
            }),
    {
        let ghost body = input@.skip(pos as int);
        let (newest_minor_protocol_version, p1) = match parse_int32_u32(input, pos) {
            Some(v) => v,
            None => {
                return None;
            },
        };
        let (_unrecognized_option_count, p2) = match parse_int32_u32(input, p1) {
            Some(v) => v,
            None => {
                return None;
            },
        };
        let tail = copy_range(input, p2, input.len());
        proof {
            assert(tail@ =~= body.skip(8));
        }
        let unrecognized_option_names = StringArray::from_bytes(tail);
        Some(BackendMessage::NegotiateProtocolVersion {
            newest_minor_protocol_version,
            unrecognized_option_names,
        })
    }

    fn parse_notice_response(input: &[u8], pos: usize) -> (r: Option<BackendMessage>)
        requires
            pos <= input@.len(),
        ensures
            match r {
                Some(m) => match spec_parse_error_notice_fields(input@.skip(pos as int)) {
                    Some(fields) => m@ == (BackendMessageModel::NoticeResponse { fields }),
                    None => false,
                },
                None => spec_parse_error_notice_fields(input@.skip(pos as int)) is None,
            },
    {
        match Self::parse_error_notice_fields(input, pos) {
            Some(fields) => Some(BackendMessage::NoticeResponse { fields }),
            None => None,
        }
    }

    fn parse_notification_response(input: &[u8], pos: usize) -> (r: Option<BackendMessage>)
        requires
            pos <= input@.len(),
        ensures
            match r {
                Some(m) => spec_parse_notification_response(input@.skip(pos as int)) == Some(m@),
                None => spec_parse_notification_response(input@.skip(pos as int)) is None,
            },
    {
        let ghost body = input@.skip(pos as int);
        let (notifying_backend_process_id, p1) = match parse_int32_u32(input, pos) {
            Some(v) => v,
            None => {
                return None;
            },
        };
        proof {
            lemma_skip_skip(input@, pos as int, 4);
        }
        let (channel_name, p2) = match parse_string_cstr(input, p1) {
            Some(v) => v,
            None => {
                return None;
            },
        };
        proof {
            lemma_nul_index_bounds(body.skip(4));
            lemma_skip_skip(input@, pos + 4, nul_index(body.skip(4)) + 1);
        }
        let (payload, _p3) = match parse_string_cstr(input, p2) {
            Some(v) => v,
            None => {
                return None;
            },
        };
        Some(BackendMessage::NotificationResponse {
            notifying_backend_process_id,
            channel_name,
            payload,
        })
    }

    fn parse_parameter_description(input: &[u8], pos: usize) -> (r: Option<BackendMessage>)
        requires
            pos <= input@.len(),
        ensures
            ({
                let body = input@.skip(pos as int);
                match r {
                    Some(m) => body.len() >= 2 && m@ == (BackendMessageModel::ParameterDescription {
                        data_type_oids: body.skip(2),
                    }),
                    None => body.len() < 2,
                }
            }),
    {
        let (_parameter_count, p) = match parse_int16_u16(input, pos) {
            Some(v) => v,
            None => {
                return None;
            },
        };
        let tail = copy_range(input, p, input.len());
        proof {
            assert(tail@ =~= input@.skip(pos as int).skip(2));
        }
        let data_type_oids = Int32Array::from_bytes(tail);
        Some(BackendMessage::ParameterDescription { data_type_oids })
    }

    fn parse_parameter_status(input: &[u8], pos: usize) -> (r: Option<BackendMessage>)
        requires
            pos <= input@.len(),
        ensures
            match r {
                Some(m) => spec_parse_parameter_status(input@.skip(pos as int)) == Some(m@),
                None => spec_parse_parameter_status(input@.skip(pos as int)) is None,
            },
    {
        let ghost body = input@.skip(pos as int);
        let (name, p1) = match parse_string_cstr(input, pos) {
            Some(v) => v,
            None => {
                return None;
            },
        };
        proof {
            lemma_nul_index_bounds(body);
            lemma_skip_skip(input@, pos as int, nul_index(body) + 1);
        }
        let (current_value, _p2) = match parse_string_cstr(input, p1) {
            Some(v) => v,
            None => {
                return None;
            },
        };
        Some(BackendMessage::ParameterStatus { name, current_value })
    }

    fn parse_ready_for_query(input: &[u8], pos: usize) -> (r: Option<BackendMessage>)
        requires
            pos <= input@.len(),
        ensures
            ({
                let body = input@.skip(pos as int);
                match r {
                    Some(m) => body.len() >= 1 && m@ == (BackendMessageModel::ReadyForQuery {
                        transaction_status_indicator: body[0],
                    }),
                    None => body.len() == 0,
                }
            }),
    {
        match parse_int8_u8(input, pos) {
            Some((transaction_status_indicator, _p)) => {
                proof {
                    assert(input@.skip(pos as int)[0] == input@[pos as int]);
                }
                Some(BackendMessage::ReadyForQuery { transaction_status_indicator })
            },
            None => None,
        }
    }

    fn parse_row_description(input: &[u8], pos: usize) -> (r: Option<BackendMessage>)
        requires
            pos <= input@.len(),
        ensures
            ({
                let body = input@.skip(pos as int);
                match r {
                    Some(m) => body.len() >= 2 && m@ == (BackendMessageModel::RowDescription {
                        fields: body.skip(2),
                    }),
                    None => body.len() < 2,
                }
            }),
    {
        let (_field_count, p) = match parse_int16_u16(input, pos) {
            Some(v) => v,
            None => {
                return None;
            },
        };
        let tail = copy_range(input, p, input.len());
        proof {
            assert(tail@ =~= input@.skip(pos as int).skip(2));
        }
        let fields = RowDescriptionFieldArray::from_bytes(tail);
        Some(BackendMessage::RowDescription { fields })
    }
}

/* --------------------- Well-formed frames always decode ------------------- */

/// Structural well-formedness of a message body for a given tag:
/// exactly the shape that the protocol prescribes after the length.
pub open spec fn wf_body(tag: u8, body: Seq<u8>) -> bool {
    if tag == TAG_AUTHENTICATION {
        &&& body.len() >= 4
        &&& {
            let sub = be32_at(body, 0);
            &&& (sub == 0 || sub == 2 || sub == 3 || sub == 5 || sub == 6 || sub == 7 || sub == 8
                || sub == 9 || sub == 10 || sub == 11 || sub == 12)
            &&& (sub == 5 ==> body.len() >= 8)
        }
    } else if tag == TAG_BACKEND_KEY_DATA {
        body.len() >= 8
    } else if tag == TAG_BIND_COMPLETE || tag == TAG_CLOSE_COMPLETE || tag == TAG_COPY_DONE
        || tag == TAG_EMPTY_QUERY_RESPONSE || tag == TAG_NO_DATA || tag == TAG_PARSE_COMPLETE
        || tag == TAG_PORTAL_SUSPENDED || tag == TAG_COPY_DATA {
        true
    } else if tag == TAG_COMMAND_COMPLETE {
        nul_index(body) < body.len()
    } else if tag == TAG_COPY_IN_RESPONSE || tag == TAG_COPY_OUT_RESPONSE
        || tag == TAG_COPY_BOTH_RESPONSE {
        body.len() >= 3
    } else if tag == TAG_DATA_ROW || tag == TAG_PARAMETER_DESCRIPTION
        || tag == TAG_ROW_DESCRIPTION {
        body.len() >= 2
    } else if tag == TAG_ERROR_RESPONSE || tag == TAG_NOTICE_RESPONSE {
        body.len() >= 1
    } else if tag == TAG_FUNCTION_CALL_RESPONSE {
        &&& body.len() >= 4
        &&& {
            let l = be32_at(body, 0);
            l == 0xFFFF_FFFFu32 || 4 + l <= body.len()
        }
    } else if tag == TAG_NEGOTIATE_PROTOCOL_VERSION {
        body.len() >= 8
    } else if tag == TAG_NOTIFICATION_RESPONSE {
        &&& body.len() >= 4
        &&& nul_index(body.skip(4)) < body.skip(4).len()
        &&& {
            let r2 = body.skip(4).skip(nul_index(body.skip(4)) + 1);
            nul_index(r2) < r2.len()
        }
    } else if tag == TAG_PARAMETER_STATUS {
        &&& nul_index(body) < body.len()
        &&& {
            let r2 = body.skip(nul_index(body) + 1);
            nul_index(r2) < r2.len()
        }
    } else if tag == TAG_READY_FOR_QUERY {
        body.len() >= 1
    } else {
        false
    }
}

/// Well-formedness of a whole frame: a known tag, a length field that
/// counts itself plus the body, and a body of the prescribed shape.
pub open spec fn wf_frame(s: Seq<u8>) -> bool {
    &&& s.len() >= 5
    &&& be32_at(s, 1) == s.len() - 1
    &&& wf_body(s[0], s.skip(5))
}

/// The frame tag assigned to each message variant.
pub open spec fn message_tag(m: BackendMessageModel) -> u8 {
    match m {
        BackendMessageModel::AuthenticationOk => TAG_AUTHENTICATION,
        BackendMessageModel::AuthenticationKerberosV5 => TAG_AUTHENTICATION,
        BackendMessageModel::AuthenticationCleartextPassword => TAG_AUTHENTICATION,
        BackendMessageModel::AuthenticationMD5Password { .. } => TAG_AUTHENTICATION,
        BackendMessageModel::AuthenticationSCMCredential => TAG_AUTHENTICATION,
        BackendMessageModel::AuthenticationGSS => TAG_AUTHENTICATION,
        BackendMessageModel::AuthenticationGSSContinue { .. } => TAG_AUTHENTICATION,
        BackendMessageModel::AuthenticationSSPI => TAG_AUTHENTICATION,
        BackendMessageModel::AuthenticationSASL { .. } => TAG_AUTHENTICATION,
        BackendMessageModel::AuthenticationSASLContinue { .. } => TAG_AUTHENTICATION,
        BackendMessageModel::AuthenticationSASLFinal { .. } => TAG_AUTHENTICATION,
        BackendMessageModel::BackendKeyData { .. } => TAG_BACKEND_KEY_DATA,
        BackendMessageModel::BindComplete => TAG_BIND_COMPLETE,
        BackendMessageModel::CloseComplete => TAG_CLOSE_COMPLETE,
        BackendMessageModel::CommandComplete { .. } => TAG_COMMAND_COMPLETE,
        BackendMessageModel::CopyData { .. } => TAG_COPY_DATA,
        BackendMessageModel::CopyDone => TAG_COPY_DONE,
        BackendMessageModel::CopyInResponse { .. } => TAG_COPY_IN_RESPONSE,
        BackendMessageModel::CopyOutResponse { .. } => TAG_COPY_OUT_RESPONSE,
        BackendMessageModel::CopyBothResponse { .. } => TAG_COPY_BOTH_RESPONSE,
        BackendMessageModel::DataRow { .. } => TAG_DATA_ROW,
        BackendMessageModel::EmptyQueryResponse => TAG_EMPTY_QUERY_RESPONSE,
        BackendMessageModel::ErrorResponse { .. } => TAG_ERROR_RESPONSE,
        BackendMessageModel::FunctionCallResponse { .. } => TAG_FUNCTION_CALL_RESPONSE,
        BackendMessageModel::NegotiateProtocolVersion { .. } => TAG_NEGOTIATE_PROTOCOL_VERSION,
        BackendMessageModel::NoData => TAG_NO_DATA,
        BackendMessageModel::NoticeResponse { .. } => TAG_NOTICE_RESPONSE,
        BackendMessageModel::NotificationResponse { .. } => TAG_NOTIFICATION_RESPONSE,
        BackendMessageModel::ParameterDescription { .. } => TAG_PARAMETER_DESCRIPTION,
        BackendMessageModel::ParameterStatus { .. } => TAG_PARAMETER_STATUS,
        BackendMessageModel::ParseComplete => TAG_PARSE_COMPLETE,
        BackendMessageModel::PortalSuspended => TAG_PORTAL_SUSPENDED,
        BackendMessageModel::ReadyForQuery { .. } => TAG_READY_FOR_QUERY,
        BackendMessageModel::RowDescription { .. } => TAG_ROW_DESCRIPTION,
    }
}

/// Every well-formed frame decodes, and the decoded variant's assigned
/// identifier is the frame's first byte.
pub proof fn lemma_wf_frame_parses(s: Seq<u8>)
    requires
        wf_frame(s),
    ensures
        spec_parse(s) is Some,
        match spec_parse(s) {
            Some(m) => message_tag(m) == s[0],
            None => false,
        },
{
}

/* --------------------- Restartability of the cursors ---------------------- */

// Iterating the same array field of a decoded message twice yields
// identical sequences: the items are a pure function of the cursor's
// remaining bytes, which the following lemmas state for each cursor.

/// Two `Int16` cursors over equal bytes yield equal item sequences.
pub proof fn lemma_int16_iteration_stable(a: Int16Array, b: Int16Array)
    requires
        a@ == b@,
    ensures
        a.items() == b.items(),
{
}

/// Two `Int32` cursors over equal bytes yield equal item sequences.
pub proof fn lemma_int32_iteration_stable(a: Int32Array, b: Int32Array)
    requires
        a@ == b@,
    ensures
        a.items() == b.items(),
{
}

/// Two string cursors over equal bytes yield equal item sequences.
pub proof fn lemma_string_iteration_stable(a: StringArray, b: StringArray)
    requires
        a@ == b@,
    ensures
        a.items() == b.items(),
{
}

/// Two field cursors over equal bytes yield equal item sequences.
pub proof fn lemma_error_notice_iteration_stable(
    a: ErrorNoticeFieldArray,
    b: ErrorNoticeFieldArray,
)
    requires
        a@ == b@,
    ensures
        a.items() == b.items(),
{
}

/// Two column cursors over equal bytes yield equal item sequences.
pub proof fn lemma_data_row_iteration_stable(
    a: DataRowColumnValueArray,
    b: DataRowColumnValueArray,
)
    requires
        a@ == b@,
    ensures
        a.items() == b.items(),
{
}

/// Two record cursors over equal bytes yield equal item sequences.
pub proof fn lemma_row_description_iteration_stable(
    a: RowDescriptionFieldArray,
    b: RowDescriptionFieldArray,
)
    requires
        a@ == b@,
    ensures
        a.items() == b.items(),
{
}

} // verus!
