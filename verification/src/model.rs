//! The decoded shapes of the snapshot format, with their mathematical views.
//!
//! Executable values carry `String` and `Vec`; the view of each type speaks
//! of `Seq<char>` and `Seq`, which is what the decoding specification in
//! `format` is stated over.

use vstd::prelude::*;

verus! {

/// Result of decoding a variable-width size field.
#[derive(Clone, Copy, PartialEq, Eq, Debug, Structural)]
pub enum Length {
    /// A literal count, typically the length of a following string.
    Raw(u32),
    /// The low six bits of the field: what follows is a specially-encoded
    /// integer, not a string of this length.
    Encoded(u8),
    /// A 32-bit big-endian literal introduced by a discriminator byte.
    FixedWidth(u32),
}

/// A decoded leaf value.
#[derive(Clone, Debug)]
pub enum ScalarValue {
    Utf8String(String),
    UInt8(u8),
    UInt16(u16),
    UInt32(u32),
    Int16(i16),
    Int32(i32),
    Int64(i64),
}

/// The view of a `ScalarValue`: strings become character sequences.
pub enum ScalarValueV {
    Utf8String(Seq<char>),
    UInt8(u8),
    UInt16(u16),
    UInt32(u32),
    Int16(i16),
    Int32(i32),
    Int64(i64),
}

impl View for ScalarValue {
    type V = ScalarValueV;

    open spec fn view(&self) -> ScalarValueV {
        match self {
            ScalarValue::Utf8String(s) => ScalarValueV::Utf8String(s@),
            ScalarValue::UInt8(v) => ScalarValueV::UInt8(*v),
            ScalarValue::UInt16(v) => ScalarValueV::UInt16(*v),
            ScalarValue::UInt32(v) => ScalarValueV::UInt32(*v),
            ScalarValue::Int16(v) => ScalarValueV::Int16(*v),
            ScalarValue::Int32(v) => ScalarValueV::Int32(*v),
            ScalarValue::Int64(v) => ScalarValueV::Int64(*v),
        }
    }
}

/// The subset of scalars producible inside a ziplist: a string, or a signed
/// integer of width 16, 32 (also used for the zero-padded 24-bit form) or 64.
#[derive(Clone, Debug)]
pub enum ZiplistEntry {
    Str(String),
    Int16(i16),
    Int32(i32),
    Int64(i64),
}

/// The view of a `ZiplistEntry`.
pub enum ZiplistEntryV {
    Str(Seq<char>),
    Int16(i16),
    Int32(i32),
    Int64(i64),
}

impl View for ZiplistEntry {
    type V = ZiplistEntryV;

    open spec fn view(&self) -> ZiplistEntryV {
        match self {
            ZiplistEntry::Str(s) => ZiplistEntryV::Str(s@),
            ZiplistEntry::Int16(v) => ZiplistEntryV::Int16(*v),
            ZiplistEntry::Int32(v) => ZiplistEntryV::Int32(*v),
            ZiplistEntry::Int64(v) => ZiplistEntryV::Int64(*v),
        }
    }
}

/// The payload a key-value record can carry.
#[derive(Clone, Debug)]
pub enum RecordValue {
    Str(String),
    SmallUInt8(u8),
    SmallUInt16(u16),
    SmallUInt32(u32),
    List(Vec<ZiplistEntry>),
}

/// The view of a `RecordValue`.
pub enum RecordValueV {
    Str(Seq<char>),
    SmallUInt8(u8),
    SmallUInt16(u16),
    SmallUInt32(u32),
    List(Seq<ZiplistEntryV>),
}

/// The views of a sequence of ziplist entries.
pub open spec fn entries_view(v: Seq<ZiplistEntry>) -> Seq<ZiplistEntryV> {
    v.map_values(|e: ZiplistEntry| e@)
}

pub proof fn lemma_entries_view_push(v: Seq<ZiplistEntry>, x: ZiplistEntry)
    ensures
        entries_view(v.push(x)) == entries_view(v).push(x@),
{
    assert(entries_view(v.push(x)) =~= entries_view(v).push(x@));
}

impl View for RecordValue {
    type V = RecordValueV;

    open spec fn view(&self) -> RecordValueV {
        match self {
            RecordValue::Str(s) => RecordValueV::Str(s@),
            RecordValue::SmallUInt8(v) => RecordValueV::SmallUInt8(*v),
            RecordValue::SmallUInt16(v) => RecordValueV::SmallUInt16(*v),
            RecordValue::SmallUInt32(v) => RecordValueV::SmallUInt32(*v),
            RecordValue::List(es) => RecordValueV::List(entries_view(es@)),
        }
    }
}

/// One typed value attached to a key.
#[derive(Clone, Debug)]
pub struct KeyValueRecord {
    pub key: String,
    pub val: RecordValue,
}

/// The view of a `KeyValueRecord`.
pub struct KeyValueRecordV {
    pub key: Seq<char>,
    pub val: RecordValueV,
}

impl View for KeyValueRecord {
    type V = KeyValueRecordV;

    open spec fn view(&self) -> KeyValueRecordV {
        KeyValueRecordV { key: self.key@, val: self.val@ }
    }
}

/// The views of a sequence of key-value records.
pub open spec fn records_view(v: Seq<KeyValueRecord>) -> Seq<KeyValueRecordV> {
    v.map_values(|r: KeyValueRecord| r@)
}

pub proof fn lemma_records_view_push(v: Seq<KeyValueRecord>, x: KeyValueRecord)
    ensures
        records_view(v.push(x)) == records_view(v).push(x@),
{
    assert(records_view(v.push(x)) =~= records_view(v).push(x@));
}

/// The leading metadata section: format attributes as key-value pairs.
#[derive(Clone, Debug)]
pub struct AuxHeader {
    pub entries: Vec<KeyValueRecord>,
}

impl View for AuxHeader {
    type V = Seq<KeyValueRecordV>;

    open spec fn view(&self) -> Seq<KeyValueRecordV> {
        records_view(self.entries@)
    }
}

/// One database's worth of records.  `expiries` is aligned by index to
/// `entries`; 0 means "no expiry".
#[derive(Clone, Debug)]
pub struct Database {
    pub id: u8,
    pub entries: Vec<KeyValueRecord>,
    pub expiries: Vec<u64>,
}

/// The view of a `Database`.
pub struct DatabaseV {
    pub id: u8,
    pub entries: Seq<KeyValueRecordV>,
    pub expiries: Seq<u64>,
}

impl View for Database {
    type V = DatabaseV;

    open spec fn view(&self) -> DatabaseV {
        DatabaseV {
            id: self.id,
            entries: records_view(self.entries@),
            expiries: self.expiries@,
        }
    }
}

/// The views of a sequence of databases.
pub open spec fn dbs_view(v: Seq<Database>) -> Seq<DatabaseV> {
    v.map_values(|d: Database| d@)
}

pub proof fn lemma_dbs_view_push(v: Seq<Database>, x: Database)
    ensures
        dbs_view(v.push(x)) == dbs_view(v).push(x@),
{
    assert(dbs_view(v.push(x)) =~= dbs_view(v).push(x@));
}

/// The root result of a decode: the header and every database section.
#[derive(Clone, Debug)]
pub struct Snapshot {
    pub header: AuxHeader,
    pub dbs: Vec<Database>,
}

/// The view of a `Snapshot`.
pub struct SnapshotV {
    pub header: Seq<KeyValueRecordV>,
    pub dbs: Seq<DatabaseV>,
}

impl View for Snapshot {
    type V = SnapshotV;

    open spec fn view(&self) -> SnapshotV {
        SnapshotV { header: self.header@, dbs: dbs_view(self.dbs@) }
    }
}

} // verus!
