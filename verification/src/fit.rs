//! Writer for FIT activity files: one record definition message per run of
//! equally-shaped records, one data message per record, wrapped in the FIT
//! header and 16-bit checksum.
use vstd::prelude::*;

verus! {

/// FIT timestamps count seconds since 1989-12-31; Unix timestamps are
/// shifted down by this many seconds on the way out.
pub const FIT_EPOCH_OFFSET: u32 = 631065600;

/// One per-second activity record.  The timestamp keeps the bit depth of
/// the wire format but the Unix epoch.
#[derive(Debug, Clone, Eq, PartialEq)]
pub struct FitRecord {
    /// Seconds since the Unix epoch.
    pub seconds_since_unix_epoch: u32,
    /// Wattage.
    pub power: Option<u16>,
    /// Beats per minute.
    pub heart_rate: Option<u8>,
    /// Revolutions per minute.
    pub cadence: Option<u8>,
}

/// A record that can be written: its timestamp does not predate the FIT
/// epoch.
pub open spec fn wf_fit_record(r: FitRecord) -> bool {
    r.seconds_since_unix_epoch >= FIT_EPOCH_OFFSET
}

pub open spec fn wf_fit_records(list: Seq<FitRecord>) -> bool {
    forall|i: int| 0 <= i < list.len() ==> wf_fit_record(#[trigger] list[i])
}

/// The twelve-byte FIT file header for a body of `length` bytes: header
/// length, protocol version, profile version, the body length in four
/// little-endian bytes, and the ASCII tag ".FIT".
pub open spec fn spec_header(length: int) -> Seq<u8> {
    seq![
        12u8,
        0x20u8,
        0xebu8,
        0x07u8,
        (length % 256) as u8,
        ((length / 256) % 256) as u8,
        ((length / 65536) % 256) as u8,
        ((length / 16777216) % 256) as u8,
        0x2eu8,
        0x46u8,
        0x49u8,
        0x54u8,
    ]
}

/// The data message for one record: local message type 0, the timestamp in
/// four little-endian bytes of FIT epoch seconds, then the present fields
/// in order: power (two bytes), heart rate, cadence.
pub open spec fn spec_record_bytes(r: FitRecord) -> Seq<u8> {
    let ts = r.seconds_since_unix_epoch - FIT_EPOCH_OFFSET;
    seq![
        0u8,
        (ts % 256) as u8,
        ((ts / 256) % 256) as u8,
        ((ts / 65536) % 256) as u8,
        ((ts / 16777216) % 256) as u8,
    ] + (match r.power {
        Some(p) => seq![(p % 256) as u8, (p / 256) as u8],
        None => Seq::empty(),
    }) + (match r.heart_rate {
        Some(hr) => seq![hr],
        None => Seq::empty(),
    }) + (match r.cadence {
        Some(c) => seq![c],
        None => Seq::empty(),
    })
}

/// How many fields the definition message for a record declares.
pub open spec fn spec_field_count(r: FitRecord) -> int {
    1 + (if r.power is Some {
        1int
    } else {
        0int
    }) + (if r.heart_rate is Some {
        1int
    } else {
        0int
    }) + (if r.cadence is Some {
        1int
    } else {
        0int
    })
}

/// The definition message for a record: global message number 20 (a data
/// record), little-endian, then one (field number, byte count, base type)
/// triple per present field: timestamp 253/4/u32, power 7/2/u16, heart rate
/// 3/1/u8, cadence 4/1/u8.
pub open spec fn spec_record_def(r: FitRecord) -> Seq<u8> {
    seq![64u8, 0u8, 0u8, 20u8, 0u8, spec_field_count(r) as u8, 253u8, 4u8, 0x86u8] + (
    if r.power is Some {
        seq![7u8, 2u8, 0x84u8]
    } else {
        Seq::empty()
    }) + (if r.heart_rate is Some {
        seq![3u8, 1u8, 2u8]
    } else {
        Seq::empty()
    }) + (if r.cadence is Some {
        seq![4u8, 1u8, 2u8]
    } else {
        Seq::empty()
    })
}

/// The nibble lookup table of the CRC-16 used by FIT.
pub open spec fn spec_crc_table(j: u16) -> u16 {
    if j == 0 {
        0x0000
    } else if j == 1 {
        0xcc01
    } else if j == 2 {
        0xd801
    } else if j == 3 {
        0x1400
    } else if j == 4 {
        0xf001
    } else if j == 5 {
        0x3c00
    } else if j == 6 {
        0x2800
    } else if j == 7 {
        0xe401
    } else if j == 8 {
        0xa001
    } else if j == 9 {
        0x6c00
    } else if j == 10 {
        0x7800
    } else if j == 11 {
        0xb401
    } else if j == 12 {
        0x5000
    } else if j == 13 {
        0x9c01
    } else if j == 14 {
        0x8801
    } else {
        0x4400
    }
}

/// One byte folded into the running CRC, one nibble at a time.
pub open spec fn spec_crc_step(crc: u16, byte: u8) -> u16 {
    let b = byte as u16;
    let tmp1 = spec_crc_table(crc & 0xf);
    let crc1 = ((crc >> 4) & 0x0fff) ^ tmp1 ^ spec_crc_table(b & 0xf);
    let tmp2 = spec_crc_table(crc1 & 0xf);
    ((crc1 >> 4) & 0x0fff) ^ tmp2 ^ spec_crc_table((b >> 4) & 0xf)
}

/// The CRC of `s` folded into an initial value `acc`.
pub open spec fn spec_crc_acc(s: Seq<u8>, acc: u16) -> u16
    decreases s.len(),
{
    if s.len() == 0 {
        acc
    } else {
        spec_crc_acc(s.subrange(1, s.len() as int), spec_crc_step(acc, s[0]))
    }
}

/// The FIT CRC-16 of a byte sequence.
pub open spec fn spec_crc(s: Seq<u8>) -> u16 {
    spec_crc_acc(s, 0)
}

/// The definition message in force after the first `i` records: none before
/// the first record, afterwards the one belonging to the last record seen.
pub open spec fn spec_def_in_force(list: Seq<FitRecord>, i: int) -> Option<Seq<u8>> {
    if i <= 0 {
        None
    } else {
        Some(spec_record_def(list[i - 1]))
    }
}

/// The body bytes of the remaining records given the definition message in
/// force: each record is preceded by its definition message unless the one
/// in force already equals it.
pub open spec fn spec_records_bytes(list: Seq<FitRecord>, in_force: Option<Seq<u8>>) -> Seq<u8>
    decreases list.len(),
{
    if list.len() == 0 {
        Seq::empty()
    } else {
        let def = spec_record_def(list[0]);
        let emit = match in_force {
            Some(d) => d != def,
            None => true,
        };
        (if emit {
            def
        } else {
            Seq::empty()
        }) + spec_record_bytes(list[0]) + spec_records_bytes(
            list.subrange(1, list.len() as int),
            Some(def),
        )
    }
}

/// The whole FIT file for a list of records: header, body, then the CRC of
/// header and body in two little-endian bytes.
pub open spec fn spec_to_file(list: Seq<FitRecord>) -> Seq<u8> {
    let body = spec_records_bytes(list, None);
    let with_header = spec_header(body.len() as int) + body;
    let crc = spec_crc(with_header);
    with_header + seq![(crc % 256) as u8, (crc / 256) as u8]
}

/// Builds the FIT file header for a body of `length` bytes.
pub fn make_header(length: usize) -> (r: Vec<u8>)
    ensures
        r@ == spec_header(length as int),
{
    let r: Vec<u8> = vec![
        // Header length
        12,
        // Protocol version
        0x20,
        // Profile version (little-endian)
        0xeb,
        0x07,
        // Number of bytes excluding header and checksum (little-endian)
        (length % 256) as u8,
        ((length / 256) % 256) as u8,
        ((length / 65536) % 256) as u8,
        ((length / 16777216) % 256) as u8,
        // ASCII for .FIT
        0x2e,
        0x46,
        0x49,
        0x54,
    ];
    assert(r@ =~= spec_header(length as int));
    r
}

/// Builds the data message for one record.
pub fn record_to_bytes(record: &FitRecord) -> (r: Vec<u8>)
    requires
        wf_fit_record(*record),
    ensures
        r@ == spec_record_bytes(*record),
{
    let ts: u32 = record.seconds_since_unix_epoch - FIT_EPOCH_OFFSET;
    let mut bytes: Vec<u8> = vec![
        0,
        // Time
        (ts % 256) as u8,
        ((ts / 256) % 256) as u8,
        ((ts / 65536) % 256) as u8,
        ((ts / 16777216) % 256) as u8,
    ];

    if let Some(p) = record.power {
        bytes.push((p % 256) as u8);
        bytes.push((p / 256) as u8);
    }

    if let Some(hr) = record.heart_rate {
        bytes.push(hr);
    }

    if let Some(c) = record.cadence {
        bytes.push(c);
    }

    assert(bytes@ =~= spec_record_bytes(*record));
    bytes
}

/// Builds the definition message for one record.
pub fn record_def(record: &FitRecord) -> (r: Vec<u8>)
    ensures
        r@ == spec_record_def(*record),
{
    let field_count: u8 = 1 + (if record.power.is_some() {
        1
    } else {
        0
    }) + (if record.heart_rate.is_some() {
        1
    } else {
        0
    }) + (if record.cadence.is_some() {
        1
    } else {
        0
    });

    let mut bytes: Vec<u8> = vec![
        // Definition message for local message type 0
        64,
        // Reserved
        0,
        // Little-endian
        0,
        // Global message number (20 is a typical data record)
        20,
        0,
        // Number of fields
        field_count,
        // Timestamp (field definition number, byte count, base type (u32))
        253,
        4,
        0x86,
    ];

    if record.power.is_some() {
        // Power (field definition number, byte count, base type (u16))
        bytes.push(7);
        bytes.push(2);
        bytes.push(0x84);
    }

    if record.heart_rate.is_some() {
        // Heart rate (field definition number, byte count, base type (u8))
        bytes.push(3);
        bytes.push(1);
        bytes.push(2);
    }

    if record.cadence.is_some() {
        // Cadence (field definition number, byte count, base type (u8))
        bytes.push(4);
        bytes.push(1);
        bytes.push(2);
    }

    assert(bytes@ =~= spec_record_def(*record));
    bytes
}

/// Whether two byte vectors hold the same bytes.
fn vec_u8_eq(a: &Vec<u8>, b: &Vec<u8>) -> (r: bool)
    ensures
        r <==> a@ == b@,
{
    if a.len() != b.len() {
        return false;
    }
    let n: usize = a.len();
    let mut i: usize = 0;
    while i < n
        invariant
            n == a@.len(),
            n == b@.len(),
            i <= n,
            forall|j: int| 0 <= j < i ==> a@[j] == b@[j],
        decreases n - i,
    {
        if a[i] != b[i] {
            return false;
        }
        i = i + 1;
    }
    assert(a@ =~= b@);
    true
}

/// The nibble lookup of the FIT CRC-16: the table entry for the low four
/// bits of `i`.
fn crc_table_at(i: u16) -> (r: u16)
    ensures
        r == spec_crc_table(i & 0xf),
{
    let j: u16 = i & 0xf;
    if j == 0 {
        0x0000
    } else if j == 1 {
        0xcc01
    } else if j == 2 {
        0xd801
    } else if j == 3 {
        0x1400
    } else if j == 4 {
        0xf001
    } else if j == 5 {
        0x3c00
    } else if j == 6 {
        0x2800
    } else if j == 7 {
        0xe401
    } else if j == 8 {
        0xa001
    } else if j == 9 {
        0x6c00
    } else if j == 10 {
        0x7800
    } else if j == 11 {
        0xb401
    } else if j == 12 {
        0x5000
    } else if j == 13 {
        0x9c01
    } else if j == 14 {
        0x8801
    } else {
        0x4400
    }
}

/// Computes the FIT CRC-16 of a byte buffer.
pub fn calculate_crc(blob: &Vec<u8>) -> (r: u16)
    ensures
        r == spec_crc(blob@),
{
    let n: usize = blob.len();
    let mut crc: u16 = 0;
    let mut i: usize = 0;
    assert(blob@.subrange(0, n as int) =~= blob@);
    while i < n
        invariant
            n == blob@.len(),
            i <= n,
            spec_crc(blob@) == spec_crc_acc(blob@.subrange(i as int, n as int), crc),
        decreases n - i,
    {
        let ghost rest = blob@.subrange(i as int, n as int);
        let ghost crc0 = crc;
        let byte: u16 = blob[i] as u16;
        let tmp1 = crc_table_at(crc);
        crc = (crc >> 4) & 0x0fff;
        crc = crc ^ tmp1 ^ crc_table_at(byte);
        let tmp2 = crc_table_at(crc);
        crc = (crc >> 4) & 0x0fff;
        crc = crc ^ tmp2 ^ crc_table_at(byte >> 4);
        proof {
            assert(rest[0] == blob@[i as int]);
            assert(crc == spec_crc_step(crc0, blob@[i as int]));
            assert(rest.subrange(1, rest.len() as int) =~= blob@.subrange(i + 1, n as int));
        }
        i = i + 1;
    }
    assert(blob@.subrange(n as int, n as int) =~= Seq::<u8>::empty());
    crc
}

/// Builds the file body: every record's data message, each preceded by its
/// definition message whenever the definition in force differs from it.
pub fn to_file_inner(list: &Vec<FitRecord>) -> (r: Vec<u8>)
    requires
        wf_fit_records(list@),
    ensures
        r@ == spec_records_bytes(list@, None),
{
    let mut bytes: Vec<u8> = Vec::new();
    let mut last_def: Option<Vec<u8>> = None;
    let n: usize = list.len();
    let mut i: usize = 0;
    assert(list@.subrange(0, n as int) =~= list@);
    assert(Seq::<u8>::empty() + spec_records_bytes(list@, None) =~= spec_records_bytes(
        list@,
        None,
    ));
    while i < n
        invariant
            n == list@.len(),
            i <= n,
            wf_fit_records(list@),
            i == 0 ==> last_def is None,
            i > 0 ==> (last_def matches Some(ld) && ld@ == spec_record_def(list@[i - 1])),
            bytes@ + spec_records_bytes(
                list@.subrange(i as int, n as int),
                spec_def_in_force(list@, i as int),
            ) == spec_records_bytes(list@, None),
        decreases n - i,
    {
        let ghost rest = list@.subrange(i as int, n as int);
        let ghost in_force = spec_def_in_force(list@, i as int);
        let ghost bytes0 = bytes@;
        let record = &list[i];
        let new_def = record_def(record);
        let emit: bool = match &last_def {
            None => true,
            Some(ld) => !vec_u8_eq(ld, &new_def),
        };
        proof {
            assert(rest[0] == list@[i as int]);
            assert(emit == (match in_force {
                Some(d) => d != spec_record_def(rest[0]),
                None => true,
            }));
        }
        if emit {
            let mut emitted_def = record_def(record);
            bytes.append(&mut emitted_def);
        }
        let mut record_bytes = record_to_bytes(record);
        bytes.append(&mut record_bytes);
        last_def = Some(new_def);
        i = i + 1;
        proof {
            let def = spec_record_def(rest[0]);
            assert(rest.subrange(1, rest.len() as int) =~= list@.subrange(i as int, n as int));
            assert(spec_records_bytes(rest, in_force) == (if emit {
                def
            } else {
                Seq::<u8>::empty()
            }) + spec_record_bytes(rest[0]) + spec_records_bytes(
                list@.subrange(i as int, n as int),
                Some(def),
            ));
            assert(bytes@ =~= bytes0 + (if emit {
                def
            } else {
                Seq::<u8>::empty()
            }) + spec_record_bytes(rest[0]));
            assert(bytes@ + spec_records_bytes(
                list@.subrange(i as int, n as int),
                spec_def_in_force(list@, i as int),
            ) =~= spec_records_bytes(list@, None));
        }
    }
    assert(list@.subrange(n as int, n as int) =~= Seq::<FitRecord>::empty());
    bytes
}

/// Writes the FIT file for a list of records: header, body, and the CRC of
/// both in two little-endian bytes.
pub fn to_file(list: &Vec<FitRecord>) -> (r: Vec<u8>)
    requires
        wf_fit_records(list@),
    ensures
        r@ == spec_to_file(list@),
{
    let mut record_buffer = to_file_inner(list);
    let mut bytes = make_header(record_buffer.len());
    bytes.append(&mut record_buffer);
    let crc = calculate_crc(&bytes);
    bytes.push((crc % 256) as u8);
    bytes.push((crc / 256) as u8);
    assert(bytes@ =~= spec_to_file(list@));
    bytes
}

} // verus!
