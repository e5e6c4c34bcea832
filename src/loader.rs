//! Loads a capture once at startup: the header, the source-location table
//! with its strings interned in file order, and where the events begin.

use vstd::prelude::*;
use crate::codec::{DecodeError, tail, u32_at, get_u32};
use crate::capture::{UTracyHeader, UTracySourceLocation, SourceLocation};
use crate::strings::{StringTable, intern_all, id_in_load, table_wf};

verus! {

/// The signature that opens every supported capture file.
pub const FILE_SIGNATURE: u64 = 0x6D64796361727475;

/// The one capture format version this replay reads.
pub const FILE_VERSION: u32 = 2;

/// Where the location count stands: right after the header.
pub const LOCATION_COUNT_OFFSET: usize = 1200;

/// Why a capture could not be loaded. Each is fatal for the whole process.
#[derive(Debug, PartialEq, Eq)]
pub enum LoadError {
    /// The header or the location table is truncated or malformed.
    Decode(DecodeError),
    /// The file does not start with the expected signature.
    WrongSignature { signature: u64 },
    /// The file was written in another format version.
    WrongVersion { version: u32 },
}

/// A location record of the file, as bytes: name, function, file, line, color.
pub type RawLocation = (Seq<u8>, Seq<u8>, Seq<u8>, u32, [u8; 4]);

/// Decodes `n` location records in sequence from `pos`, giving them and the
/// position after the last.
pub open spec fn parse_table(s: Seq<u8>, pos: int, n: nat) -> Result<(Seq<RawLocation>, int), DecodeError>
    decreases n,
{
    if n == 0 {
        Ok((Seq::empty(), pos))
    } else {
        match parse_table(s, pos, (n - 1) as nat) {
            Err(e) => Err(e),
            Ok((rs, p)) => match UTracySourceLocation::spec_parse(tail(s, p)) {
                Err(e) => Err(e),
                Ok((r, k)) => Ok((rs.push(r), p + k)),
            },
        }
    }
}

/// The strings of the location records in the order they are interned:
/// name, function, then file of each record, record after record.
pub open spec fn table_strings(rs: Seq<RawLocation>) -> Seq<Seq<u8>>
    decreases rs.len(),
{
    if rs.len() == 0 {
        Seq::empty()
    } else {
        table_strings(rs.drop_last()) + seq![rs.last().0, rs.last().1, rs.last().2]
    }
}

/// The table every load starts from.
pub open spec fn initial_table() -> Map<u64, Seq<u8>> {
    map![0u64 => Seq::<u8>::empty()]
}

/// The resident form of the `i`-th location record: its strings replaced by
/// the identifiers they got while the whole table was interned.
pub open spec fn resident(rs: Seq<RawLocation>, i: int) -> SourceLocation {
    let strs = table_strings(rs);
    SourceLocation {
        name: id_in_load(initial_table(), strs, 3 * i),
        function: id_in_load(initial_table(), strs, 3 * i + 1),
        file: id_in_load(initial_table(), strs, 3 * i + 2),
        line: rs[i].3,
        color_r: rs[i].4[0],
        color_g: rs[i].4[1],
        color_b: rs[i].4[2],
    }
}

/// What loading `s` gives: the header, the location records and the
/// position where the events begin; or why it fails.
pub open spec fn spec_load(s: Seq<u8>) -> Result<(UTracyHeader, Seq<RawLocation>, int), LoadError> {
    match UTracyHeader::spec_parse(s) {
        Err(e) => Err(LoadError::Decode(e)),
        Ok(h) => if h.signature != FILE_SIGNATURE {
            Err(LoadError::WrongSignature { signature: h.signature })
        } else if h.version != FILE_VERSION {
            Err(LoadError::WrongVersion { version: h.version })
        } else if s.len() < 1204 {
            Err(LoadError::Decode(DecodeError::UnexpectedEnd { record: "LocationCount" }))
        } else {
            match parse_table(s, 1204, u32_at(s, 1200) as nat) {
                Err(e) => Err(LoadError::Decode(e)),
                Ok((rs, end)) => Ok((h, rs, end)),
            }
        },
    }
}

/// Everything a capture provides to the connections, read-only once loaded.
pub struct LoadedCapture {
    pub header: UTracyHeader,
    pub locations: Vec<SourceLocation>,
    pub strings: StringTable,
    /// Where the event stream begins in the file.
    pub events_position: usize,
}

proof fn lemma_table_error_sticks(s: Seq<u8>, pos: int, k: nat, n: nat)
    requires
        k <= n,
        parse_table(s, pos, k) is Err,
    ensures
        parse_table(s, pos, n) == parse_table(s, pos, k),
    decreases n - k,
{
    if k < n {
        lemma_table_error_sticks(s, pos, k, (n - 1) as nat);
    }
}

proof fn lemma_table_strings_len(rs: Seq<RawLocation>)
    ensures
        table_strings(rs).len() == 3 * rs.len(),
    decreases rs.len(),
{
    if rs.len() > 0 {
        lemma_table_strings_len(rs.drop_last());
    }
}

/// Identifiers handed out before a string is appended do not change.
proof fn lemma_id_prefix(a: Seq<Seq<u8>>, b: Seq<Seq<u8>>, k: int)
    requires
        0 <= k < a.len(),
    ensures
        id_in_load(initial_table(), a + b, k) == id_in_load(initial_table(), a, k),
{
    assert((a + b).take(k) =~= a.take(k));
}

/// Loads a capture: decodes the header and checks its signature and version,
/// then decodes the declared number of location records, interning each
/// record's name, function and file in that order.
pub fn load_capture(data: &[u8]) -> (r: Result<LoadedCapture, LoadError>)
    ensures
        match (r, spec_load(data@)) {
            (Ok(c), Ok((h, rs, end))) => {
                &&& c.header == h
                &&& c.locations@.len() == rs.len()
                &&& rs.len() == u32_at(data@, 1200)
                &&& forall|i: int| 0 <= i < rs.len() ==> #[trigger] c.locations@[i] == resident(rs, i)
                &&& c.strings@ == intern_all(initial_table(), table_strings(rs))
                &&& table_wf(c.strings@)
                &&& c.events_position == end
            },
            (Err(e), Err(f)) => e == f,
            _ => false,
        },
{
    assert(tail(data@, 0) =~= data@);
    let header = match UTracyHeader::decode(data, 0) {
        Err(e) => return Err(LoadError::Decode(e)),
        Ok(h) => h,
    };
    if header.signature != FILE_SIGNATURE {
        return Err(LoadError::WrongSignature { signature: header.signature });
    }
    if header.version != FILE_VERSION {
        return Err(LoadError::WrongVersion { version: header.version });
    }
    let len = data.len();
    if len < LOCATION_COUNT_OFFSET + 4 {
        return Err(LoadError::Decode(DecodeError::UnexpectedEnd { record: "LocationCount" }));
    }
    let count = get_u32(data, LOCATION_COUNT_OFFSET);
    let mut strings = StringTable::new();
    let mut locations: Vec<SourceLocation> = Vec::new();
    let mut pos: usize = LOCATION_COUNT_OFFSET + 4;
    let mut i: u32 = 0;
    let ghost mut rs: Seq<RawLocation> = Seq::empty();
    assert(strings@ == intern_all(initial_table(), table_strings(rs)));
    while i < count
        invariant
            UTracyHeader::spec_parse(data@) == Ok::<UTracyHeader, DecodeError>(header),
            header.signature == FILE_SIGNATURE,
            header.version == FILE_VERSION,
            data@.len() >= 1204,
            count == u32_at(data@, 1200),
            i <= count,
            rs.len() == i,
            locations@.len() == i,
            parse_table(data@, 1204, i as nat) == Ok::<_, DecodeError>((rs, pos as int)),
            strings@ == intern_all(initial_table(), table_strings(rs)),
            table_wf(strings@),
            forall|j: int| 0 <= j < i ==> #[trigger] locations@[j] == resident(rs, j),
        decreases count - i,
    {
        let (raw, next) = match UTracySourceLocation::decode(data, pos) {
            Err(e) => {
                proof {
                    assert(parse_table(data@, 1204, (i + 1) as nat) == Err::<(Seq<RawLocation>, int), DecodeError>(e));
                    lemma_table_error_sticks(data@, 1204, (i + 1) as nat, count as nat);
                }
                return Err(LoadError::Decode(e));
            },
            Ok(x) => x,
        };
        let ghost before = table_strings(rs);
        let ghost rs2 = rs.push(raw@);
        assert(rs2.drop_last() =~= rs);
        let ghost after = table_strings(rs2);
        assert(after == before + seq![raw@.0, raw@.1, raw@.2]);
        proof {
            lemma_table_strings_len(rs);
        }
        let ghost m0 = strings@;
        let name = strings.intern(&raw.name.0);
        let ghost m1 = strings@;
        let function = strings.intern(&raw.function.0);
        let ghost m2 = strings@;
        let file = strings.intern(&raw.file.0);
        proof {
            let b = before.len() as int;
            assert(after.take(b) =~= before);
            assert(after.take(b + 1) =~= before.push(raw@.0));
            assert(after.take(b + 2) =~= before.push(raw@.0).push(raw@.1));
            assert(after.take(b + 3) =~= after);
            assert(before.push(raw@.0).drop_last() =~= before);
            assert(before.push(raw@.0).push(raw@.1).drop_last() =~= before.push(raw@.0));
            assert(after.drop_last() =~= before.push(raw@.0).push(raw@.1));
            assert(m1 == intern_all(initial_table(), before.push(raw@.0)));
            assert(m2 == intern_all(initial_table(), before.push(raw@.0).push(raw@.1)));
            assert(strings@ == intern_all(initial_table(), after));
            assert(name == id_in_load(initial_table(), after, b));
            assert(function == id_in_load(initial_table(), after, b + 1));
            assert(file == id_in_load(initial_table(), after, b + 2));
            assert forall|j: int| 0 <= j < i implies #[trigger] resident(rs2, j) == resident(rs, j) by {
                lemma_id_prefix(before, seq![raw@.0, raw@.1, raw@.2], 3 * j);
                lemma_id_prefix(before, seq![raw@.0, raw@.1, raw@.2], 3 * j + 1);
                lemma_id_prefix(before, seq![raw@.0, raw@.1, raw@.2], 3 * j + 2);
            }
        }
        let loc = SourceLocation {
            name,
            function,
            file,
            line: raw.line,
            color_r: raw.color[0],
            color_g: raw.color[1],
            color_b: raw.color[2],
        };
        locations.push(loc);
        proof {
            rs = rs2;
        }
        pos = next;
        i += 1;
    }
    Ok(LoadedCapture { header, locations, strings, events_position: pos })
}

} // verus!
