//! Records of the capture file: its header, the source-location table and the
//! tagged event stream.

use std::hash::Hasher;
use std::collections::hash_map::DefaultHasher;
use vstd::prelude::*;
use vstd::std_specs::hash::DefaultHasherAdditionalSpecFns;
use crate::codec::{
    DecodeError, tail, le_u32, le_u64, u32_at, u64_at, lemma_u32_round_trip,
    lemma_u64_round_trip, push_u8, push_u32, push_u64, push_bytes, get_u32, get_u64, get_array,
    get_bytes,
};

verus! {

broadcast use vstd::array::group_array_axioms;

/// The array whose bytes are `s`.
pub open spec fn array_of<const N: usize>(s: Seq<u8>) -> [u8; N] {
    choose|a: [u8; N]| a@ == s
}

pub proof fn lemma_array_of<const N: usize>(a: [u8; N])
    ensures
        array_of::<N>(a@) == a,
{
    let c = array_of::<N>(a@);
    assert(c@ == a@);
    assert(c =~= a) by {
        assert forall|i: int| 0 <= i < N implies c[i] == a[i] by {
            assert(c[i] == c@[i]);
            assert(a[i] == a@[i]);
        }
    }
}

/// Whether the bytes are well-formed UTF-8.
pub uninterp spec fn is_utf8(b: Seq<u8>) -> bool;

/// Relies on `std::str::from_utf8`, which succeeds exactly on well-formed UTF-8.
#[verifier::external_body]
fn check_utf8(b: &[u8]) -> (r: bool)
    ensures
        r == is_utf8(b@),
{
    std::str::from_utf8(b).is_ok()
}

/// The identifier a string starts probing from: zero for the empty string,
/// otherwise the default hasher's digest of the string, which hashes the
/// string's bytes followed by the terminator byte `0xff`.
pub open spec fn string_hash(b: Seq<u8>) -> u64 {
    if b.len() == 0 {
        0
    } else {
        DefaultHasher::spec_finish(seq![b, seq![0xffu8]])
    }
}

/// Computes `string_hash`: zero for no bytes, else the default hasher over
/// the bytes and the terminator, which is how the hasher digests a `str`.
pub fn hash_bytes(b: &[u8]) -> (r: u64)
    ensures
        r == string_hash(b@),
{
    if b.len() == 0 {
        return 0;
    }
    let mut hasher = DefaultHasher::new();
    hasher.write(b);
    let end: [u8; 1] = [0xffu8];
    assert(end@ =~= seq![0xffu8]);
    hasher.write(end.as_slice());
    assert(hasher@ =~= seq![b@, seq![0xffu8]]);
    hasher.finish()
}

/// A string stored with a 4-byte length prefix, as the capture file holds it.
/// The bytes are UTF-8.
#[derive(Debug)]
pub struct U32SizeString(pub Vec<u8>);

impl U32SizeString {
    pub open spec fn spec_bytes(&self) -> Seq<u8> {
        le_u32(self.0@.len() as u32) + self.0@
    }

    /// Parses a length-prefixed string from the start of `s`, giving the
    /// string's bytes and the number of bytes it took.
    pub open spec fn spec_parse(s: Seq<u8>) -> Result<(Seq<u8>, nat), DecodeError> {
        if s.len() < 4 {
            Err(DecodeError::UnexpectedEnd { record: "U32SizeString" })
        } else if s.len() < 4 + u32_at(s, 0) {
            Err(DecodeError::UnexpectedEnd { record: "U32SizeString" })
        } else if !is_utf8(s.subrange(4, 4 + u32_at(s, 0))) {
            Err(DecodeError::Utf8 { record: "U32SizeString" })
        } else {
            Ok((s.subrange(4, 4 + u32_at(s, 0)), (4 + u32_at(s, 0)) as nat))
        }
    }

    /// The identifier this string starts probing from when it is interned.
    pub fn get_hash(&self) -> (r: u64)
        ensures
            r == string_hash(self.0@),
    {
        hash_bytes(self.0.as_slice())
    }

    pub fn encode(&self, out: &mut Vec<u8>)
        requires
            self.0@.len() <= u32::MAX,
        ensures
            final(out)@ == old(out)@ + self.spec_bytes(),
    {
        push_u32(out, self.0.len() as u32);
        push_bytes(out, self.0.as_slice());
        assert(final(out)@ =~= old(out)@ + self.spec_bytes());
    }

    /// Decodes the string that starts at `pos`, giving it and the position
    /// just past it.
    pub fn decode(data: &[u8], pos: usize) -> (r: Result<(U32SizeString, usize), DecodeError>)
        ensures
            match (r, Self::spec_parse(tail(data@, pos as int))) {
                (Ok((v, p)), Ok((w, n))) => v.0@ == w && p == pos + n,
                (Err(e), Err(f)) => e == f,
                _ => false,
            },
    {
        let len = data.len();
        let ghost s = tail(data@, pos as int);
        if pos > len || len - pos < 4 {
            return Err(DecodeError::UnexpectedEnd { record: "U32SizeString" });
        }
        let n = get_u32(data, pos);
        assert(n == u32_at(s, 0));
        if len - pos - 4 < n as usize {
            return Err(DecodeError::UnexpectedEnd { record: "U32SizeString" });
        }
        let bytes = get_bytes(data, pos + 4, n as usize);
        assert(bytes@ =~= s.subrange(4, 4 + n));
        if !check_utf8(bytes.as_slice()) {
            return Err(DecodeError::Utf8 { record: "U32SizeString" });
        }
        Ok((U32SizeString(bytes), pos + 4 + n as usize))
    }
}

/// The fixed-size header at the start of a capture file. The timer multiplier, a
/// 64-bit float on disk, is held as its IEEE-754 bit pattern.
#[derive(Clone, Copy, Debug, PartialEq, Eq)]
pub struct UTracyHeader {
    pub signature: u64,
    pub version: u32,
    pub padding0: u32,
    pub multiplier_bits: u64,
    pub init_begin: u64,
    pub init_end: u64,
    pub delay: u64,
    pub resolution: u64,
    pub epoch: u64,
    pub exec_time: u64,
    pub process_id: u64,
    pub sampling_period: u64,
    pub flags: u8,
    pub cpu_arch: u8,
    pub cpu_manufacturer: [u8; 12],
    pub padding1: [u8; 2],
    pub cpu_id: u32,
    pub program_name: [u8; 64],
    pub host_info: [u8; 1024],
    pub padding2: [u8; 4],
}

impl UTracyHeader {
    /// The canonical bytes of the record.
    #[verifier::opaque]
    pub open spec fn spec_bytes(&self) -> Seq<u8> {
        le_u64(self.signature)
            + le_u32(self.version)
            + le_u32(self.padding0)
            + le_u64(self.multiplier_bits)
            + le_u64(self.init_begin)
            + le_u64(self.init_end)
            + le_u64(self.delay)
            + le_u64(self.resolution)
            + le_u64(self.epoch)
            + le_u64(self.exec_time)
            + le_u64(self.process_id)
            + le_u64(self.sampling_period)
            + seq![self.flags]
            + seq![self.cpu_arch]
            + self.cpu_manufacturer@
            + self.padding1@
            + le_u32(self.cpu_id)
            + self.program_name@
            + self.host_info@
            + self.padding2@
    }

    /// The record whose bytes start at `i` of `s`.
    pub open spec fn spec_read(s: Seq<u8>, i: int) -> UTracyHeader {
        UTracyHeader {
            signature: u64_at(s, i + 0),
            version: u32_at(s, i + 8),
            padding0: u32_at(s, i + 12),
            multiplier_bits: u64_at(s, i + 16),
            init_begin: u64_at(s, i + 24),
            init_end: u64_at(s, i + 32),
            delay: u64_at(s, i + 40),
            resolution: u64_at(s, i + 48),
            epoch: u64_at(s, i + 56),
            exec_time: u64_at(s, i + 64),
            process_id: u64_at(s, i + 72),
            sampling_period: u64_at(s, i + 80),
            flags: s[i + 88],
            cpu_arch: s[i + 89],
            cpu_manufacturer: array_of::<12>(s.subrange(i + 90, i + 102)),
            padding1: array_of::<2>(s.subrange(i + 102, i + 104)),
            cpu_id: u32_at(s, i + 104),
            program_name: array_of::<64>(s.subrange(i + 108, i + 172)),
            host_info: array_of::<1024>(s.subrange(i + 172, i + 1196)),
            padding2: array_of::<4>(s.subrange(i + 1196, i + 1200)),
        }
    }

    /// Decodes the record at the start of `s`.
    pub open spec fn spec_parse(s: Seq<u8>) -> Result<UTracyHeader, DecodeError> {
        if s.len() < 1200 {
            Err(DecodeError::UnexpectedEnd { record: "UTracyHeader" })
        } else {
            Ok(UTracyHeader::spec_read(s, 0))
        }
    }

    /// Appends the record's bytes.
    pub fn encode(&self, out: &mut Vec<u8>)
        ensures
            final(out)@ == old(out)@ + self.spec_bytes(),
    {
        reveal(UTracyHeader::spec_bytes);
        push_u64(out, self.signature);
        push_u32(out, self.version);
        push_u32(out, self.padding0);
        push_u64(out, self.multiplier_bits);
        push_u64(out, self.init_begin);
        push_u64(out, self.init_end);
        push_u64(out, self.delay);
        push_u64(out, self.resolution);
        push_u64(out, self.epoch);
        push_u64(out, self.exec_time);
        push_u64(out, self.process_id);
        push_u64(out, self.sampling_period);
        push_u8(out, self.flags);
        push_u8(out, self.cpu_arch);
        push_bytes(out, self.cpu_manufacturer.as_slice());
        push_bytes(out, self.padding1.as_slice());
        push_u32(out, self.cpu_id);
        push_bytes(out, self.program_name.as_slice());
        push_bytes(out, self.host_info.as_slice());
        push_bytes(out, self.padding2.as_slice());
        assert(final(out)@ =~= old(out)@ + self.spec_bytes());
    }

    /// Reads the record whose bytes start at `i`.
    pub fn read(data: &[u8], i: usize) -> (r: UTracyHeader)
        requires
            i + 1200 <= data@.len(),
        ensures
            r == UTracyHeader::spec_read(data@, i as int),
    {
        let len = data.len();
        assert(i + 1200 <= len);
        let signature = get_u64(data, i + 0);
        let version = get_u32(data, i + 8);
        let padding0 = get_u32(data, i + 12);
        let multiplier_bits = get_u64(data, i + 16);
        let init_begin = get_u64(data, i + 24);
        let init_end = get_u64(data, i + 32);
        let delay = get_u64(data, i + 40);
        let resolution = get_u64(data, i + 48);
        let epoch = get_u64(data, i + 56);
        let exec_time = get_u64(data, i + 64);
        let process_id = get_u64(data, i + 72);
        let sampling_period = get_u64(data, i + 80);
        let flags = data[i + 88];
        let cpu_arch = data[i + 89];
        let cpu_manufacturer: [u8; 12] = get_array(data, i + 90);
        proof { lemma_array_of(cpu_manufacturer); }
        let padding1: [u8; 2] = get_array(data, i + 102);
        proof { lemma_array_of(padding1); }
        let cpu_id = get_u32(data, i + 104);
        let program_name: [u8; 64] = get_array(data, i + 108);
        proof { lemma_array_of(program_name); }
        let host_info: [u8; 1024] = get_array(data, i + 172);
        proof { lemma_array_of(host_info); }
        let padding2: [u8; 4] = get_array(data, i + 1196);
        proof { lemma_array_of(padding2); }
        UTracyHeader { signature, version, padding0, multiplier_bits, init_begin, init_end, delay, resolution, epoch, exec_time, process_id, sampling_period, flags, cpu_arch, cpu_manufacturer, padding1, cpu_id, program_name, host_info, padding2 }
    }

    /// Decodes the record that starts at `pos`.
    pub fn decode(data: &[u8], pos: usize) -> (r: Result<UTracyHeader, DecodeError>)
        ensures
            r == UTracyHeader::spec_parse(tail(data@, pos as int)),
    {
        let len = data.len();
        let ghost s = tail(data@, pos as int);
        if pos > len || len - pos < 1200 {
            return Err(DecodeError::UnexpectedEnd { record: "UTracyHeader" });
        }
        let r = UTracyHeader::read(data, pos);
        proof { UTracyHeader::lemma_read_shift(data@, pos as int); }
        Ok(r)
    }

    /// Reading at `pos` is reading at the start of what follows `pos`.
    pub proof fn lemma_read_shift(s: Seq<u8>, pos: int)
        requires
            0 <= pos, pos + 1200 <= s.len(),
        ensures
            UTracyHeader::spec_read(s, pos) == UTracyHeader::spec_read(tail(s, pos), 0),
    {
        let t = tail(s, pos);
        assert(s.subrange(pos + 90, pos + 102) =~= t.subrange(90, 102));
        assert(s.subrange(pos + 102, pos + 104) =~= t.subrange(102, 104));
        assert(s.subrange(pos + 108, pos + 172) =~= t.subrange(108, 172));
        assert(s.subrange(pos + 172, pos + 1196) =~= t.subrange(172, 1196));
        assert(s.subrange(pos + 1196, pos + 1200) =~= t.subrange(1196, 1200));
    }

    #[verifier::spinoff_prover]
    #[verifier::rlimit(100)]
    proof fn lemma_read_part0(v: UTracyHeader, s: Seq<u8>, i: int)
        requires
            0 <= i, i + 1200 <= s.len(),
            s.subrange(i, i + 1200) == v.spec_bytes(),
        ensures
            UTracyHeader::spec_read(s, i).signature == v.signature,
            UTracyHeader::spec_read(s, i).version == v.version,
    {
        reveal(UTracyHeader::spec_bytes);
        let b = v.spec_bytes();
        assert(s.subrange(i + 0, i + 8) =~= b.subrange(0, 8));
        assert(b.subrange(0, 8) =~= le_u64(v.signature));
        lemma_u64_round_trip(v.signature, s, i + 0);
        assert(s.subrange(i + 8, i + 12) =~= b.subrange(8, 12));
        assert(b.subrange(8, 12) =~= le_u32(v.version));
        lemma_u32_round_trip(v.version, s, i + 8);
    }

    #[verifier::spinoff_prover]
    #[verifier::rlimit(100)]
    proof fn lemma_read_part1(v: UTracyHeader, s: Seq<u8>, i: int)
        requires
            0 <= i, i + 1200 <= s.len(),
            s.subrange(i, i + 1200) == v.spec_bytes(),
        ensures
            UTracyHeader::spec_read(s, i).padding0 == v.padding0,
            UTracyHeader::spec_read(s, i).multiplier_bits == v.multiplier_bits,
    {
        reveal(UTracyHeader::spec_bytes);
        let b = v.spec_bytes();
        assert(s.subrange(i + 12, i + 16) =~= b.subrange(12, 16));
        assert(b.subrange(12, 16) =~= le_u32(v.padding0));
        lemma_u32_round_trip(v.padding0, s, i + 12);
        assert(s.subrange(i + 16, i + 24) =~= b.subrange(16, 24));
        assert(b.subrange(16, 24) =~= le_u64(v.multiplier_bits));
        lemma_u64_round_trip(v.multiplier_bits, s, i + 16);
    }

    #[verifier::spinoff_prover]
    #[verifier::rlimit(100)]
    proof fn lemma_read_part2(v: UTracyHeader, s: Seq<u8>, i: int)
        requires
            0 <= i, i + 1200 <= s.len(),
            s.subrange(i, i + 1200) == v.spec_bytes(),
        ensures
            UTracyHeader::spec_read(s, i).init_begin == v.init_begin,
            UTracyHeader::spec_read(s, i).init_end == v.init_end,
    {
        reveal(UTracyHeader::spec_bytes);
        let b = v.spec_bytes();
        assert(s.subrange(i + 24, i + 32) =~= b.subrange(24, 32));
        assert(b.subrange(24, 32) =~= le_u64(v.init_begin));
        lemma_u64_round_trip(v.init_begin, s, i + 24);
        assert(s.subrange(i + 32, i + 40) =~= b.subrange(32, 40));
        assert(b.subrange(32, 40) =~= le_u64(v.init_end));
        lemma_u64_round_trip(v.init_end, s, i + 32);
    }

    #[verifier::spinoff_prover]
    #[verifier::rlimit(100)]
    proof fn lemma_read_part3(v: UTracyHeader, s: Seq<u8>, i: int)
        requires
            0 <= i, i + 1200 <= s.len(),
            s.subrange(i, i + 1200) == v.spec_bytes(),
        ensures
            UTracyHeader::spec_read(s, i).delay == v.delay,
            UTracyHeader::spec_read(s, i).resolution == v.resolution,
    {
        reveal(UTracyHeader::spec_bytes);
        let b = v.spec_bytes();
        assert(s.subrange(i + 40, i + 48) =~= b.subrange(40, 48));
        assert(b.subrange(40, 48) =~= le_u64(v.delay));
        lemma_u64_round_trip(v.delay, s, i + 40);
        assert(s.subrange(i + 48, i + 56) =~= b.subrange(48, 56));
        assert(b.subrange(48, 56) =~= le_u64(v.resolution));
        lemma_u64_round_trip(v.resolution, s, i + 48);
    }

    #[verifier::spinoff_prover]
    #[verifier::rlimit(100)]
    proof fn lemma_read_part4(v: UTracyHeader, s: Seq<u8>, i: int)
        requires
            0 <= i, i + 1200 <= s.len(),
            s.subrange(i, i + 1200) == v.spec_bytes(),
        ensures
            UTracyHeader::spec_read(s, i).epoch == v.epoch,
            UTracyHeader::spec_read(s, i).exec_time == v.exec_time,
    {
        reveal(UTracyHeader::spec_bytes);
        let b = v.spec_bytes();
        assert(s.subrange(i + 56, i + 64) =~= b.subrange(56, 64));
        assert(b.subrange(56, 64) =~= le_u64(v.epoch));
        lemma_u64_round_trip(v.epoch, s, i + 56);
        assert(s.subrange(i + 64, i + 72) =~= b.subrange(64, 72));
        assert(b.subrange(64, 72) =~= le_u64(v.exec_time));
        lemma_u64_round_trip(v.exec_time, s, i + 64);
    }

    #[verifier::spinoff_prover]
    #[verifier::rlimit(100)]
    proof fn lemma_read_part5(v: UTracyHeader, s: Seq<u8>, i: int)
        requires
            0 <= i, i + 1200 <= s.len(),
            s.subrange(i, i + 1200) == v.spec_bytes(),
        ensures
            UTracyHeader::spec_read(s, i).process_id == v.process_id,
            UTracyHeader::spec_read(s, i).sampling_period == v.sampling_period,
    {
        reveal(UTracyHeader::spec_bytes);
        let b = v.spec_bytes();
        assert(s.subrange(i + 72, i + 80) =~= b.subrange(72, 80));
        assert(b.subrange(72, 80) =~= le_u64(v.process_id));
        lemma_u64_round_trip(v.process_id, s, i + 72);
        assert(s.subrange(i + 80, i + 88) =~= b.subrange(80, 88));
        assert(b.subrange(80, 88) =~= le_u64(v.sampling_period));
        lemma_u64_round_trip(v.sampling_period, s, i + 80);
    }

    #[verifier::spinoff_prover]
    #[verifier::rlimit(100)]
    proof fn lemma_read_part6(v: UTracyHeader, s: Seq<u8>, i: int)
        requires
            0 <= i, i + 1200 <= s.len(),
            s.subrange(i, i + 1200) == v.spec_bytes(),
        ensures
            UTracyHeader::spec_read(s, i).flags == v.flags,
            UTracyHeader::spec_read(s, i).cpu_arch == v.cpu_arch,
    {
        reveal(UTracyHeader::spec_bytes);
        let b = v.spec_bytes();
        assert(s.subrange(i + 88, i + 89) =~= b.subrange(88, 89));
        assert(b.subrange(88, 89) =~= seq![v.flags]);
        assert(s[i + 88] == s.subrange(i + 88, i + 89)[0]);
        assert(s.subrange(i + 89, i + 90) =~= b.subrange(89, 90));
        assert(b.subrange(89, 90) =~= seq![v.cpu_arch]);
        assert(s[i + 89] == s.subrange(i + 89, i + 90)[0]);
    }

    #[verifier::spinoff_prover]
    #[verifier::rlimit(100)]
    proof fn lemma_read_part7(v: UTracyHeader, s: Seq<u8>, i: int)
        requires
            0 <= i, i + 1200 <= s.len(),
            s.subrange(i, i + 1200) == v.spec_bytes(),
        ensures
            UTracyHeader::spec_read(s, i).cpu_manufacturer == v.cpu_manufacturer,
            UTracyHeader::spec_read(s, i).padding1 == v.padding1,
    {
        reveal(UTracyHeader::spec_bytes);
        let b = v.spec_bytes();
        assert(s.subrange(i + 90, i + 102) =~= b.subrange(90, 102));
        assert(b.subrange(90, 102) =~= v.cpu_manufacturer@);
        lemma_array_of(v.cpu_manufacturer);
        assert(s.subrange(i + 102, i + 104) =~= b.subrange(102, 104));
        assert(b.subrange(102, 104) =~= v.padding1@);
        lemma_array_of(v.padding1);
    }

    #[verifier::spinoff_prover]
    #[verifier::rlimit(100)]
    proof fn lemma_read_part8(v: UTracyHeader, s: Seq<u8>, i: int)
        requires
            0 <= i, i + 1200 <= s.len(),
            s.subrange(i, i + 1200) == v.spec_bytes(),
        ensures
            UTracyHeader::spec_read(s, i).cpu_id == v.cpu_id,
            UTracyHeader::spec_read(s, i).program_name == v.program_name,
    {
        reveal(UTracyHeader::spec_bytes);
        let b = v.spec_bytes();
        assert(s.subrange(i + 104, i + 108) =~= b.subrange(104, 108));
        assert(b.subrange(104, 108) =~= le_u32(v.cpu_id));
        lemma_u32_round_trip(v.cpu_id, s, i + 104);
        assert(s.subrange(i + 108, i + 172) =~= b.subrange(108, 172));
        assert(b.subrange(108, 172) =~= v.program_name@);
        lemma_array_of(v.program_name);
    }

    #[verifier::spinoff_prover]
    #[verifier::rlimit(100)]
    proof fn lemma_read_part9(v: UTracyHeader, s: Seq<u8>, i: int)
        requires
            0 <= i, i + 1200 <= s.len(),
            s.subrange(i, i + 1200) == v.spec_bytes(),
        ensures
            UTracyHeader::spec_read(s, i).host_info == v.host_info,
            UTracyHeader::spec_read(s, i).padding2 == v.padding2,
    {
        reveal(UTracyHeader::spec_bytes);
        let b = v.spec_bytes();
        assert(s.subrange(i + 172, i + 1196) =~= b.subrange(172, 1196));
        assert(b.subrange(172, 1196) =~= v.host_info@);
        lemma_array_of(v.host_info);
        assert(s.subrange(i + 1196, i + 1200) =~= b.subrange(1196, 1200));
        assert(b.subrange(1196, 1200) =~= v.padding2@);
        lemma_array_of(v.padding2);
    }

    /// Reading back the canonical bytes of a record gives the record.
    pub proof fn lemma_read(v: UTracyHeader, s: Seq<u8>, i: int)
        requires
            0 <= i, i + 1200 <= s.len(),
            s.subrange(i, i + 1200) == v.spec_bytes(),
        ensures
            UTracyHeader::spec_read(s, i) == v,
    {
        UTracyHeader::lemma_read_part0(v, s, i);
        UTracyHeader::lemma_read_part1(v, s, i);
        UTracyHeader::lemma_read_part2(v, s, i);
        UTracyHeader::lemma_read_part3(v, s, i);
        UTracyHeader::lemma_read_part4(v, s, i);
        UTracyHeader::lemma_read_part5(v, s, i);
        UTracyHeader::lemma_read_part6(v, s, i);
        UTracyHeader::lemma_read_part7(v, s, i);
        UTracyHeader::lemma_read_part8(v, s, i);
        UTracyHeader::lemma_read_part9(v, s, i);
    }

    proof fn lemma_bytes_len(v: UTracyHeader)
        ensures
            v.spec_bytes().len() == 1200,
    {
        reveal(UTracyHeader::spec_bytes);
    }

    /// Decoding the canonical bytes of a record, followed by anything, gives
    /// the record back.
    #[verifier::spinoff_prover]
    #[verifier::rlimit(100)]
    pub proof fn lemma_round_trip(v: UTracyHeader, rest: Seq<u8>)
        ensures
            UTracyHeader::spec_parse(v.spec_bytes() + rest) == Ok::<UTracyHeader, DecodeError>(v),
    {
        let s = v.spec_bytes() + rest;
        UTracyHeader::lemma_bytes_len(v);
        assert(s.subrange(0, 1200) =~= v.spec_bytes());
        UTracyHeader::lemma_read(v, s, 0);
    }
}

/// A source location as the replay holds it: its three strings replaced by
/// their interned identifiers.
#[derive(Clone, Copy, Debug, PartialEq, Eq)]
pub struct SourceLocation {
    pub name: u64,
    pub function: u64,
    pub file: u64,
    pub line: u32,
    pub color_r: u8,
    pub color_g: u8,
    pub color_b: u8,
}

impl SourceLocation {
    /// The canonical bytes of the record.
    pub open spec fn spec_bytes(&self) -> Seq<u8> {
        le_u64(self.name)
            + le_u64(self.function)
            + le_u64(self.file)
            + le_u32(self.line)
            + seq![self.color_r]
            + seq![self.color_g]
            + seq![self.color_b]
    }

    /// The record whose bytes start at `i` of `s`.
    pub open spec fn spec_read(s: Seq<u8>, i: int) -> SourceLocation {
        SourceLocation {
            name: u64_at(s, i + 0),
            function: u64_at(s, i + 8),
            file: u64_at(s, i + 16),
            line: u32_at(s, i + 24),
            color_r: s[i + 28],
            color_g: s[i + 29],
            color_b: s[i + 30],
        }
    }

    /// Decodes the record at the start of `s`.
    pub open spec fn spec_parse(s: Seq<u8>) -> Result<SourceLocation, DecodeError> {
        if s.len() < 31 {
            Err(DecodeError::UnexpectedEnd { record: "SourceLocation" })
        } else {
            Ok(SourceLocation::spec_read(s, 0))
        }
    }

    /// Appends the record's bytes.
    pub fn encode(&self, out: &mut Vec<u8>)
        ensures
            final(out)@ == old(out)@ + self.spec_bytes(),
    {
        push_u64(out, self.name);
        push_u64(out, self.function);
        push_u64(out, self.file);
        push_u32(out, self.line);
        push_u8(out, self.color_r);
        push_u8(out, self.color_g);
        push_u8(out, self.color_b);
        assert(final(out)@ =~= old(out)@ + self.spec_bytes());
    }

    /// Reads the record whose bytes start at `i`.
    pub fn read(data: &[u8], i: usize) -> (r: SourceLocation)
        requires
            i + 31 <= data@.len(),
        ensures
            r == SourceLocation::spec_read(data@, i as int),
    {
        let len = data.len();
        assert(i + 31 <= len);
        let name = get_u64(data, i + 0);
        let function = get_u64(data, i + 8);
        let file = get_u64(data, i + 16);
        let line = get_u32(data, i + 24);
        let color_r = data[i + 28];
        let color_g = data[i + 29];
        let color_b = data[i + 30];
        SourceLocation { name, function, file, line, color_r, color_g, color_b }
    }

    /// Decodes the record that starts at `pos`.
    pub fn decode(data: &[u8], pos: usize) -> (r: Result<SourceLocation, DecodeError>)
        ensures
            r == SourceLocation::spec_parse(tail(data@, pos as int)),
    {
        let len = data.len();
        let ghost s = tail(data@, pos as int);
        if pos > len || len - pos < 31 {
            return Err(DecodeError::UnexpectedEnd { record: "SourceLocation" });
        }
        let r = SourceLocation::read(data, pos);
        proof { SourceLocation::lemma_read_shift(data@, pos as int); }
        Ok(r)
    }

    /// Reading at `pos` is reading at the start of what follows `pos`.
    pub proof fn lemma_read_shift(s: Seq<u8>, pos: int)
        requires
            0 <= pos, pos + 31 <= s.len(),
        ensures
            SourceLocation::spec_read(s, pos) == SourceLocation::spec_read(tail(s, pos), 0),
    {
        let t = tail(s, pos);
    }

    /// Reading back the canonical bytes of a record gives the record.
    pub proof fn lemma_read(v: SourceLocation, s: Seq<u8>, i: int)
        requires
            0 <= i, i + 31 <= s.len(),
            s.subrange(i, i + 31) == v.spec_bytes(),
        ensures
            SourceLocation::spec_read(s, i) == v,
    {
        let b = v.spec_bytes();
        assert(b.len() == 31);
        assert(s.subrange(i + 0, i + 8) =~= b.subrange(0, 8));
        assert(b.subrange(0, 8) =~= le_u64(v.name));
        lemma_u64_round_trip(v.name, s, i + 0);
        assert(s.subrange(i + 8, i + 16) =~= b.subrange(8, 16));
        assert(b.subrange(8, 16) =~= le_u64(v.function));
        lemma_u64_round_trip(v.function, s, i + 8);
        assert(s.subrange(i + 16, i + 24) =~= b.subrange(16, 24));
        assert(b.subrange(16, 24) =~= le_u64(v.file));
        lemma_u64_round_trip(v.file, s, i + 16);
        assert(s.subrange(i + 24, i + 28) =~= b.subrange(24, 28));
        assert(b.subrange(24, 28) =~= le_u32(v.line));
        lemma_u32_round_trip(v.line, s, i + 24);
        assert(s.subrange(i + 28, i + 29) =~= b.subrange(28, 29));
        assert(b.subrange(28, 29) =~= seq![v.color_r]);
        assert(s[i + 28] == s.subrange(i + 28, i + 29)[0]);
        assert(s.subrange(i + 29, i + 30) =~= b.subrange(29, 30));
        assert(b.subrange(29, 30) =~= seq![v.color_g]);
        assert(s[i + 29] == s.subrange(i + 29, i + 30)[0]);
        assert(s.subrange(i + 30, i + 31) =~= b.subrange(30, 31));
        assert(b.subrange(30, 31) =~= seq![v.color_b]);
        assert(s[i + 30] == s.subrange(i + 30, i + 31)[0]);
    }

    /// Decoding the canonical bytes of a record, followed by anything, gives
    /// the record back.
    pub proof fn lemma_round_trip(v: SourceLocation, rest: Seq<u8>)
        ensures
            SourceLocation::spec_parse(v.spec_bytes() + rest) == Ok::<SourceLocation, DecodeError>(v),
    {
        let s = v.spec_bytes() + rest;
        assert(s.subrange(0, 31) =~= v.spec_bytes());
        SourceLocation::lemma_read(v, s, 0);
    }
}

/// The kind of an event record in the capture file.
#[derive(Clone, Copy, Debug, PartialEq, Eq)]
pub enum EventType {
    Begin,
    End,
    Color,
    Mark,
}

impl EventType {
    /// The byte that encodes the variant.
    pub open spec fn spec_code(self) -> u8 {
        match self {
            EventType::Begin => 15,
            EventType::End => 17,
            EventType::Color => 62,
            EventType::Mark => 64,
        }
    }

    /// The variant that a byte encodes, if any.
    pub open spec fn spec_from_code(b: u8) -> Option<EventType> {
        match b {
            15 => Some(EventType::Begin),
            17 => Some(EventType::End),
            62 => Some(EventType::Color),
            64 => Some(EventType::Mark),
            _ => None,
        }
    }

    pub fn to_u8(&self) -> (r: u8)
        ensures
            r == self.spec_code(),
    {
        match self {
            EventType::Begin => 15,
            EventType::End => 17,
            EventType::Color => 62,
            EventType::Mark => 64,
        }
    }

    pub fn from_u8(b: u8) -> (r: Option<EventType>)
        ensures
            r == EventType::spec_from_code(b),
    {
        match b {
            15 => Some(EventType::Begin),
            17 => Some(EventType::End),
            62 => Some(EventType::Color),
            64 => Some(EventType::Mark),
            _ => None,
        }
    }

    /// Each variant is read back from its own byte.
    pub proof fn lemma_code_round_trip(t: EventType)
        ensures
            EventType::spec_from_code(t.spec_code()) == Some(t),
    {
    }
}

/// Payload of a zone-begin event.
#[derive(Clone, Copy, Debug, PartialEq, Eq)]
pub struct EventZoneBegin {
    pub thread_id: u32,
    pub source_location: u32,
    pub timestamp: u64,
}

impl EventZoneBegin {
    /// The canonical bytes of the record.
    pub open spec fn spec_bytes(&self) -> Seq<u8> {
        le_u32(self.thread_id)
            + le_u32(self.source_location)
            + le_u64(self.timestamp)
    }

    /// The record whose bytes start at `i` of `s`.
    pub open spec fn spec_read(s: Seq<u8>, i: int) -> EventZoneBegin {
        EventZoneBegin {
            thread_id: u32_at(s, i + 0),
            source_location: u32_at(s, i + 4),
            timestamp: u64_at(s, i + 8),
        }
    }

    /// Decodes the record at the start of `s`.
    pub open spec fn spec_parse(s: Seq<u8>) -> Result<EventZoneBegin, DecodeError> {
        if s.len() < 16 {
            Err(DecodeError::UnexpectedEnd { record: "EventZoneBegin" })
        } else {
            Ok(EventZoneBegin::spec_read(s, 0))
        }
    }

    /// Appends the record's bytes.
    pub fn encode(&self, out: &mut Vec<u8>)
        ensures
            final(out)@ == old(out)@ + self.spec_bytes(),
    {
        push_u32(out, self.thread_id);
        push_u32(out, self.source_location);
        push_u64(out, self.timestamp);
        assert(final(out)@ =~= old(out)@ + self.spec_bytes());
    }

    /// Reads the record whose bytes start at `i`.
    pub fn read(data: &[u8], i: usize) -> (r: EventZoneBegin)
        requires
            i + 16 <= data@.len(),
        ensures
            r == EventZoneBegin::spec_read(data@, i as int),
    {
        let len = data.len();
        assert(i + 16 <= len);
        let thread_id = get_u32(data, i + 0);
        let source_location = get_u32(data, i + 4);
        let timestamp = get_u64(data, i + 8);
        EventZoneBegin { thread_id, source_location, timestamp }
    }

    /// Decodes the record that starts at `pos`.
    pub fn decode(data: &[u8], pos: usize) -> (r: Result<EventZoneBegin, DecodeError>)
        ensures
            r == EventZoneBegin::spec_parse(tail(data@, pos as int)),
    {
        let len = data.len();
        let ghost s = tail(data@, pos as int);
        if pos > len || len - pos < 16 {
            return Err(DecodeError::UnexpectedEnd { record: "EventZoneBegin" });
        }
        let r = EventZoneBegin::read(data, pos);
        proof { EventZoneBegin::lemma_read_shift(data@, pos as int); }
        Ok(r)
    }

    /// Reading at `pos` is reading at the start of what follows `pos`.
    pub proof fn lemma_read_shift(s: Seq<u8>, pos: int)
        requires
            0 <= pos, pos + 16 <= s.len(),
        ensures
            EventZoneBegin::spec_read(s, pos) == EventZoneBegin::spec_read(tail(s, pos), 0),
    {
        let t = tail(s, pos);
    }

    /// Reading back the canonical bytes of a record gives the record.
    pub proof fn lemma_read(v: EventZoneBegin, s: Seq<u8>, i: int)
        requires
            0 <= i, i + 16 <= s.len(),
            s.subrange(i, i + 16) == v.spec_bytes(),
        ensures
            EventZoneBegin::spec_read(s, i) == v,
    {
        let b = v.spec_bytes();
        assert(b.len() == 16);
        assert(s.subrange(i + 0, i + 4) =~= b.subrange(0, 4));
        assert(b.subrange(0, 4) =~= le_u32(v.thread_id));
        lemma_u32_round_trip(v.thread_id, s, i + 0);
        assert(s.subrange(i + 4, i + 8) =~= b.subrange(4, 8));
        assert(b.subrange(4, 8) =~= le_u32(v.source_location));
        lemma_u32_round_trip(v.source_location, s, i + 4);
        assert(s.subrange(i + 8, i + 16) =~= b.subrange(8, 16));
        assert(b.subrange(8, 16) =~= le_u64(v.timestamp));
        lemma_u64_round_trip(v.timestamp, s, i + 8);
    }

    /// Decoding the canonical bytes of a record, followed by anything, gives
    /// the record back.
    pub proof fn lemma_round_trip(v: EventZoneBegin, rest: Seq<u8>)
        ensures
            EventZoneBegin::spec_parse(v.spec_bytes() + rest) == Ok::<EventZoneBegin, DecodeError>(v),
    {
        let s = v.spec_bytes() + rest;
        assert(s.subrange(0, 16) =~= v.spec_bytes());
        EventZoneBegin::lemma_read(v, s, 0);
    }
}

/// Payload of a zone-end event.
#[derive(Clone, Copy, Debug, PartialEq, Eq)]
pub struct EventZoneEnd {
    pub thread_id: u32,
    pub padding: u32,
    pub timestamp: u64,
}

impl EventZoneEnd {
    /// The canonical bytes of the record.
    pub open spec fn spec_bytes(&self) -> Seq<u8> {
        le_u32(self.thread_id)
            + le_u32(self.padding)
            + le_u64(self.timestamp)
    }

    /// The record whose bytes start at `i` of `s`.
    pub open spec fn spec_read(s: Seq<u8>, i: int) -> EventZoneEnd {
        EventZoneEnd {
            thread_id: u32_at(s, i + 0),
            padding: u32_at(s, i + 4),
            timestamp: u64_at(s, i + 8),
        }
    }

    /// Decodes the record at the start of `s`.
    pub open spec fn spec_parse(s: Seq<u8>) -> Result<EventZoneEnd, DecodeError> {
        if s.len() < 16 {
            Err(DecodeError::UnexpectedEnd { record: "EventZoneEnd" })
        } else {
            Ok(EventZoneEnd::spec_read(s, 0))
        }
    }

    /// Appends the record's bytes.
    pub fn encode(&self, out: &mut Vec<u8>)
        ensures
            final(out)@ == old(out)@ + self.spec_bytes(),
    {
        push_u32(out, self.thread_id);
        push_u32(out, self.padding);
        push_u64(out, self.timestamp);
        assert(final(out)@ =~= old(out)@ + self.spec_bytes());
    }

    /// Reads the record whose bytes start at `i`.
    pub fn read(data: &[u8], i: usize) -> (r: EventZoneEnd)
        requires
            i + 16 <= data@.len(),
        ensures
            r == EventZoneEnd::spec_read(data@, i as int),
    {
        let len = data.len();
        assert(i + 16 <= len);
        let thread_id = get_u32(data, i + 0);
        let padding = get_u32(data, i + 4);
        let timestamp = get_u64(data, i + 8);
        EventZoneEnd { thread_id, padding, timestamp }
    }

    /// Decodes the record that starts at `pos`.
    pub fn decode(data: &[u8], pos: usize) -> (r: Result<EventZoneEnd, DecodeError>)
        ensures
            r == EventZoneEnd::spec_parse(tail(data@, pos as int)),
    {
        let len = data.len();
        let ghost s = tail(data@, pos as int);
        if pos > len || len - pos < 16 {
            return Err(DecodeError::UnexpectedEnd { record: "EventZoneEnd" });
        }
        let r = EventZoneEnd::read(data, pos);
        proof { EventZoneEnd::lemma_read_shift(data@, pos as int); }
        Ok(r)
    }

    /// Reading at `pos` is reading at the start of what follows `pos`.
    pub proof fn lemma_read_shift(s: Seq<u8>, pos: int)
        requires
            0 <= pos, pos + 16 <= s.len(),
        ensures
            EventZoneEnd::spec_read(s, pos) == EventZoneEnd::spec_read(tail(s, pos), 0),
    {
        let t = tail(s, pos);
    }

    /// Reading back the canonical bytes of a record gives the record.
    pub proof fn lemma_read(v: EventZoneEnd, s: Seq<u8>, i: int)
        requires
            0 <= i, i + 16 <= s.len(),
            s.subrange(i, i + 16) == v.spec_bytes(),
        ensures
            EventZoneEnd::spec_read(s, i) == v,
    {
        let b = v.spec_bytes();
        assert(b.len() == 16);
        assert(s.subrange(i + 0, i + 4) =~= b.subrange(0, 4));
        assert(b.subrange(0, 4) =~= le_u32(v.thread_id));
        lemma_u32_round_trip(v.thread_id, s, i + 0);
        assert(s.subrange(i + 4, i + 8) =~= b.subrange(4, 8));
        assert(b.subrange(4, 8) =~= le_u32(v.padding));
        lemma_u32_round_trip(v.padding, s, i + 4);
        assert(s.subrange(i + 8, i + 16) =~= b.subrange(8, 16));
        assert(b.subrange(8, 16) =~= le_u64(v.timestamp));
        lemma_u64_round_trip(v.timestamp, s, i + 8);
    }

    /// Decoding the canonical bytes of a record, followed by anything, gives
    /// the record back.
    pub proof fn lemma_round_trip(v: EventZoneEnd, rest: Seq<u8>)
        ensures
            EventZoneEnd::spec_parse(v.spec_bytes() + rest) == Ok::<EventZoneEnd, DecodeError>(v),
    {
        let s = v.spec_bytes() + rest;
        assert(s.subrange(0, 16) =~= v.spec_bytes());
        EventZoneEnd::lemma_read(v, s, 0);
    }
}

/// Payload of a zone-color event.
#[derive(Clone, Copy, Debug, PartialEq, Eq)]
pub struct EventZoneColor {
    pub thread_id: u32,
    pub color: [u8; 4],
    pub padding: u64,
}

impl EventZoneColor {
    /// The canonical bytes of the record.
    pub open spec fn spec_bytes(&self) -> Seq<u8> {
        le_u32(self.thread_id)
            + self.color@
            + le_u64(self.padding)
    }

    /// The record whose bytes start at `i` of `s`.
    pub open spec fn spec_read(s: Seq<u8>, i: int) -> EventZoneColor {
        EventZoneColor {
            thread_id: u32_at(s, i + 0),
            color: array_of::<4>(s.subrange(i + 4, i + 8)),
            padding: u64_at(s, i + 8),
        }
    }

    /// Decodes the record at the start of `s`.
    pub open spec fn spec_parse(s: Seq<u8>) -> Result<EventZoneColor, DecodeError> {
        if s.len() < 16 {
            Err(DecodeError::UnexpectedEnd { record: "EventZoneColor" })
        } else {
            Ok(EventZoneColor::spec_read(s, 0))
        }
    }

    /// Appends the record's bytes.
    pub fn encode(&self, out: &mut Vec<u8>)
        ensures
            final(out)@ == old(out)@ + self.spec_bytes(),
    {
        push_u32(out, self.thread_id);
        push_bytes(out, self.color.as_slice());
        push_u64(out, self.padding);
        assert(final(out)@ =~= old(out)@ + self.spec_bytes());
    }

    /// Reads the record whose bytes start at `i`.
    pub fn read(data: &[u8], i: usize) -> (r: EventZoneColor)
        requires
            i + 16 <= data@.len(),
        ensures
            r == EventZoneColor::spec_read(data@, i as int),
    {
        let len = data.len();
        assert(i + 16 <= len);
        let thread_id = get_u32(data, i + 0);
        let color: [u8; 4] = get_array(data, i + 4);
        proof { lemma_array_of(color); }
        let padding = get_u64(data, i + 8);
        EventZoneColor { thread_id, color, padding }
    }

    /// Decodes the record that starts at `pos`.
    pub fn decode(data: &[u8], pos: usize) -> (r: Result<EventZoneColor, DecodeError>)
        ensures
            r == EventZoneColor::spec_parse(tail(data@, pos as int)),
    {
        let len = data.len();
        let ghost s = tail(data@, pos as int);
        if pos > len || len - pos < 16 {
            return Err(DecodeError::UnexpectedEnd { record: "EventZoneColor" });
        }
        let r = EventZoneColor::read(data, pos);
        proof { EventZoneColor::lemma_read_shift(data@, pos as int); }
        Ok(r)
    }

    /// Reading at `pos` is reading at the start of what follows `pos`.
    pub proof fn lemma_read_shift(s: Seq<u8>, pos: int)
        requires
            0 <= pos, pos + 16 <= s.len(),
        ensures
            EventZoneColor::spec_read(s, pos) == EventZoneColor::spec_read(tail(s, pos), 0),
    {
        let t = tail(s, pos);
        assert(s.subrange(pos + 4, pos + 8) =~= t.subrange(4, 8));
    }

    /// Reading back the canonical bytes of a record gives the record.
    pub proof fn lemma_read(v: EventZoneColor, s: Seq<u8>, i: int)
        requires
            0 <= i, i + 16 <= s.len(),
            s.subrange(i, i + 16) == v.spec_bytes(),
        ensures
            EventZoneColor::spec_read(s, i) == v,
    {
        let b = v.spec_bytes();
        assert(b.len() == 16);
        assert(s.subrange(i + 0, i + 4) =~= b.subrange(0, 4));
        assert(b.subrange(0, 4) =~= le_u32(v.thread_id));
        lemma_u32_round_trip(v.thread_id, s, i + 0);
        assert(s.subrange(i + 4, i + 8) =~= b.subrange(4, 8));
        assert(b.subrange(4, 8) =~= v.color@);
        lemma_array_of(v.color);
        assert(s.subrange(i + 8, i + 16) =~= b.subrange(8, 16));
        assert(b.subrange(8, 16) =~= le_u64(v.padding));
        lemma_u64_round_trip(v.padding, s, i + 8);
    }

    /// Decoding the canonical bytes of a record, followed by anything, gives
    /// the record back.
    pub proof fn lemma_round_trip(v: EventZoneColor, rest: Seq<u8>)
        ensures
            EventZoneColor::spec_parse(v.spec_bytes() + rest) == Ok::<EventZoneColor, DecodeError>(v),
    {
        let s = v.spec_bytes() + rest;
        assert(s.subrange(0, 16) =~= v.spec_bytes());
        EventZoneColor::lemma_read(v, s, 0);
    }
}

/// Payload of a frame-mark event.
#[derive(Clone, Copy, Debug, PartialEq, Eq)]
pub struct EventFrameMark {
    pub name: u32,
    pub padding: u32,
    pub timestamp: u64,
}

impl EventFrameMark {
    /// The canonical bytes of the record.
    pub open spec fn spec_bytes(&self) -> Seq<u8> {
        le_u32(self.name)
            + le_u32(self.padding)
            + le_u64(self.timestamp)
    }

    /// The record whose bytes start at `i` of `s`.
    pub open spec fn spec_read(s: Seq<u8>, i: int) -> EventFrameMark {
        EventFrameMark {
            name: u32_at(s, i + 0),
            padding: u32_at(s, i + 4),
            timestamp: u64_at(s, i + 8),
        }
    }

    /// Decodes the record at the start of `s`.
    pub open spec fn spec_parse(s: Seq<u8>) -> Result<EventFrameMark, DecodeError> {
        if s.len() < 16 {
            Err(DecodeError::UnexpectedEnd { record: "EventFrameMark" })
        } else {
            Ok(EventFrameMark::spec_read(s, 0))
        }
    }

    /// Appends the record's bytes.
    pub fn encode(&self, out: &mut Vec<u8>)
        ensures
            final(out)@ == old(out)@ + self.spec_bytes(),
    {
        push_u32(out, self.name);
        push_u32(out, self.padding);
        push_u64(out, self.timestamp);
        assert(final(out)@ =~= old(out)@ + self.spec_bytes());
    }

    /// Reads the record whose bytes start at `i`.
    pub fn read(data: &[u8], i: usize) -> (r: EventFrameMark)
        requires
            i + 16 <= data@.len(),
        ensures
            r == EventFrameMark::spec_read(data@, i as int),
    {
        let len = data.len();
        assert(i + 16 <= len);
        let name = get_u32(data, i + 0);
        let padding = get_u32(data, i + 4);
        let timestamp = get_u64(data, i + 8);
        EventFrameMark { name, padding, timestamp }
    }

    /// Decodes the record that starts at `pos`.
    pub fn decode(data: &[u8], pos: usize) -> (r: Result<EventFrameMark, DecodeError>)
        ensures
            r == EventFrameMark::spec_parse(tail(data@, pos as int)),
    {
        let len = data.len();
        let ghost s = tail(data@, pos as int);
        if pos > len || len - pos < 16 {
            return Err(DecodeError::UnexpectedEnd { record: "EventFrameMark" });
        }
        let r = EventFrameMark::read(data, pos);
        proof { EventFrameMark::lemma_read_shift(data@, pos as int); }
        Ok(r)
    }

    /// Reading at `pos` is reading at the start of what follows `pos`.
    pub proof fn lemma_read_shift(s: Seq<u8>, pos: int)
        requires
            0 <= pos, pos + 16 <= s.len(),
        ensures
            EventFrameMark::spec_read(s, pos) == EventFrameMark::spec_read(tail(s, pos), 0),
    {
        let t = tail(s, pos);
    }

    /// Reading back the canonical bytes of a record gives the record.
    pub proof fn lemma_read(v: EventFrameMark, s: Seq<u8>, i: int)
        requires
            0 <= i, i + 16 <= s.len(),
            s.subrange(i, i + 16) == v.spec_bytes(),
        ensures
            EventFrameMark::spec_read(s, i) == v,
    {
        let b = v.spec_bytes();
        assert(b.len() == 16);
        assert(s.subrange(i + 0, i + 4) =~= b.subrange(0, 4));
        assert(b.subrange(0, 4) =~= le_u32(v.name));
        lemma_u32_round_trip(v.name, s, i + 0);
        assert(s.subrange(i + 4, i + 8) =~= b.subrange(4, 8));
        assert(b.subrange(4, 8) =~= le_u32(v.padding));
        lemma_u32_round_trip(v.padding, s, i + 4);
        assert(s.subrange(i + 8, i + 16) =~= b.subrange(8, 16));
        assert(b.subrange(8, 16) =~= le_u64(v.timestamp));
        lemma_u64_round_trip(v.timestamp, s, i + 8);
    }

    /// Decoding the canonical bytes of a record, followed by anything, gives
    /// the record back.
    pub proof fn lemma_round_trip(v: EventFrameMark, rest: Seq<u8>)
        ensures
            EventFrameMark::spec_parse(v.spec_bytes() + rest) == Ok::<EventFrameMark, DecodeError>(v),
    {
        let s = v.spec_bytes() + rest;
        assert(s.subrange(0, 16) =~= v.spec_bytes());
        EventFrameMark::lemma_read(v, s, 0);
    }
}

/// One decoded event: the kind and its payload in one value.
#[derive(Clone, Copy, Debug, PartialEq, Eq)]
pub enum Event {
    Begin(EventZoneBegin),
    End(EventZoneEnd),
    Color(EventZoneColor),
    Mark(EventFrameMark),
}

impl Event {
    pub open spec fn spec_event_type(&self) -> EventType {
        match self {
            Event::Begin(_) => EventType::Begin,
            Event::End(_) => EventType::End,
            Event::Color(_) => EventType::Color,
            Event::Mark(_) => EventType::Mark,
        }
    }

    pub fn event_type(&self) -> (r: EventType)
        ensures
            r == self.spec_event_type(),
    {
        match self {
            Event::Begin(_) => EventType::Begin,
            Event::End(_) => EventType::End,
            Event::Color(_) => EventType::Color,
            Event::Mark(_) => EventType::Mark,
        }
    }

    /// The 16 payload bytes.
    pub open spec fn spec_bytes(&self) -> Seq<u8> {
        match self {
            Event::Begin(e) => e.spec_bytes(),
            Event::End(e) => e.spec_bytes(),
            Event::Color(e) => e.spec_bytes(),
            Event::Mark(e) => e.spec_bytes(),
        }
    }

    /// The payload of kind `t` whose bytes start at `i`.
    pub open spec fn spec_read(t: EventType, s: Seq<u8>, i: int) -> Event {
        match t {
            EventType::Begin => Event::Begin(EventZoneBegin::spec_read(s, i)),
            EventType::End => Event::End(EventZoneEnd::spec_read(s, i)),
            EventType::Color => Event::Color(EventZoneColor::spec_read(s, i)),
            EventType::Mark => Event::Mark(EventFrameMark::spec_read(s, i)),
        }
    }
}

/// An event record of the capture file: a kind byte, seven bytes of padding
/// and a 16-byte payload whose layout the kind selects.
#[derive(Clone, Copy, Debug, PartialEq, Eq)]
pub struct UTracyEvent {
    pub padding: [u8; 7],
    pub event: Event,
}

/// The size of an event record in the capture file.
pub const EVENT_SIZE: usize = 24;

impl UTracyEvent {
    pub open spec fn spec_bytes(&self) -> Seq<u8> {
        seq![self.event.spec_event_type().spec_code()] + self.padding@ + self.event.spec_bytes()
    }

    pub open spec fn spec_parse(s: Seq<u8>) -> Result<UTracyEvent, DecodeError> {
        if s.len() < 1 {
            Err(DecodeError::UnexpectedEnd { record: "UTracyEvent" })
        } else {
            match EventType::spec_from_code(s[0]) {
                None => Err(DecodeError::UnexpectedVariant { record: "EventType", found: s[0] as u32 }),
                Some(t) => if s.len() < 24 {
                    Err(DecodeError::UnexpectedEnd { record: "UTracyEvent" })
                } else {
                    Ok(
                        UTracyEvent {
                            padding: array_of::<7>(s.subrange(1, 8)),
                            event: Event::spec_read(t, s, 8),
                        },
                    )
                },
            }
        }
    }

    pub fn event_type(&self) -> (r: EventType)
        ensures
            r == self.event.spec_event_type(),
    {
        self.event.event_type()
    }

    pub fn encode(&self, out: &mut Vec<u8>)
        ensures
            final(out)@ == old(out)@ + self.spec_bytes(),
    {
        push_u8(out, self.event.event_type().to_u8());
        push_bytes(out, self.padding.as_slice());
        match &self.event {
            Event::Begin(e) => e.encode(out),
            Event::End(e) => e.encode(out),
            Event::Color(e) => e.encode(out),
            Event::Mark(e) => e.encode(out),
        }
        assert(final(out)@ =~= old(out)@ + self.spec_bytes());
    }

    /// Decodes the event record that starts at `pos`: first the kind, then
    /// only the payload that the kind selects.
    pub fn decode(data: &[u8], pos: usize) -> (r: Result<UTracyEvent, DecodeError>)
        ensures
            r == UTracyEvent::spec_parse(tail(data@, pos as int)),
    {
        let len = data.len();
        let ghost s = tail(data@, pos as int);
        if pos >= len {
            return Err(DecodeError::UnexpectedEnd { record: "UTracyEvent" });
        }
        let code = data[pos];
        assert(code == s[0]);
        match EventType::from_u8(code) {
            None => Err(DecodeError::UnexpectedVariant { record: "EventType", found: code as u32 }),
            Some(t) => {
                if len - pos < 24 {
                    return Err(DecodeError::UnexpectedEnd { record: "UTracyEvent" });
                }
                let padding: [u8; 7] = get_array(data, pos + 1);
                proof {
                    assert(data@.subrange(pos + 1, pos + 8) =~= s.subrange(1, 8));
                    lemma_array_of(padding);
                }
                let event = match t {
                    EventType::Begin => {
                        proof { EventZoneBegin::lemma_read_shift(data@, pos + 8); }
                        Event::Begin(EventZoneBegin::read(data, pos + 8))
                    },
                    EventType::End => {
                        proof { EventZoneEnd::lemma_read_shift(data@, pos + 8); }
                        Event::End(EventZoneEnd::read(data, pos + 8))
                    },
                    EventType::Color => {
                        proof { EventZoneColor::lemma_read_shift(data@, pos + 8); }
                        Event::Color(EventZoneColor::read(data, pos + 8))
                    },
                    EventType::Mark => {
                        proof { EventFrameMark::lemma_read_shift(data@, pos + 8); }
                        Event::Mark(EventFrameMark::read(data, pos + 8))
                    },
                };
                assert(tail(data@, pos + 8) =~= tail(s, 8));
                proof {
                    match t {
                        EventType::Begin => EventZoneBegin::lemma_read_shift(s, 8),
                        EventType::End => EventZoneEnd::lemma_read_shift(s, 8),
                        EventType::Color => EventZoneColor::lemma_read_shift(s, 8),
                        EventType::Mark => EventFrameMark::lemma_read_shift(s, 8),
                    }
                }
                Ok(UTracyEvent { padding, event })
            },
        }
    }

    /// Decoding the canonical bytes of an event record, followed by anything,
    /// gives the record back.
    pub proof fn lemma_round_trip(v: UTracyEvent, rest: Seq<u8>)
        ensures
            UTracyEvent::spec_parse(v.spec_bytes() + rest) == Ok::<UTracyEvent, DecodeError>(v),
    {
        let s = v.spec_bytes() + rest;
        let t = v.event.spec_event_type();
        EventType::lemma_code_round_trip(t);
        assert(s[0] == t.spec_code());
        assert(s.subrange(1, 8) =~= v.padding@);
        lemma_array_of(v.padding);
        assert(s.subrange(8, 24) =~= v.event.spec_bytes());
        match v.event {
            Event::Begin(e) => EventZoneBegin::lemma_read(e, s, 8),
            Event::End(e) => EventZoneEnd::lemma_read(e, s, 8),
            Event::Color(e) => EventZoneColor::lemma_read(e, s, 8),
            Event::Mark(e) => EventFrameMark::lemma_read(e, s, 8),
        }
    }
}

/// A source location as the capture file stores it: three length-prefixed
/// strings, a line number and a 4-byte color.
#[derive(Debug)]
pub struct UTracySourceLocation {
    pub name: U32SizeString,
    pub function: U32SizeString,
    pub file: U32SizeString,
    pub line: u32,
    pub color: [u8; 4],
}

impl View for UTracySourceLocation {
    type V = (Seq<u8>, Seq<u8>, Seq<u8>, u32, [u8; 4]);

    open spec fn view(&self) -> Self::V {
        (self.name.0@, self.function.0@, self.file.0@, self.line, self.color)
    }
}

impl UTracySourceLocation {
    /// Decodes a location record at the start of `s`: name, function and file
    /// strings, then the line and the color. Gives the record's view and the
    /// number of bytes it took.
    pub open spec fn spec_parse(s: Seq<u8>) -> Result<
        ((Seq<u8>, Seq<u8>, Seq<u8>, u32, [u8; 4]), nat),
        DecodeError,
    > {
        match U32SizeString::spec_parse(s) {
            Err(e) => Err(e),
            Ok((name, a)) => match U32SizeString::spec_parse(tail(s, a as int)) {
                Err(e) => Err(e),
                Ok((function, b)) => match U32SizeString::spec_parse(tail(s, (a + b) as int)) {
                    Err(e) => Err(e),
                    Ok((file, c)) => {
                        let p: int = (a + b + c) as int;
                        if s.len() < p + 8 {
                            Err(DecodeError::UnexpectedEnd { record: "UTracySourceLocation" })
                        } else {
                            Ok(
                                (
                                    (
                                        name,
                                        function,
                                        file,
                                        u32_at(s, p),
                                        array_of::<4>(s.subrange(p + 4, p + 8)),
                                    ),
                                    (p + 8) as nat,
                                ),
                            )
                        }
                    },
                },
            },
        }
    }

    /// Decodes the location record that starts at `pos`, giving it and the
    /// position just past it.
    pub fn decode(data: &[u8], pos: usize) -> (r: Result<(UTracySourceLocation, usize), DecodeError>)
        ensures
            match (r, UTracySourceLocation::spec_parse(tail(data@, pos as int))) {
                (Ok((v, p)), Ok((w, n))) => v@ == w && p == pos + n,
                (Err(e), Err(f)) => e == f,
                _ => false,
            },
    {
        let len = data.len();
        let ghost s = tail(data@, pos as int);
        let (name, p1) = match U32SizeString::decode(data, pos) {
            Err(e) => return Err(e),
            Ok(x) => x,
        };
        assert(tail(data@, p1 as int) =~= tail(s, p1 - pos));
        let (function, p2) = match U32SizeString::decode(data, p1) {
            Err(e) => return Err(e),
            Ok(x) => x,
        };
        assert(tail(data@, p2 as int) =~= tail(s, p2 - pos));
        let (file, p3) = match U32SizeString::decode(data, p2) {
            Err(e) => return Err(e),
            Ok(x) => x,
        };
        if p3 > len || len - p3 < 8 {
            return Err(DecodeError::UnexpectedEnd { record: "UTracySourceLocation" });
        }
        let line = get_u32(data, p3);
        let color: [u8; 4] = get_array(data, p3 + 4);
        proof {
            assert(data@.subrange(p3 + 4, p3 + 8) =~= s.subrange(p3 + 4 - pos, p3 + 8 - pos));
            lemma_array_of(color);
        }
        Ok((UTracySourceLocation { name, function, file, line, color }, p3 + 8))
    }
}

} // verus!
