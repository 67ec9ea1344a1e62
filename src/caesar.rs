use vstd::prelude::*;
use crate::raf::{Raf, RafError, fits, le_u16, le_u32, le_i16, le_i32, byte_i8, zero_index, cstr_bytes, utf8_lossy};

verus! {

/// Why a container, or a field of one, could not be decoded.
#[derive(Debug, Clone, Copy, PartialEq, Eq, Structural)]
pub enum CaesarError {
    /// The stub header is missing, short, or refused by the signature check.
    FormatSignatureError,
    /// The feature header's version is below the oldest one supported.
    UnsupportedVersionError,
    /// The feature header points at no language table.
    MissingLanguageTableError,
    /// A read ran past the end of the file, or to a position that cannot exist.
    TruncatedReadError,
}

/// Whether the lowest bit of a presence mask is set.
pub open spec fn bit_set(m: u64) -> bool {
    m % 2 == 1
}

/// The absolute position `base + off`.
pub open spec fn abs_target(base: i64, off: i32) -> int {
    base + off
}

/// `base + off` as a position, or nothing when the sum is negative or past `len`.
fn abs_position(base: i64, off: i32, len: usize) -> (r: Option<usize>)
    ensures
        0 <= abs_target(base, off) <= len ==> r == Some(abs_target(base, off) as usize),
        !(0 <= abs_target(base, off) <= len) ==> r is None,
{
    let t: i128 = base as i128 + off as i128;
    if 0 <= t && t <= len as i128 {
        Some(t as usize)
    } else {
        None
    }
}

/// The mask left after `k` bits have been taken from `m`, one at a time.
pub open spec fn mask_after(m: u64, k: nat) -> u64
    decreases k,
{
    if k == 0 {
        m
    } else {
        mask_after(m, (k - 1) as nat) / 2
    }
}

proof fn lemma_mask_after_shift(m: u64, k: u64)
    requires
        k < 64,
    ensures
        mask_after(m, k as nat) == m >> k,
    decreases k,
{
    if k == 0 {
        assert(m >> 0u64 == m) by (bit_vector);
    } else {
        let j: u64 = (k - 1) as u64;
        lemma_mask_after_shift(m, j);
        assert((m >> j) / 2 == m >> k) by (bit_vector)
            requires
                j < 63,
                k == j + 1,
        ;
    }
}

/// Taking the bits of a mask one at a time yields, for the `k`-th take, bit `k` of the
/// starting mask, counted from the lowest; after 64 takes the mask is zero.
pub proof fn lemma_bitflag_sequence(m: u64)
    ensures
        forall|k: u64|
            k < 64 ==> (bit_set(#[trigger] mask_after(m, k as nat)) <==> (m >> k) & 1 == 1),
        mask_after(m, 64) == 0,
{
    assert forall|k: u64| k < 64 implies (bit_set(#[trigger] mask_after(m, k as nat)) <==> (m
        >> k) & 1 == 1) by {
        lemma_mask_after_shift(m, k);
        let x: u64 = m >> k;
        assert(x % 2 == 1 <==> x & 1 == 1) by (bit_vector);
    }
    lemma_mask_after_shift(m, 63);
    assert((m >> 63u64) / 2 == 0) by (bit_vector);
}

/// Decoders for optional fields gated by a presence mask, one mask bit per field.
pub struct CReader {}

impl CReader {
    /// Takes the lowest bit of the mask and shifts the mask one bit to the right.
    pub fn check_and_advance_bitflag(bitflag: &mut u64) -> (r: bool)
        ensures
            r == bit_set(*old(bitflag)),
            *final(bitflag) == *old(bitflag) / 2,
    {
        let v: u64 = *bitflag;
        let is_set = (v & 1) > 0;
        assert((v & 1) > 0 <==> v % 2 == 1) by (bit_vector);
        assert(v >> 1 == v / 2) by (bit_vector);
        *bitflag = v >> 1;
        is_set
    }

    /// Takes one mask bit; when it is set, reads a `i8` at the cursor, else returns `default`.
    pub fn read_bitflag_i8(bitflag: &mut u64, reader: &mut Raf, default: i8) -> (r: Result<
        i8,
        CaesarError,
    >)
        ensures
            *final(bitflag) == *old(bitflag) / 2,
            final(reader).data@ == old(reader).data@,
            !bit_set(*old(bitflag)) ==> r == Ok::<i8, CaesarError>(default) && final(reader).pos
                == old(reader).pos,
            bit_set(*old(bitflag)) && fits(old(reader).data@, old(reader).pos as int, 1) ==> r is Ok
                && r->Ok_0 == byte_i8(old(reader).data@, old(reader).pos as int) && final(reader).pos == old(reader).pos + 1,
            bit_set(*old(bitflag)) && !fits(old(reader).data@, old(reader).pos as int, 1) ==> r
                == Err::<i8, CaesarError>(CaesarError::TruncatedReadError) && final(reader).pos
                == old(reader).pos,
    {
        if Self::check_and_advance_bitflag(bitflag) {
            match reader.read_i8() {
                Ok(v) => Ok(v),
                Err(_) => Err(CaesarError::TruncatedReadError),
            }
        } else {
            Ok(default)
        }
    }

    /// Takes one mask bit; when it is set, reads a `u8` at the cursor, else returns `default`.
    pub fn read_bitflag_u8(bitflag: &mut u64, reader: &mut Raf, default: u8) -> (r: Result<
        u8,
        CaesarError,
    >)
        ensures
            *final(bitflag) == *old(bitflag) / 2,
            final(reader).data@ == old(reader).data@,
            !bit_set(*old(bitflag)) ==> r == Ok::<u8, CaesarError>(default) && final(reader).pos
                == old(reader).pos,
            bit_set(*old(bitflag)) && fits(old(reader).data@, old(reader).pos as int, 1) ==> r is Ok
                && r->Ok_0 == old(reader).data@[old(reader).pos as int] && final(reader).pos == old(reader).pos + 1,
            bit_set(*old(bitflag)) && !fits(old(reader).data@, old(reader).pos as int, 1) ==> r
                == Err::<u8, CaesarError>(CaesarError::TruncatedReadError) && final(reader).pos
                == old(reader).pos,
    {
        if Self::check_and_advance_bitflag(bitflag) {
            match reader.read_u8() {
                Ok(v) => Ok(v),
                Err(_) => Err(CaesarError::TruncatedReadError),
            }
        } else {
            Ok(default)
        }
    }

    /// Takes one mask bit; when it is set, reads a `i16` at the cursor, else returns `default`.
    pub fn read_bitflag_i16(bitflag: &mut u64, reader: &mut Raf, default: i16) -> (r: Result<
        i16,
        CaesarError,
    >)
        ensures
            *final(bitflag) == *old(bitflag) / 2,
            final(reader).data@ == old(reader).data@,
            !bit_set(*old(bitflag)) ==> r == Ok::<i16, CaesarError>(default) && final(reader).pos
                == old(reader).pos,
            bit_set(*old(bitflag)) && fits(old(reader).data@, old(reader).pos as int, 2) ==> r is Ok
                && r->Ok_0 == le_i16(old(reader).data@, old(reader).pos as int) && final(reader).pos == old(reader).pos + 2,
            bit_set(*old(bitflag)) && !fits(old(reader).data@, old(reader).pos as int, 2) ==> r
                == Err::<i16, CaesarError>(CaesarError::TruncatedReadError) && final(reader).pos
                == old(reader).pos,
    {
        if Self::check_and_advance_bitflag(bitflag) {
            match reader.read_i16() {
                Ok(v) => Ok(v),
                Err(_) => Err(CaesarError::TruncatedReadError),
            }
        } else {
            Ok(default)
        }
    }

    /// Takes one mask bit; when it is set, reads a `u16` at the cursor, else returns `default`.
    pub fn read_bitflag_u16(bitflag: &mut u64, reader: &mut Raf, default: u16) -> (r: Result<
        u16,
        CaesarError,
    >)
        ensures
            *final(bitflag) == *old(bitflag) / 2,
            final(reader).data@ == old(reader).data@,
            !bit_set(*old(bitflag)) ==> r == Ok::<u16, CaesarError>(default) && final(reader).pos
                == old(reader).pos,
            bit_set(*old(bitflag)) && fits(old(reader).data@, old(reader).pos as int, 2) ==> r is Ok
                && r->Ok_0 == le_u16(old(reader).data@, old(reader).pos as int) && final(reader).pos == old(reader).pos + 2,
            bit_set(*old(bitflag)) && !fits(old(reader).data@, old(reader).pos as int, 2) ==> r
                == Err::<u16, CaesarError>(CaesarError::TruncatedReadError) && final(reader).pos
                == old(reader).pos,
    {
        if Self::check_and_advance_bitflag(bitflag) {
            match reader.read_u16() {
                Ok(v) => Ok(v),
                Err(_) => Err(CaesarError::TruncatedReadError),
            }
        } else {
            Ok(default)
        }
    }

    /// Takes one mask bit; when it is set, reads a `i32` at the cursor, else returns `default`.
    pub fn read_bitflag_i32(bitflag: &mut u64, reader: &mut Raf, default: i32) -> (r: Result<
        i32,
        CaesarError,
    >)
        ensures
            *final(bitflag) == *old(bitflag) / 2,
            final(reader).data@ == old(reader).data@,
            !bit_set(*old(bitflag)) ==> r == Ok::<i32, CaesarError>(default) && final(reader).pos
                == old(reader).pos,
            bit_set(*old(bitflag)) && fits(old(reader).data@, old(reader).pos as int, 4) ==> r is Ok
                && r->Ok_0 == le_i32(old(reader).data@, old(reader).pos as int) && final(reader).pos == old(reader).pos + 4,
            bit_set(*old(bitflag)) && !fits(old(reader).data@, old(reader).pos as int, 4) ==> r
                == Err::<i32, CaesarError>(CaesarError::TruncatedReadError) && final(reader).pos
                == old(reader).pos,
    {
        if Self::check_and_advance_bitflag(bitflag) {
            match reader.read_i32() {
                Ok(v) => Ok(v),
                Err(_) => Err(CaesarError::TruncatedReadError),
            }
        } else {
            Ok(default)
        }
    }

    /// Takes one mask bit; when it is set, reads a `u32` at the cursor, else returns `default`.
    pub fn read_bitflag_u32(bitflag: &mut u64, reader: &mut Raf, default: u32) -> (r: Result<
        u32,
        CaesarError,
    >)
        ensures
            *final(bitflag) == *old(bitflag) / 2,
            final(reader).data@ == old(reader).data@,
            !bit_set(*old(bitflag)) ==> r == Ok::<u32, CaesarError>(default) && final(reader).pos
                == old(reader).pos,
            bit_set(*old(bitflag)) && fits(old(reader).data@, old(reader).pos as int, 4) ==> r is Ok
                && r->Ok_0 == le_u32(old(reader).data@, old(reader).pos as int) && final(reader).pos == old(reader).pos + 4,
            bit_set(*old(bitflag)) && !fits(old(reader).data@, old(reader).pos as int, 4) ==> r
                == Err::<u32, CaesarError>(CaesarError::TruncatedReadError) && final(reader).pos
                == old(reader).pos,
    {
        if Self::check_and_advance_bitflag(bitflag) {
            match reader.read_u32() {
                Ok(v) => Ok(v),
                Err(_) => Err(CaesarError::TruncatedReadError),
            }
        } else {
            Ok(default)
        }
    }

    /// Reads a zero-terminated string at the cursor.
    pub fn read_string(reader: &mut Raf) -> (r: Result<String, CaesarError>)
        ensures
            final(reader).data@ == old(reader).data@,
            zero_index(old(reader).data@, old(reader).pos as int) >= 0 ==> r is Ok && r->Ok_0@
                == utf8_lossy(cstr_bytes(old(reader).data@, old(reader).pos as int))
                && final(reader).pos == zero_index(old(reader).data@, old(reader).pos as int) + 1,
            zero_index(old(reader).data@, old(reader).pos as int) < 0 ==> r == Err::<
                String,
                CaesarError,
            >(CaesarError::TruncatedReadError) && final(reader).pos == old(reader).pos,
    {
        match reader.read_cstr() {
            Ok(s) => Ok(s),
            Err(_) => Err(CaesarError::TruncatedReadError),
        }
    }

    /// Reads `size` bytes at the cursor.
    fn read_array(reader: &mut Raf, size: usize) -> (r: Result<Vec<u8>, RafError>)
        ensures
            final(reader).data@ == old(reader).data@,
            fits(old(reader).data@, old(reader).pos as int, size as int) ==> r is Ok && r->Ok_0@
                == old(reader).data@.subrange(old(reader).pos as int, old(reader).pos + size)
                && final(reader).pos == old(reader).pos + size,
            !fits(old(reader).data@, old(reader).pos as int, size as int) ==> r is Err
                && final(reader).pos == old(reader).pos,
    {
        reader.read_bytes(size)
    }

    /// Takes one mask bit; when it is set, reads a 4-byte offset at the cursor and the
    /// zero-terminated string at `virtual_base + offset`, then puts the cursor back right
    /// after the offset.
    pub fn read_bitflag_string(bitflag: &mut u64, reader: &mut Raf, virtual_base: i64) -> (r:
        Result<Option<String>, CaesarError>)
        ensures
            *final(bitflag) == *old(bitflag) / 2,
            final(reader).data@ == old(reader).data@,
            !bit_set(*old(bitflag)) ==> r == Ok::<Option<String>, CaesarError>(None)
                && final(reader).pos == old(reader).pos,
            bit_set(*old(bitflag)) && !fits(old(reader).data@, old(reader).pos as int, 4) ==> r
                == Err::<Option<String>, CaesarError>(CaesarError::TruncatedReadError)
                && final(reader).pos == old(reader).pos,
            bit_set(*old(bitflag)) && fits(old(reader).data@, old(reader).pos as int, 4) ==> ({
                let d = old(reader).data@;
                let t = virtual_base + le_i32(d, old(reader).pos as int);
                &&& final(reader).pos == old(reader).pos + 4
                &&& zero_index(d, t) >= 0 ==> r is Ok && r->Ok_0 is Some && r->Ok_0->Some_0@
                    == utf8_lossy(cstr_bytes(d, t))
                &&& zero_index(d, t) < 0 ==> r == Err::<Option<String>, CaesarError>(
                    CaesarError::TruncatedReadError,
                )
            }),
    {
        if Self::check_and_advance_bitflag(bitflag) {
            let off = match reader.read_i32() {
                Ok(v) => v,
                Err(_) => {
                    return Err(CaesarError::TruncatedReadError);
                },
            };
            let pos = reader.pos;
            let res = match abs_position(virtual_base, off, reader.data.len()) {
                Some(t) => {
                    reader.seek(t);
                    let s = Self::read_string(reader);
                    reader.seek(pos);
                    s
                },
                None => Err(CaesarError::TruncatedReadError),
            };
            match res {
                Ok(s) => Ok(Some(s)),
                Err(e) => Err(e),
            }
        } else {
            Ok(None)
        }
    }

    /// Takes one mask bit; when it is set, reads a 4-byte offset at the cursor and the
    /// `dump_size` bytes at `virtual_base + offset`, then puts the cursor back right after
    /// the offset. Data that does not lie inside the file gives nothing rather than an error.
    pub fn read_bitflag_dump(
        bitflag: &mut u64,
        reader: &mut Raf,
        dump_size: i32,
        virtual_base: i64,
    ) -> (r: Result<Option<Vec<u8>>, CaesarError>)
        ensures
            *final(bitflag) == *old(bitflag) / 2,
            final(reader).data@ == old(reader).data@,
            !bit_set(*old(bitflag)) ==> r is Ok && r->Ok_0 is None && final(reader).pos == old(
                reader,
            ).pos,
            bit_set(*old(bitflag)) && !fits(old(reader).data@, old(reader).pos as int, 4) ==> r
                is Err && r->Err_0 == CaesarError::TruncatedReadError && final(reader).pos == old(
                reader,
            ).pos,
            bit_set(*old(bitflag)) && fits(old(reader).data@, old(reader).pos as int, 4) ==> ({
                let d = old(reader).data@;
                let t = virtual_base + le_i32(d, old(reader).pos as int);
                &&& final(reader).pos == old(reader).pos + 4
                &&& r is Ok
                &&& 0 <= dump_size && fits(d, t, dump_size as int) ==> r->Ok_0 is Some
                    && r->Ok_0->Some_0@ == d.subrange(t, t + dump_size)
                &&& !(0 <= dump_size && fits(d, t, dump_size as int)) ==> r->Ok_0 is None
            }),
    {
        if Self::check_and_advance_bitflag(bitflag) {
            let off = match reader.read_i32() {
                Ok(v) => v,
                Err(_) => {
                    return Err(CaesarError::TruncatedReadError);
                },
            };
            let pos = reader.pos;
            if dump_size < 0 {
                return Ok(None);
            }
            let res = match abs_position(virtual_base, off, reader.data.len()) {
                Some(t) => {
                    reader.seek(t);
                    let a = Self::read_array(reader, dump_size as usize);
                    reader.seek(pos);
                    a
                },
                None => Err(RafError::ReadOutOfBounds),
            };
            match res {
                Ok(v) => Ok(Some(v)),
                Err(_) => Ok(None),
            }
        } else {
            Ok(None)
        }
    }
}

/// Size in bytes of the stub header at the start of every container file.
pub const STUB_HEADER_SIZE: usize = 0x410;

/// Oldest feature header version that can be decoded.
pub const MIN_CAESAR_VERSION: i32 = 400;

/// The fields of the feature header that the loader works from.
#[derive(Debug, Clone, Copy, PartialEq, Eq, Structural)]
pub struct CFFHeader {
    /// Anchor that the header's own offsets are relative to.
    pub base_address: i64,
    pub caser_version: i32,
    /// Offset of the language table from `base_address`; zero when there is none.
    pub ctf_offset: i32,
    /// Offset of the ECU offset table from `base_address`.
    pub ecu_offsets: i32,
    pub ecu_count: i32,
}

/// The language table header: the language entries that ECU records are decoded with.
#[derive(Debug, Clone)]
pub struct CTFHeader<L> {
    pub ctf_langs: Vec<L>,
}

/// The parts of the format whose layout lies outside the container walk: the stub
/// signature, the feature header, the language table and the ECU records.
pub trait CaesarDecoder {
    type Lang;

    type Ecu;

    /// Whether the stub header carries a signature that this decoder accepts.
    fn validate_stub(&mut self, stub: &Vec<u8>) -> bool;

    /// Decodes the feature header at the cursor.
    fn read_cff_header(&mut self, reader: &mut Raf) -> Result<CFFHeader, CaesarError>;

    /// Decodes the language table header at the absolute position `offset`.
    fn read_ctf_header(&mut self, reader: &mut Raf, offset: i64, header: &CFFHeader) -> Result<
        CTFHeader<Self::Lang>,
        CaesarError,
    >;

    /// Decodes the ECU record at the absolute position `offset`.
    fn read_ecu(
        &mut self,
        reader: &mut Raf,
        lang: &Self::Lang,
        header: &CFFHeader,
        offset: i64,
    ) -> Result<Self::Ecu, CaesarError>;
}

/// A decoded container: its two headers and its ECU records in table order.
#[derive(Debug, Clone)]
pub struct CContainer<L, E> {
    pub cff_header: CFFHeader,
    pub ctf_header: CTFHeader<L>,
    pub ecus: Vec<E>,
}

/// Absolute position of the ECU offset table.
pub open spec fn ecu_table_base(h: CFFHeader) -> int {
    h.base_address + h.ecu_offsets
}

/// Number of entries that the ECU offset table is walked for.
pub open spec fn ecu_entries(h: CFFHeader) -> int {
    if h.ecu_count > 0 {
        h.ecu_count as int
    } else {
        0
    }
}

/// Absolute position of ECU record `i`: the table base plus the table's `i`-th offset.
pub open spec fn ecu_address(d: Seq<u8>, h: CFFHeader, i: int) -> int {
    ecu_table_base(h) + le_i32(d, ecu_table_base(h) + 4 * i)
}

/// Whether every entry of the ECU offset table lies in the file and gives an `i64` position.
pub open spec fn ecu_table_readable(d: Seq<u8>, h: CFFHeader) -> bool {
    ecu_entries(h) == 0 || {
        &&& fits(d, ecu_table_base(h), 4 * ecu_entries(h))
        &&& forall|i: int|
            0 <= i < ecu_entries(h) ==> i64::MIN <= #[trigger] ecu_address(d, h, i) <= i64::MAX
    }
}

/// Absolute position of the language table header.
pub open spec fn ctf_target(h: CFFHeader) -> int {
    h.base_address + h.ctf_offset
}

impl<L, E> CContainer<L, E> {
    /// Accepts a feature header whose version is at least the oldest supported one.
    pub fn check_version(header: &CFFHeader) -> (r: Result<(), CaesarError>)
        ensures
            header.caser_version >= MIN_CAESAR_VERSION <==> r is Ok,
            header.caser_version < MIN_CAESAR_VERSION ==> r == Err::<(), CaesarError>(
                CaesarError::UnsupportedVersionError,
            ),
    {
        if header.caser_version < MIN_CAESAR_VERSION {
            Err(CaesarError::UnsupportedVersionError)
        } else {
            Ok(())
        }
    }

    /// Absolute position of the language table header, which must exist.
    pub fn ctf_address(header: &CFFHeader) -> (r: Result<i64, CaesarError>)
        ensures
            header.ctf_offset == 0 ==> r == Err::<i64, CaesarError>(
                CaesarError::MissingLanguageTableError,
            ),
            header.ctf_offset != 0 && i64::MIN <= ctf_target(*header) <= i64::MAX ==> r == Ok::<
                i64,
                CaesarError,
            >(ctf_target(*header) as i64),
            header.ctf_offset != 0 && !(i64::MIN <= ctf_target(*header) <= i64::MAX) ==> r
                == Err::<i64, CaesarError>(CaesarError::TruncatedReadError),
    {
        if header.ctf_offset == 0 {
            return Err(CaesarError::MissingLanguageTableError);
        }
        let t: i128 = header.base_address as i128 + header.ctf_offset as i128;
        if t < i64::MIN as i128 || t > i64::MAX as i128 {
            Err(CaesarError::TruncatedReadError)
        } else {
            Ok(t as i64)
        }
    }

    /// Walks the ECU offset table and gives the absolute position of each record, in
    /// table order.
    pub fn ecu_addresses(header: &CFFHeader, reader: &mut Raf) -> (r: Result<Vec<i64>, CaesarError>)
        ensures
            final(reader).data@ == old(reader).data@,
            r is Ok <==> ecu_table_readable(old(reader).data@, *header),
            r is Err ==> r->Err_0 == CaesarError::TruncatedReadError,
            r is Ok ==> r->Ok_0@.len() == ecu_entries(*header) && forall|i: int|
                0 <= i < ecu_entries(*header) ==> r->Ok_0@[i] == ecu_address(
                    old(reader).data@,
                    *header,
                    i,
                ),
    {
        let ghost d = reader.data@;
        let mut out: Vec<i64> = Vec::new();
        if header.ecu_count <= 0 {
            return Ok(out);
        }
        let count: i32 = header.ecu_count;
        let base: i128 = header.base_address as i128 + header.ecu_offsets as i128;
        let len: usize = reader.data.len();
        if base < 0 || base > len as i128 || (len as i128) - base < 4 * (count as i128) {
            return Err(CaesarError::TruncatedReadError);
        }
        let mut i: i32 = 0;
        while i < count
            invariant
                reader.data@ == d,
                d == old(reader).data@,
                len == d.len(),
                count == header.ecu_count,
                count == ecu_entries(*header),
                base == ecu_table_base(*header),
                fits(d, base as int, 4 * count),
                0 <= i <= count,
                out@.len() == i,
                forall|k: int| 0 <= k < i ==> out@[k] == ecu_address(d, *header, k),
                forall|k: int|
                    0 <= k < i ==> i64::MIN <= #[trigger] ecu_address(d, *header, k) <= i64::MAX,
            decreases count - i,
        {
            let at: usize = (base + 4 * (i as i128)) as usize;
            assert(fits(d, at as int, 4));
            reader.seek(at);
            let off = match reader.read_i32() {
                Ok(v) => v,
                Err(_) => {
                    return Err(CaesarError::TruncatedReadError);
                },
            };
            let a: i128 = base + off as i128;
            if a < i64::MIN as i128 || a > i64::MAX as i128 {
                assert(ecu_address(d, *header, i as int) == a);
                return Err(CaesarError::TruncatedReadError);
            }
            out.push(a as i64);
            i = i + 1;
        }
        Ok(out)
    }

    /// Decodes the feature header at the cursor and accepts it only at a supported version.
    fn read_cff<D: CaesarDecoder>(decoder: &mut D, reader: &mut Raf) -> (r: Result<
        CFFHeader,
        CaesarError,
    >)
        ensures
            r is Ok ==> r->Ok_0.caser_version >= MIN_CAESAR_VERSION,
    {
        let cff_header = decoder.read_cff_header(reader)?;
        Self::check_version(&cff_header)?;
        Ok(cff_header)
    }

    /// Accepts a language table header that holds at least one language. An empty list is
    /// refused as a missing language table: records cannot be decoded without a language.
    pub fn check_languages(h: CTFHeader<L>) -> (r: Result<CTFHeader<L>, CaesarError>)
        ensures
            h.ctf_langs@.len() == 0 ==> r is Err && r->Err_0
                == CaesarError::MissingLanguageTableError,
            h.ctf_langs@.len() > 0 ==> r is Ok && r->Ok_0.ctf_langs@ == h.ctf_langs@,
    {
        if h.ctf_langs.len() == 0 {
            Err(CaesarError::MissingLanguageTableError)
        } else {
            Ok(h)
        }
    }

    /// Decodes the language table header that the feature header points at; it must
    /// hold at least one language.
    fn read_ctf<D: CaesarDecoder<Lang = L>>(
        header: &CFFHeader,
        decoder: &mut D,
        reader: &mut Raf,
    ) -> (r: Result<CTFHeader<L>, CaesarError>)
        ensures
            header.ctf_offset == 0 ==> r is Err && r->Err_0
                == CaesarError::MissingLanguageTableError && *final(reader) == *old(reader)
                && *final(decoder) == *old(decoder),
            header.ctf_offset != 0 && !(i64::MIN <= ctf_target(*header) <= i64::MAX) ==> r is Err
                && r->Err_0 == CaesarError::TruncatedReadError && *final(reader) == *old(reader)
                && *final(decoder) == *old(decoder),
            r is Ok ==> r->Ok_0.ctf_langs@.len() > 0,
    {
        let ctfoffset = match Self::ctf_address(header) {
            Ok(o) => o,
            Err(e) => {
                return Err(e);
            },
        };
        let res = decoder.read_ctf_header(reader, ctfoffset, header)?;
        Self::check_languages(res)
    }

    /// Decodes the ECU records that the offset table lists, in table order, and appends
    /// them to the container.
    fn read_ecu<D: CaesarDecoder<Lang = L, Ecu = E>>(&mut self, decoder: &mut D, reader: &mut Raf) -> (r:
        Result<(), CaesarError>)
        requires
            old(self).ctf_header.ctf_langs@.len() > 0,
        ensures
            final(self).cff_header == old(self).cff_header,
            final(self).ctf_header.ctf_langs@ == old(self).ctf_header.ctf_langs@,
            final(self).ecus@.len() >= old(self).ecus@.len(),
            final(self).ecus@.subrange(0, old(self).ecus@.len() as int) == old(self).ecus@,
            ecu_entries(old(self).cff_header) == 0 ==> r is Ok && final(self).ecus@ == old(
                self,
            ).ecus@,
            !ecu_table_readable(old(reader).data@, old(self).cff_header) ==> r == Err::<
                (),
                CaesarError,
            >(CaesarError::TruncatedReadError),
            r is Ok ==> final(self).ecus@.len() == old(self).ecus@.len() + ecu_entries(
                old(self).cff_header,
            ),
    {
        let addresses = match Self::ecu_addresses(&self.cff_header, reader) {
            Ok(a) => a,
            Err(e) => {
                return Err(e);
            },
        };
        let mut i: usize = 0;
        while i < addresses.len()
            invariant
                self.cff_header == old(self).cff_header,
                self.ctf_header.ctf_langs@ == old(self).ctf_header.ctf_langs@,
                self.ctf_header.ctf_langs@.len() > 0,
                addresses@.len() == ecu_entries(old(self).cff_header),
                ecu_table_readable(old(reader).data@, old(self).cff_header),
                0 <= i <= addresses@.len(),
                self.ecus@.len() == old(self).ecus@.len() + i,
                self.ecus@.subrange(0, old(self).ecus@.len() as int) == old(self).ecus@,
            decreases addresses@.len() - i,
        {
            let ecu = decoder.read_ecu(
                reader,
                &self.ctf_header.ctf_langs[0],
                &self.cff_header,
                addresses[i],
            )?;
            let ghost before = self.ecus@;
            self.ecus.push(ecu);
            assert(self.ecus@.subrange(0, old(self).ecus@.len() as int) =~= before.subrange(
                0,
                old(self).ecus@.len() as int,
            ));
            i = i + 1;
        }
        assert(self.ecus@.len() == old(self).ecus@.len() + i);
        if i == 0 {
            assert(self.ecus@ =~= self.ecus@.subrange(0, old(self).ecus@.len() as int));
        }
        Ok(())
    }

    /// Builds the container from a feature header that was decoded and accepted: decodes
    /// the language table header and then every ECU record.
    pub fn load_from_header<D: CaesarDecoder<Lang = L, Ecu = E>>(
        reader: &mut Raf,
        decoder: &mut D,
        cff_header: CFFHeader,
    ) -> (r: Result<Self, CaesarError>)
        ensures
            cff_header.ctf_offset == 0 ==> r is Err && r->Err_0
                == CaesarError::MissingLanguageTableError && *final(reader) == *old(reader)
                && *final(decoder) == *old(decoder),
            cff_header.ctf_offset != 0 && !(i64::MIN <= ctf_target(cff_header) <= i64::MAX) ==> r
                is Err && r->Err_0 == CaesarError::TruncatedReadError && *final(reader) == *old(
                reader,
            ) && *final(decoder) == *old(decoder),
            r is Ok ==> {
                let c = r->Ok_0;
                &&& c.cff_header == cff_header
                &&& c.cff_header.ctf_offset != 0
                &&& c.ctf_header.ctf_langs@.len() > 0
                &&& c.ecus@.len() == ecu_entries(cff_header)
            },
    {
        let ctf_header = Self::read_ctf(&cff_header, decoder, reader)?;
        let mut res = CContainer { cff_header, ctf_header, ecus: Vec::new() };
        res.read_ecu(decoder, reader)?;
        Ok(res)
    }

    /// Goes on from a stub header that was read and judged: when the stub was refused
    /// nothing more is read; else skips the feature header body by its size field, decodes
    /// the feature header and builds the container from it.
    pub fn load_after_stub<D: CaesarDecoder<Lang = L, Ecu = E>>(
        reader: &mut Raf,
        decoder: &mut D,
        stub_valid: bool,
    ) -> (r: Result<Self, CaesarError>)
        ensures
            !stub_valid ==> r is Err && r->Err_0 == CaesarError::FormatSignatureError
                && *final(reader) == *old(reader) && *final(decoder) == *old(decoder),
            stub_valid && !fits(old(reader).data@, old(reader).pos as int, 4) ==> r is Err
                && r->Err_0 == CaesarError::TruncatedReadError && final(reader).pos == old(
                reader,
            ).pos && final(reader).data@ == old(reader).data@ && *final(decoder) == *old(decoder),
            stub_valid && fits(old(reader).data@, old(reader).pos as int, 4) && le_i32(
                old(reader).data@,
                old(reader).pos as int,
            ) < 0 ==> r is Err && r->Err_0 == CaesarError::TruncatedReadError && final(reader).data@
                == old(reader).data@ && *final(decoder) == *old(decoder),
            r is Ok ==> {
                let c = r->Ok_0;
                &&& stub_valid
                &&& fits(old(reader).data@, old(reader).pos as int, 4)
                &&& le_i32(old(reader).data@, old(reader).pos as int) >= 0
                &&& c.cff_header.caser_version >= MIN_CAESAR_VERSION
                &&& c.cff_header.ctf_offset != 0
                &&& c.ctf_header.ctf_langs@.len() > 0
                &&& c.ecus@.len() == ecu_entries(c.cff_header)
            },
    {
        if !stub_valid {
            return Err(CaesarError::FormatSignatureError);
        }
        let cff_header_size = match reader.read_i32() {
            Ok(v) => v,
            Err(_) => {
                return Err(CaesarError::TruncatedReadError);
            },
        };
        if cff_header_size < 0 || cff_header_size as usize > usize::MAX - reader.pos {
            return Err(CaesarError::TruncatedReadError);
        }
        // the feature header's body is skipped; its fields are decoded after it
        reader.adv(cff_header_size as usize);
        let cff_header = Self::read_cff(decoder, reader)?;
        Self::load_from_header(reader, decoder, cff_header)
    }

    /// Loads a whole container: stub header, feature header, language table header and
    /// every ECU record, or the first failure met on the way.
    pub fn new<D: CaesarDecoder<Lang = L, Ecu = E>>(reader: &mut Raf, decoder: &mut D) -> (r:
        Result<Self, CaesarError>)
        ensures
            old(reader).data@.len() < STUB_HEADER_SIZE ==> r is Err && r->Err_0
                == CaesarError::FormatSignatureError && final(reader).pos == 0
                && final(reader).data@ == old(reader).data@ && *final(decoder) == *old(decoder),
            old(reader).data@.len() >= STUB_HEADER_SIZE && (old(reader).data@.len()
                < STUB_HEADER_SIZE + 4 || le_i32(old(reader).data@, STUB_HEADER_SIZE as int) < 0)
                ==> r is Err && (r->Err_0 == CaesarError::FormatSignatureError || r->Err_0
                == CaesarError::TruncatedReadError),
            r is Ok ==> {
                let c = r->Ok_0;
                &&& old(reader).data@.len() >= STUB_HEADER_SIZE + 4
                &&& le_i32(old(reader).data@, STUB_HEADER_SIZE as int) >= 0
                &&& c.cff_header.caser_version >= MIN_CAESAR_VERSION
                &&& c.cff_header.ctf_offset != 0
                &&& c.ctf_header.ctf_langs@.len() > 0
                &&& c.ecus@.len() == ecu_entries(c.cff_header)
            },
    {
        reader.seek(0);
        let header = match reader.read_bytes(STUB_HEADER_SIZE) {
            Ok(h) => h,
            Err(_) => {
                return Err(CaesarError::FormatSignatureError);
            },
        };
        let stub_valid = decoder.validate_stub(&header);
        Self::load_after_stub(reader, decoder, stub_valid)
    }
}

} // verus!
