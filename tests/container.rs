use cbf_parser::caesar::{CContainer, CFFHeader, CTFHeader, CReader, CaesarDecoder, CaesarError, MIN_CAESAR_VERSION, STUB_HEADER_SIZE};
use cbf_parser::raf::Raf;

/// A small stand-in schema: the feature header is five `i32` fields, the language table
/// one zero-terminated name, and an ECU record one `u16` identifier.
#[derive(Default)]
struct TestDecoder {
    stub_checks: usize,
    cff_reads: usize,
    ctf_reads: usize,
    ecu_reads: usize,
}

impl CaesarDecoder for TestDecoder {
    type Lang = String;
    type Ecu = (u16, i64, String);

    fn validate_stub(&mut self, stub: &Vec<u8>) -> bool {
        self.stub_checks += 1;
        stub.len() == STUB_HEADER_SIZE && &stub[0..3] == b"CBF"
    }

    fn read_cff_header(&mut self, reader: &mut Raf) -> Result<CFFHeader, CaesarError> {
        self.cff_reads += 1;
        let mut m: u64 = u64::MAX;
        let caser_version = CReader::read_bitflag_i32(&mut m, reader, 0)?;
        let base_address = CReader::read_bitflag_i32(&mut m, reader, 0)? as i64;
        let ctf_offset = CReader::read_bitflag_i32(&mut m, reader, 0)?;
        let ecu_offsets = CReader::read_bitflag_i32(&mut m, reader, 0)?;
        let ecu_count = CReader::read_bitflag_i32(&mut m, reader, 0)?;
        Ok(CFFHeader { base_address, caser_version, ctf_offset, ecu_offsets, ecu_count })
    }

    fn read_ctf_header(&mut self, reader: &mut Raf, offset: i64, _header: &CFFHeader) -> Result<CTFHeader<String>, CaesarError> {
        self.ctf_reads += 1;
        reader.seek(offset as usize);
        let name = CReader::read_string(reader)?;
        Ok(CTFHeader { ctf_langs: vec![name] })
    }

    fn read_ecu(&mut self, reader: &mut Raf, lang: &String, _header: &CFFHeader, offset: i64) -> Result<(u16, i64, String), CaesarError> {
        self.ecu_reads += 1;
        reader.seek(offset as usize);
        let mut m: u64 = 1;
        let id = CReader::read_bitflag_u16(&mut m, reader, 0)?;
        Ok((id, offset, lang.clone()))
    }
}

fn put_i32(d: &mut Vec<u8>, at: usize, v: i32) {
    d[at..at + 4].copy_from_slice(&v.to_le_bytes());
}

/// Stub at 0, feature header size 8 and 8 skipped bytes, feature header fields at 0x41C,
/// base address 0x400, language name at 0x430, ECU table at 0x440 with three entries
/// pointing at records out of file order.
fn sample_file(version: i32, ctf_offset: i32) -> Vec<u8> {
    let mut d = vec![0u8; 0x470];
    d[0..3].copy_from_slice(b"CBF");
    put_i32(&mut d, 0x410, 8);
    put_i32(&mut d, 0x41C, version);
    put_i32(&mut d, 0x420, 0x400);
    put_i32(&mut d, 0x424, ctf_offset);
    put_i32(&mut d, 0x428, 0x40);
    put_i32(&mut d, 0x42C, 3);
    d[0x430..0x433].copy_from_slice(b"EN\0");
    put_i32(&mut d, 0x440, 0x20);
    put_i32(&mut d, 0x444, 0x10);
    put_i32(&mut d, 0x448, 0x18);
    d[0x460..0x462].copy_from_slice(&0xA1u16.to_le_bytes());
    d[0x450..0x452].copy_from_slice(&0xB2u16.to_le_bytes());
    d[0x458..0x45A].copy_from_slice(&0xC3u16.to_le_bytes());
    d
}

#[test]
fn loads_ecus_in_table_order() {
    let mut reader = Raf::new(sample_file(400, 0x30));
    let mut dec = TestDecoder::default();
    let c = CContainer::new(&mut reader, &mut dec).ok().unwrap();
    assert_eq!(c.cff_header.caser_version, 400);
    assert_eq!(c.cff_header.base_address, 0x400);
    assert_eq!(c.ctf_header.ctf_langs, vec!["EN".to_string()]);
    assert_eq!(c.ecus.len(), 3);
    assert_eq!(c.ecus[0], (0xA1, 0x460, "EN".to_string()));
    assert_eq!(c.ecus[1], (0xB2, 0x450, "EN".to_string()));
    assert_eq!(c.ecus[2], (0xC3, 0x458, "EN".to_string()));
    assert_eq!(dec.ecu_reads, 3);
}

#[test]
fn version_below_threshold_is_unsupported() {
    let mut reader = Raf::new(sample_file(399, 0x30));
    let mut dec = TestDecoder::default();
    let r = CContainer::new(&mut reader, &mut dec);
    assert_eq!(r.err(), Some(CaesarError::UnsupportedVersionError));
    assert_eq!(dec.ctf_reads, 0);
    assert_eq!(dec.ecu_reads, 0);
}

#[test]
fn version_at_threshold_is_accepted() {
    assert_eq!(MIN_CAESAR_VERSION, 400);
    let h = |v: i32| CFFHeader { base_address: 0, caser_version: v, ctf_offset: 1, ecu_offsets: 0, ecu_count: 0 };
    assert_eq!(CContainer::<String, u16>::check_version(&h(400)), Ok(()));
    assert_eq!(CContainer::<String, u16>::check_version(&h(399)), Err(CaesarError::UnsupportedVersionError));
    let mut reader = Raf::new(sample_file(400, 0x30));
    let mut dec = TestDecoder::default();
    assert!(CContainer::new(&mut reader, &mut dec).is_ok());
}

#[test]
fn zero_ctf_offset_is_missing_language_table() {
    let mut reader = Raf::new(sample_file(400, 0));
    let mut dec = TestDecoder::default();
    let r = CContainer::new(&mut reader, &mut dec);
    assert_eq!(r.err(), Some(CaesarError::MissingLanguageTableError));
    assert_eq!(dec.ctf_reads, 0);
    assert_eq!(dec.ecu_reads, 0);
}

#[test]
fn ctf_address_adds_base() {
    let h = CFFHeader { base_address: 0x400, caser_version: 400, ctf_offset: 0x30, ecu_offsets: 0, ecu_count: 0 };
    assert_eq!(CContainer::<String, u16>::ctf_address(&h), Ok(0x430));
    let far = CFFHeader { base_address: i64::MAX, caser_version: 400, ctf_offset: 1, ecu_offsets: 0, ecu_count: 0 };
    assert_eq!(CContainer::<String, u16>::ctf_address(&far), Err(CaesarError::TruncatedReadError));
}

#[test]
fn short_stub_is_rejected_before_anything_else() {
    let mut reader = Raf::new(vec![b'C', b'B', b'F', 0, 0]);
    reader.seek(3);
    let mut dec = TestDecoder::default();
    let r = CContainer::new(&mut reader, &mut dec);
    assert_eq!(r.err(), Some(CaesarError::FormatSignatureError));
    assert_eq!(reader.pos, 0);
    assert_eq!(dec.stub_checks, 0);
    assert_eq!(dec.cff_reads, 0);
}

#[test]
fn bad_signature_is_rejected_before_header_size() {
    let mut d = sample_file(400, 0x30);
    d[0] = b'X';
    let mut reader = Raf::new(d);
    let mut dec = TestDecoder::default();
    let r = CContainer::new(&mut reader, &mut dec);
    assert_eq!(r.err(), Some(CaesarError::FormatSignatureError));
    assert_eq!(reader.pos, STUB_HEADER_SIZE);
    assert_eq!(dec.cff_reads, 0);
}

#[test]
fn missing_header_size_is_truncated() {
    let mut d = vec![0u8; STUB_HEADER_SIZE + 2];
    d[0..3].copy_from_slice(b"CBF");
    let mut reader = Raf::new(d);
    let mut dec = TestDecoder::default();
    assert_eq!(CContainer::new(&mut reader, &mut dec).err(), Some(CaesarError::TruncatedReadError));
}

#[test]
fn ecu_table_past_end_is_truncated() {
    let mut d = sample_file(400, 0x30);
    put_i32(&mut d, 0x42C, 100);
    let mut reader = Raf::new(d);
    let mut dec = TestDecoder::default();
    assert_eq!(CContainer::new(&mut reader, &mut dec).err(), Some(CaesarError::TruncatedReadError));
    assert_eq!(dec.ecu_reads, 0);
}

#[test]
fn ecu_addresses_follow_the_table() {
    let mut reader = Raf::new(sample_file(400, 0x30));
    let h = CFFHeader { base_address: 0x400, caser_version: 400, ctf_offset: 0x30, ecu_offsets: 0x40, ecu_count: 3 };
    assert_eq!(CContainer::<String, u16>::ecu_addresses(&h, &mut reader), Ok(vec![0x460, 0x450, 0x458]));
    let none = CFFHeader { ecu_count: -2, ..h };
    assert_eq!(CContainer::<String, u16>::ecu_addresses(&none, &mut reader), Ok(vec![]));
}

#[test]
fn refused_stub_reads_nothing_more() {
    let mut reader = Raf::new(sample_file(400, 0x30));
    reader.seek(STUB_HEADER_SIZE);
    let mut dec = TestDecoder::default();
    let r = CContainer::load_after_stub(&mut reader, &mut dec, false);
    assert_eq!(r.err(), Some(CaesarError::FormatSignatureError));
    assert_eq!(reader.pos, STUB_HEADER_SIZE);
    assert_eq!(dec.cff_reads, 0);
    assert_eq!(dec.ctf_reads, 0);
    assert_eq!(dec.ecu_reads, 0);
}

#[test]
fn accepted_stub_continues_to_records() {
    let mut reader = Raf::new(sample_file(400, 0x30));
    reader.seek(STUB_HEADER_SIZE);
    let mut dec = TestDecoder::default();
    let c = CContainer::load_after_stub(&mut reader, &mut dec, true).ok().unwrap();
    assert_eq!(c.ecus.len(), 3);
    assert_eq!(dec.cff_reads, 1);
}

#[test]
fn negative_header_size_is_truncated() {
    let mut d = sample_file(400, 0x30);
    put_i32(&mut d, 0x410, -8);
    let mut reader = Raf::new(d);
    let mut dec = TestDecoder::default();
    assert_eq!(CContainer::new(&mut reader, &mut dec).err(), Some(CaesarError::TruncatedReadError));
    assert_eq!(dec.cff_reads, 0);
}

#[test]
fn header_with_zero_ctf_offset_reads_nothing() {
    let mut reader = Raf::new(sample_file(400, 0x30));
    reader.seek(7);
    let mut dec = TestDecoder::default();
    let h = CFFHeader { base_address: 0x400, caser_version: 400, ctf_offset: 0, ecu_offsets: 0x40, ecu_count: 3 };
    let r = CContainer::load_from_header(&mut reader, &mut dec, h);
    assert_eq!(r.err(), Some(CaesarError::MissingLanguageTableError));
    assert_eq!(reader.pos, 7);
    assert_eq!(dec.ctf_reads, 0);
    assert_eq!(dec.ecu_reads, 0);
}

#[test]
fn zero_ecu_count_loads_no_records() {
    let mut d = sample_file(400, 0x30);
    put_i32(&mut d, 0x42C, 0);
    let mut reader = Raf::new(d);
    let mut dec = TestDecoder::default();
    let c = CContainer::new(&mut reader, &mut dec).ok().unwrap();
    assert!(c.ecus.is_empty());
    assert_eq!(dec.ecu_reads, 0);
}

#[test]
fn empty_language_list_is_refused() {
    let empty: CTFHeader<String> = CTFHeader { ctf_langs: vec![] };
    assert_eq!(CContainer::<String, u16>::check_languages(empty).err(), Some(CaesarError::MissingLanguageTableError));
    let one = CTFHeader { ctf_langs: vec!["DE".to_string()] };
    let kept = CContainer::<String, u16>::check_languages(one).ok().unwrap();
    assert_eq!(kept.ctf_langs, vec!["DE".to_string()]);
}
