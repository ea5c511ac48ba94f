use pe_cleaner::boundary::Strategy;
use pe_cleaner::image::{CoffHeader, FormatError, OptionalHeader, ParsedPe, Section};
use pe_cleaner::parse::{accept, boundary_of, load, locate_boundary, sections_overflow};

const PE_POINTER: usize = 0x40;
const COFF_AT: usize = PE_POINTER + 4;
const OPTIONAL_AT: usize = COFF_AT + 20;
const OPTIONAL_SIZE: usize = 96;

struct Layout {
    optional: Option<(u32, u32)>,
    sections: Vec<([u8; 8], u32, u32)>,
    len: usize,
    fill: u8,
}

fn put16(buf: &mut [u8], at: usize, value: u16) {
    buf[at..at + 2].copy_from_slice(&value.to_le_bytes());
}

fn put32(buf: &mut [u8], at: usize, value: u32) {
    buf[at..at + 4].copy_from_slice(&value.to_le_bytes());
}

fn header_len(layout: &Layout) -> usize {
    let optional = if layout.optional.is_some() { OPTIONAL_SIZE } else { 0 };
    OPTIONAL_AT + optional + 40 * layout.sections.len()
}

fn build(layout: &Layout) -> Vec<u8> {
    let headers = header_len(layout);
    assert!(layout.len >= headers);
    let mut buf = vec![layout.fill; layout.len];
    for byte in buf.iter_mut().take(headers) {
        *byte = 0;
    }
    buf[0] = b'M';
    buf[1] = b'Z';
    put32(&mut buf, 0x3c, PE_POINTER as u32);
    buf[PE_POINTER..PE_POINTER + 4].copy_from_slice(b"PE\0\0");
    put16(&mut buf, COFF_AT, 0x14c);
    put16(&mut buf, COFF_AT + 2, layout.sections.len() as u16);
    put32(&mut buf, COFF_AT + 4, 0x6543_2100);
    put16(&mut buf, COFF_AT + 18, 0x0102);
    let mut at = OPTIONAL_AT;
    if let Some((size_of_image, size_of_headers)) = layout.optional {
        put16(&mut buf, COFF_AT + 16, OPTIONAL_SIZE as u16);
        put16(&mut buf, at, 0x10b);
        put32(&mut buf, at + 28, 0x0040_0000);
        put32(&mut buf, at + 32, 0x1000);
        put32(&mut buf, at + 36, 0x200);
        put32(&mut buf, at + 56, size_of_image);
        put32(&mut buf, at + 60, size_of_headers);
        put16(&mut buf, at + 68, 3);
        at += OPTIONAL_SIZE;
    }
    for (name, file_offset, raw_size) in layout.sections.iter() {
        buf[at..at + 8].copy_from_slice(name);
        put32(&mut buf, at + 8, *raw_size);
        put32(&mut buf, at + 12, 0x1000);
        put32(&mut buf, at + 16, *raw_size);
        put32(&mut buf, at + 20, *file_offset);
        put32(&mut buf, at + 36, 0x6000_0020);
        at += 40;
    }
    buf
}

fn two_sections() -> Layout {
    Layout {
        optional: Some((0x3000, 0x400)),
        sections: vec![(*b".text\0\0\0", 0x400, 0x200), (*b".data\0\0\0", 0x600, 0x1000)],
        len: 0x2000,
        fill: 0xCC,
    }
}

#[test]
fn parser_hands_over_headers_and_sections() {
    let raw = build(&two_sections());
    let pe = load(&raw, Strategy::SectionTable).unwrap();
    assert_eq!(
        pe,
        ParsedPe {
            coff: CoffHeader { machine: 0x14c, number_of_sections: 2, time_date_stamp: 0x6543_2100 },
            optional_header: Some(OptionalHeader {
                subsystem: 3,
                image_base: 0x0040_0000,
                size_of_image: 0x3000,
                size_of_headers: 0x400,
            }),
            sections: vec![
                Section { name: *b".text\0\0\0", file_offset: 0x400, raw_size: 0x200 },
                Section { name: *b".data\0\0\0", file_offset: 0x600, raw_size: 0x1000 },
            ],
        }
    );
}

#[test]
fn parser_keeps_embedded_zero_bytes_in_names() {
    let mut layout = two_sections();
    layout.sections[0].0 = *b"a\0b\0\0\0\0c";
    let pe = load(&build(&layout), Strategy::SectionTable).unwrap();
    assert_eq!(pe.sections[0].name, *b"a\0b\0\0\0\0c");
}

#[test]
fn parsed_file_resolves_to_the_last_section_end() {
    let raw = build(&two_sections());
    assert_eq!(raw.len(), 0x2000);
    assert_eq!(locate_boundary(&raw, Strategy::SectionTable), Ok(0x1600));
}

#[test]
fn parsed_file_with_trailing_padding_resolves_to_the_image_size() {
    let mut layout = two_sections();
    layout.optional = Some((0x5000, 0x400));
    layout.len = 0x6000;
    let mut raw = build(&layout);
    for byte in raw.iter_mut().skip(0x5800) {
        *byte = 0x30;
    }
    assert_eq!(locate_boundary(&raw, Strategy::ImageSize { padding: 0x30 }), Ok(0x5000));
    let mut layout = two_sections();
    layout.optional = Some((0x7000, 0x400));
    layout.len = 0x6000;
    let mut raw = build(&layout);
    for byte in raw.iter_mut().skip(0x5800) {
        *byte = 0x30;
    }
    assert_eq!(locate_boundary(&raw, Strategy::ImageSize { padding: 0x30 }), Ok(0x5800));
}

#[test]
fn parsed_file_with_a_section_behind_its_end_is_clamped() {
    let mut layout = two_sections();
    layout.sections.push((*b".ovl\0\0\0\0", 0x1800, 0x10_0000));
    let raw = build(&layout);
    assert_eq!(locate_boundary(&raw, Strategy::SectionTable), Ok(0x2000));
}

#[test]
fn parsed_file_without_sections_falls_back_to_the_headers() {
    let layout = Layout { optional: Some((0x3000, 0x200)), sections: vec![], len: 0x1000, fill: 1 };
    let raw = build(&layout);
    assert_eq!(locate_boundary(&raw, Strategy::SectionTable), Ok(0x200));
}

#[test]
fn parsed_file_without_sections_and_optional_header_resolves_to_zero() {
    let layout = Layout { optional: None, sections: vec![], len: 0x1000, fill: 1 };
    let raw = build(&layout);
    let pe = load(&raw, Strategy::SectionTable).unwrap();
    assert_eq!(pe.optional_header, None);
    assert!(pe.sections.is_empty());
    assert_eq!(locate_boundary(&raw, Strategy::SectionTable), Ok(0));
}

#[test]
fn bytes_that_are_no_image_are_rejected() {
    for strategy in [Strategy::SectionTable, Strategy::ImageSize { padding: 0x30 }] {
        assert!(matches!(load(&[], strategy), Err(FormatError::NotAPEFile(_))));
        assert!(matches!(
            load(b"plain text, nothing executable", strategy),
            Err(FormatError::NotAPEFile(_))
        ));
        assert!(matches!(load(&vec![0x30u8; 4096], strategy), Err(FormatError::NotAPEFile(_))));
        assert!(matches!(locate_boundary(&[], strategy), Err(FormatError::NotAPEFile(_))));
        assert!(matches!(
            locate_boundary(&vec![0x30u8; 4096], strategy),
            Err(FormatError::NotAPEFile(_))
        ));
    }
}

#[test]
fn truncated_headers_are_rejected() {
    let raw = build(&two_sections());
    let headers = header_len(&two_sections());
    assert_eq!(headers, 0x108);
    for len in [1usize, 2, 0x3f, 0x40, 0x43, 0x50, 0x60, 0x100, headers - 1] {
        assert!(matches!(
            load(&raw[..len], Strategy::SectionTable),
            Err(FormatError::NotAPEFile(_))
        ));
        assert!(matches!(
            locate_boundary(&raw[..len], Strategy::SectionTable),
            Err(FormatError::NotAPEFile(_))
        ));
    }
}

#[test]
fn file_cut_behind_its_headers_is_clamped_to_its_length() {
    let raw = build(&two_sections());
    let headers = header_len(&two_sections());
    assert_eq!(locate_boundary(&raw[..headers], Strategy::SectionTable), Ok(headers));
    assert_eq!(locate_boundary(&raw[..0x500], Strategy::SectionTable), Ok(0x500));
}

#[test]
fn wrong_signatures_are_rejected() {
    let mut raw = build(&two_sections());
    raw[1] = b'X';
    assert!(matches!(load(&raw, Strategy::SectionTable), Err(FormatError::NotAPEFile(_))));
    let mut raw = build(&two_sections());
    raw[PE_POINTER] = b'Q';
    assert!(matches!(load(&raw, Strategy::SectionTable), Err(FormatError::NotAPEFile(_))));
    let mut raw = build(&two_sections());
    put16(&mut raw, OPTIONAL_AT, 0x999);
    assert!(matches!(load(&raw, Strategy::SectionTable), Err(FormatError::NotAPEFile(_))));
}

#[test]
fn image_without_optional_header_is_malformed_for_the_image_size_strategy() {
    let layout = Layout {
        optional: None,
        sections: vec![(*b".text\0\0\0", 0x400, 0x200)],
        len: 0x1000,
        fill: 0,
    };
    let raw = build(&layout);
    let strategy = Strategy::ImageSize { padding: 0x30 };
    assert_eq!(load(&raw, strategy), Err(FormatError::MalformedHeader));
    assert_eq!(locate_boundary(&raw, strategy), Err(FormatError::MalformedHeader));
    assert!(load(&raw, Strategy::SectionTable).is_ok());
    assert_eq!(locate_boundary(&raw, Strategy::SectionTable), Ok(0x600));
}

#[test]
fn accept_checks_the_headers_that_the_strategy_reads() {
    let bare = ParsedPe {
        coff: CoffHeader { machine: 0x8664, number_of_sections: 0, time_date_stamp: 1 },
        optional_header: None,
        sections: vec![],
    };
    let full = ParsedPe {
        optional_header: Some(OptionalHeader {
            subsystem: 2,
            image_base: 0x1_4000_0000,
            size_of_image: 0x5000,
            size_of_headers: 0x400,
        }),
        ..bare.clone()
    };
    let by_image_size = Strategy::ImageSize { padding: 0x30 };
    assert_eq!(accept(bare.clone(), Strategy::SectionTable), Ok(bare.clone()));
    assert_eq!(accept(bare.clone(), by_image_size), Err(FormatError::MalformedHeader));
    assert_eq!(accept(full.clone(), Strategy::SectionTable), Ok(full.clone()));
    assert_eq!(accept(full.clone(), by_image_size), Ok(full));
}

#[test]
fn boundary_of_reports_a_missing_header_as_malformed() {
    let bare = ParsedPe {
        coff: CoffHeader { machine: 0x8664, number_of_sections: 1, time_date_stamp: 1 },
        optional_header: None,
        sections: vec![Section { name: *b".text\0\0\0", file_offset: 8, raw_size: 8 }],
    };
    let raw = [0x30u8; 64];
    assert_eq!(
        boundary_of(&bare, &raw, Strategy::ImageSize { padding: 0x30 }),
        Err(FormatError::MalformedHeader)
    );
    assert_eq!(boundary_of(&bare, &raw, Strategy::SectionTable), Ok(16));
}

#[test]
fn rejection_carries_the_words_of_the_parser() {
    match load(&[], Strategy::SectionTable) {
        Err(FormatError::NotAPEFile(text)) => assert!(text.contains("DOS"), "{}", text),
        other => panic!("{:?}", other),
    }
    let mut raw = build(&two_sections());
    raw[PE_POINTER] = b'Q';
    match load(&raw, Strategy::SectionTable) {
        Err(FormatError::NotAPEFile(text)) => assert!(text.contains("PE header"), "{}", text),
        other => panic!("{:?}", other),
    }
}

const FULL_OPTIONAL_SIZE: usize = 96 + 16 * 8;

fn put_section(buf: &mut [u8], at: usize, name: &[u8; 8], address: u32, file_offset: u32) {
    buf[at..at + 8].copy_from_slice(name);
    put32(buf, at + 8, 0x200);
    put32(buf, at + 12, address);
    put32(buf, at + 16, 0x200);
    put32(buf, at + 20, file_offset);
    put32(buf, at + 36, 0x6000_0020);
}

fn linked_image(len: usize, with_imports: bool) -> Vec<u8> {
    let mut buf = vec![0u8; len];
    buf[0] = b'M';
    buf[1] = b'Z';
    put32(&mut buf, 0x3c, PE_POINTER as u32);
    buf[PE_POINTER..PE_POINTER + 4].copy_from_slice(b"PE\0\0");
    put16(&mut buf, COFF_AT, 0x14c);
    put16(&mut buf, COFF_AT + 2, 2);
    put32(&mut buf, COFF_AT + 4, 0x6543_2100);
    put16(&mut buf, COFF_AT + 16, FULL_OPTIONAL_SIZE as u16);
    put16(&mut buf, COFF_AT + 18, 0x0102);
    put16(&mut buf, OPTIONAL_AT, 0x10b);
    put32(&mut buf, OPTIONAL_AT + 16, 0x1000);
    put32(&mut buf, OPTIONAL_AT + 28, 0x0040_0000);
    put32(&mut buf, OPTIONAL_AT + 32, 0x1000);
    put32(&mut buf, OPTIONAL_AT + 36, 0x200);
    put32(&mut buf, OPTIONAL_AT + 56, 0x3000);
    put32(&mut buf, OPTIONAL_AT + 60, 0x200);
    put16(&mut buf, OPTIONAL_AT + 68, 3);
    put32(&mut buf, OPTIONAL_AT + 92, 16);
    let table = OPTIONAL_AT + FULL_OPTIONAL_SIZE;
    put_section(&mut buf, table, b".text\0\0\0", 0x1000, 0x200);
    put_section(&mut buf, table + 40, b".idata\0\0", 0x2000, 0x400);
    for byte in buf.iter_mut().skip(0x200).take(0x200) {
        *byte = 0xC3;
    }
    if with_imports {
        put32(&mut buf, OPTIONAL_AT + 96 + 8, 0x2000);
        put32(&mut buf, OPTIONAL_AT + 96 + 12, 40);
        put32(&mut buf, 0x400, 0x2040);
        put32(&mut buf, 0x400 + 12, 0x2060);
        put32(&mut buf, 0x400 + 16, 0x2080);
        put32(&mut buf, 0x440, 0x20a0);
        buf[0x460..0x46d].copy_from_slice(b"KERNEL32.dll\0");
        put32(&mut buf, 0x480, 0x20a0);
        buf[0x4a2..0x4ae].copy_from_slice(b"ExitProcess\0");
    }
    for byte in buf.iter_mut().skip(0x600) {
        *byte = 0x30;
    }
    buf
}

fn linked_sections() -> Vec<Section> {
    vec![
        Section { name: *b".text\0\0\0", file_offset: 0x200, raw_size: 0x200 },
        Section { name: *b".idata\0\0", file_offset: 0x400, raw_size: 0x200 },
    ]
}

#[test]
fn image_with_sixteen_data_directories_is_parsed() {
    let raw = linked_image(0x900, false);
    let pe = load(&raw, Strategy::SectionTable).unwrap();
    assert_eq!(pe.coff.number_of_sections, 2);
    assert_eq!(
        pe.optional_header,
        Some(OptionalHeader {
            subsystem: 3,
            image_base: 0x0040_0000,
            size_of_image: 0x3000,
            size_of_headers: 0x200,
        })
    );
    assert_eq!(pe.sections, linked_sections());
    assert_eq!(locate_boundary(&raw, Strategy::SectionTable), Ok(0x600));
    assert_eq!(locate_boundary(&raw, Strategy::ImageSize { padding: 0x30 }), Ok(0x600));
}

#[test]
fn image_with_an_import_directory_is_parsed() {
    let raw = linked_image(0x900, true);
    let pe = load(&raw, Strategy::SectionTable).unwrap();
    assert_eq!(pe.sections, linked_sections());
    assert_eq!(locate_boundary(&raw, Strategy::SectionTable), Ok(0x600));
    assert_eq!(locate_boundary(&raw, Strategy::ImageSize { padding: 0x30 }), Ok(0x600));
}

#[test]
fn import_directory_outside_every_section_is_rejected() {
    let mut raw = linked_image(0x900, true);
    put32(&mut raw, OPTIONAL_AT + 96 + 8, 0x9000);
    assert!(matches!(load(&raw, Strategy::SectionTable), Err(FormatError::NotAPEFile(_))));
}

#[test]
fn section_with_an_overflowing_extent_is_malformed() {
    let table = OPTIONAL_AT + FULL_OPTIONAL_SIZE;
    for with_imports in [false, true] {
        let mut raw = linked_image(0x900, with_imports);
        assert!(!sections_overflow(&raw));
        put32(&mut raw, table + 8, 0x2000);
        put32(&mut raw, table + 12, 0xFFFF_F000);
        assert!(sections_overflow(&raw));
        assert_eq!(load(&raw, Strategy::SectionTable), Err(FormatError::MalformedHeader));
        assert_eq!(locate_boundary(&raw, Strategy::SectionTable), Err(FormatError::MalformedHeader));
    }
    let mut raw = linked_image(0x900, true);
    put32(&mut raw, table + 40 + 8, 0xFFFF_FFFF);
    put32(&mut raw, table + 40 + 12, 1);
    assert!(sections_overflow(&raw));
    assert_eq!(load(&raw, Strategy::SectionTable), Err(FormatError::MalformedHeader));
}

#[test]
fn section_that_ends_at_the_largest_address_is_accepted() {
    let table = OPTIONAL_AT + FULL_OPTIONAL_SIZE;
    let mut raw = linked_image(0x900, false);
    put32(&mut raw, table + 8, 0x0FFF);
    put32(&mut raw, table + 12, 0xFFFF_F000);
    assert!(!sections_overflow(&raw));
    assert!(load(&raw, Strategy::SectionTable).is_ok());
}

#[test]
fn only_framed_buffers_and_present_entries_are_searched() {
    assert!(!sections_overflow(&[]));
    assert!(!sections_overflow(&vec![0xFFu8; 4096]));
    let table = OPTIONAL_AT + FULL_OPTIONAL_SIZE;
    let mut raw = linked_image(0x900, false);
    put32(&mut raw, table + 40 + 8, 0xFFFF_FFFF);
    put32(&mut raw, table + 40 + 12, 0xFFFF_FFFF);
    assert!(sections_overflow(&raw));
    assert!(!sections_overflow(&raw[..table + 79]));
    assert!(sections_overflow(&raw[..table + 80]));
    assert!(matches!(
        load(&raw[..table + 79], Strategy::SectionTable),
        Err(FormatError::NotAPEFile(_))
    ));
    put16(&mut raw, COFF_AT + 2, 1);
    assert!(!sections_overflow(&raw));
    let mut unsigned = raw.clone();
    put16(&mut unsigned, COFF_AT + 2, 2);
    unsigned[0] = b'N';
    assert!(!sections_overflow(&unsigned));
    assert!(matches!(load(&unsigned, Strategy::SectionTable), Err(FormatError::NotAPEFile(_))));
}

#[test]
fn import_directory_is_read_by_the_parser() {
    let raw = linked_image(0x900, true);
    let parsed = goblin::pe::PE::parse(&raw).unwrap();
    assert_eq!(parsed.libraries, vec!["KERNEL32.dll"]);
    assert_eq!(parsed.imports.len(), 1);
    assert_eq!(parsed.imports[0].name, "ExitProcess");
    let plain = linked_image(0x900, false);
    let bare = goblin::pe::PE::parse(&plain).unwrap();
    assert!(bare.imports.is_empty());
    let pe = load(&raw, Strategy::SectionTable).unwrap();
    assert_eq!(pe.sections.len(), parsed.sections.len());
    for (ours, theirs) in pe.sections.iter().zip(parsed.sections.iter()) {
        assert_eq!(ours.name, theirs.name);
        assert_eq!(ours.file_offset, theirs.pointer_to_raw_data);
        assert_eq!(ours.raw_size, theirs.size_of_raw_data);
    }
}

#[test]
fn logging_of_the_parser_is_compiled_out() {
    assert_eq!(log::STATIC_MAX_LEVEL, log::LevelFilter::Off);
}

struct Alarm;

impl log::Log for Alarm {
    fn enabled(&self, _metadata: &log::Metadata) -> bool {
        true
    }

    fn log(&self, record: &log::Record) {
        panic!("the parser logged: {}", record.args());
    }

    fn flush(&self) {}
}

#[test]
fn a_logger_never_hears_the_parser() {
    let alarm: &'static Alarm = Box::leak(Box::new(Alarm));
    assert!(log::set_logger(alarm).is_ok());
    log::set_max_level(log::LevelFilter::Trace);
    let raw = linked_image(0x900, true);
    assert_eq!(locate_boundary(&raw, Strategy::SectionTable), Ok(0x600));
    assert!(load(&build(&two_sections()), Strategy::SectionTable).is_ok());
    assert!(matches!(load(&raw[..0x100], Strategy::SectionTable), Err(FormatError::NotAPEFile(_))));
}
