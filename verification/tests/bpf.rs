use collector::bpf::{decode_records, get_bpf_programs, BPFScraper, RecordLayout};
use collector::common::{bpf_prog_result, field_text};
use collector::lifecycle::{Program, Stage, StartError, StartOutcome, Step};

fn field(text: &[u8], len: usize) -> Vec<u8> {
    let mut bytes = text.to_vec();
    bytes.resize(len, 0);
    bytes
}

#[test]
fn it_works() {
    let result = collector::arith::add(2, 2);
    assert_eq!(result, 4);
}

#[test]
fn sums_up_to_the_largest_number() {
    assert_eq!(u64::MAX, collector::arith::add(u64::MAX - 1, 1));
    assert_eq!(0, collector::arith::add(0, 0));
}

#[test]
fn the_library_holds_no_programs() {
    assert!(get_bpf_programs().is_empty());
}

#[test]
fn a_layout_needs_a_size() {
    assert!(RecordLayout::new(0, 0).is_none());
    assert!(RecordLayout::new(usize::MAX, 1).is_none());
    assert_eq!(1, RecordLayout::new(0, 1).unwrap().record_size());
    assert_eq!(32, RecordLayout::new(16, 16).unwrap().record_size());
    assert_eq!(usize::MAX, RecordLayout::new(usize::MAX, 0).unwrap().record_size());
}

#[test]
fn a_stream_is_cut_into_records() {
    let layout = RecordLayout::new(4, 3).unwrap();
    let stream = b"abcdXYZefghUVWij";
    let records = decode_records(stream, &layout);
    assert_eq!(2, records.len());
    assert_eq!(b"abcd".to_vec(), records[0].name);
    assert_eq!(b"XYZ".to_vec(), records[0].attached);
    assert_eq!(b"efgh".to_vec(), records[1].name);
    assert_eq!(b"UVW".to_vec(), records[1].attached);

    assert!(decode_records(b"", &layout).is_empty());
    assert!(decode_records(b"abcdXY", &layout).is_empty());
    assert_eq!(1, decode_records(b"abcdXYZ", &layout).len());
}

#[test]
fn the_text_of_a_field_ends_at_the_first_zero_byte() {
    let record = bpf_prog_result {
        name: field(b"dump_bpf_prog", 16),
        attached: field(b"sys_enter\0junk", 32),
    };
    assert_eq!("dump_bpf_prog", record.name());
    assert_eq!("sys_enter", record.attached());

    assert_eq!("", field_text(&Vec::new()));
    assert_eq!("", field_text(&vec![0, b'a']));
    assert_eq!("full", field_text(&b"full".to_vec()));
    assert_eq!("h\u{e9}", field_text(&vec![b'h', 0xC3, 0xA9, 0, 0xFF]));
}

#[test]
fn a_field_that_is_not_utf8_reads_as_empty() {
    assert_eq!("", field_text(&vec![b'a', 0xFF, b'b', 0]));
    assert_eq!("", field_text(&vec![0xC3, 0]));
    assert_eq!("", field_text(&vec![0xED, 0xA0, 0x80]));
    let record = bpf_prog_result { name: vec![0x80], attached: b"ok\0".to_vec() };
    assert_eq!("", record.name());
    assert_eq!("ok", record.attached());
}

#[test]
fn records_of_a_started_scraper() {
    let mut scraper: BPFScraper<&str> = BPFScraper::new(false);
    assert_eq!(
        vec![Step::Open { debug: false }, Step::Load, Step::Attach { program: Program::DumpBpfProg }],
        scraper.steps()
    );
    assert_eq!(Err(StartError::Failed(Stage::Load)), scraper.start(StartOutcome::Failed(Stage::Load)));
    assert!(!scraper.is_started());
    assert_eq!(Ok(()), scraper.start(StartOutcome::Attached("link")));
    assert!(scraper.is_started());
    assert_eq!(Err(StartError::AlreadyStarted), scraper.start(StartOutcome::Attached("other")));
    assert_eq!(Some(&"link"), scraper.link());
    assert!(scraper.steps().is_empty());
    assert_eq!(Ok(()), scraper.stop());
    assert!(scraper.is_started());
    assert!(!scraper.debug());

    let layout = RecordLayout::new(8, 8).unwrap();
    let mut stream = field(b"prog_a", 8);
    stream.extend(field(b"hook_a", 8));
    stream.extend(field(b"prog_b", 8));
    stream.extend(field(b"", 8));
    stream.extend(b"tail");
    let records = scraper.records(&stream, &layout);
    let texts: Vec<(String, String)> = records.iter().map(|r| (r.name(), r.attached())).collect();
    assert_eq!(
        vec![
            ("prog_a".to_string(), "hook_a".to_string()),
            ("prog_b".to_string(), String::new())
        ],
        texts
    );
}
