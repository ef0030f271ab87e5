use collector::lifecycle::{Program, Stage, StartError, StartOutcome, Step};
use collector::network::{
    find_field, is_whitespace_char, parse_addr, parse_connection, Address, Connection,
    DecodeError, NetworkScraper,
};

#[test]
fn a_line_of_the_table_is_decoded() {
    let c = parse_connection("0: 0100007F:1F90 00000000:0000 0A").unwrap();
    assert_eq!(Address::V4(0x0100_007F), c.local);
    assert_eq!(Address::V4(0), c.remote);
    assert_eq!(0x0A, c.state);
    assert_eq!([1, 0, 0, 127], 0x0100_007Fu32.to_be_bytes());
}

#[test]
fn a_full_line_of_the_kernel_is_decoded() {
    let line = "   1: 0100007F:0277 0200007F:D4A2 01 00000000:00000000 00:00000000 00000000     0        0 23823 1 0000000000000000 100 0 0 10 0\n";
    assert_eq!(
        Ok(Connection {
            local: Address::V4(0x0100007F),
            remote: Address::V4(0x0200007F),
            state: 1
        }),
        parse_connection(line)
    );
}

#[test]
fn the_length_of_the_address_decides_its_family() {
    assert_eq!(Some(Address::V4(0xC0A8_0001)), parse_addr("C0A80001:0050"));
    assert_eq!(Some(Address::V4(0xC0A8_0001)), parse_addr("c0a80001"));
    assert_eq!(Some(Address::V4(u32::MAX)), parse_addr("FFFFFFFF:FFFF"));
    assert_eq!(
        Some(Address::V6(0x2001_0DB8_0000_0000_0000_0000_0000_0001)),
        parse_addr("20010DB8000000000000000000000001:01BB")
    );
    assert_eq!(Some(Address::V6(u128::MAX)), parse_addr("ffffffffffffffffffffffffffffffff:0"));
    assert_eq!(Some(Address::V6(0x7F)), parse_addr("7F:1"));
    assert_eq!(Some(Address::V6(0x0100007F0)), parse_addr("0100007F0:1"));
    assert_eq!(Some(Address::V6(1)), parse_addr("000000000000000000000000000000000001"));
}

#[test]
fn what_is_no_address_is_refused() {
    for raw in ["", ":1F90", "0100007G:1F90", "+100007F:1", "-100007F", "0x00007F", "0100 07F", "100000000000000000000000000000000"] {
        assert_eq!(None, parse_addr(raw), "{:?}", raw);
    }
}

#[test]
fn each_kind_of_malformed_line() {
    for line in ["", "\n", "0:", "0: 0100007F:1F90", "0: 0100007F:1F90 00000000:0000", " \t "] {
        assert_eq!(Err(DecodeError::TooFewFields), parse_connection(line), "{:?}", line);
    }
    assert_eq!(
        Err(DecodeError::InvalidLocalAddress),
        parse_connection("sl local_address rem_address st")
    );
    assert_eq!(
        Err(DecodeError::InvalidLocalAddress),
        parse_connection("0: xyz:1 alsobad:2 0A")
    );
    assert_eq!(
        Err(DecodeError::InvalidRemoteAddress),
        parse_connection("0: 0100007F:1F90 0000000Z:0000 0A")
    );
}

#[test]
fn a_state_that_is_no_byte_is_zero() {
    let state = |field: &str| {
        parse_connection(&format!("0: 0100007F:1F90 00000000:0000 {}", field))
            .unwrap()
            .state
    };
    assert_eq!(0x0A, state("0A"));
    assert_eq!(0x0a, state("0a"));
    assert_eq!(0xFF, state("FF"));
    assert_eq!(7, state("7"));
    assert_eq!(0x1F, state("0001F"));
    assert_eq!(0, state("100"));
    assert_eq!(0, state("0G"));
    assert_eq!(0, state("-1"));
    assert_eq!(0, state("established"));
}

#[test]
fn fields_are_split_at_any_white_space() {
    assert_eq!(
        Ok(Connection { local: Address::V4(1), remote: Address::V4(2), state: 3 }),
        parse_connection("\t0:\u{a0}00000001:0\u{2003}\u{3000}00000002:0\r\n03\u{85}rest")
    );
    let chars: Vec<char> = "  ab   c d".chars().collect();
    assert_eq!(Some((2, 4)), find_field(&chars, 0, 0));
    assert_eq!(Some((7, 8)), find_field(&chars, 0, 1));
    assert_eq!(Some((9, 10)), find_field(&chars, 0, 2));
    assert_eq!(None, find_field(&chars, 0, 3));
    assert_eq!(Some((7, 8)), find_field(&chars, 3, 1));
    assert_eq!(None, find_field(&chars, 10, 0));
}

#[test]
fn white_space_is_what_std_says() {
    let mut c = 0u32;
    while c <= 0x11000 {
        if let Some(ch) = char::from_u32(c) {
            assert_eq!(ch.is_whitespace(), is_whitespace_char(ch), "{:#x}", c);
        }
        c += 1;
    }
}

#[test]
fn fields_agree_with_split_whitespace() {
    for line in ["a b c d e", "  a\tb  c\n", "", "   ", "one", "x\u{2028}y z\u{1680}w"] {
        let chars: Vec<char> = line.chars().collect();
        let expected: Vec<&str> = line.split_whitespace().collect();
        for n in 0..6 {
            let got = find_field(&chars, 0, n).map(|(a, b)| chars[a..b].iter().collect::<String>());
            assert_eq!(expected.get(n).map(|s| s.to_string()), got, "{:?} {}", line, n);
        }
    }
}

#[test]
fn addresses_agree_with_std_on_hex_digits() {
    for raw in ["0100007F", "00000000", "DEADBEEF", "deadbeef", "0", "ABCDEF0123456789"] {
        let expected = if raw.len() == 8 {
            Address::V4(u32::from_str_radix(raw, 16).unwrap())
        } else {
            Address::V6(u128::from_str_radix(raw, 16).unwrap())
        };
        assert_eq!(Some(expected), parse_addr(raw), "{:?}", raw);
    }
}

#[test]
fn a_scraper_decodes_only_once_started() {
    let mut scraper: NetworkScraper<u32> = NetworkScraper::new(true);
    assert!(!scraper.is_started());
    assert!(scraper.debug());
    assert_eq!(None, scraper.link());
    let line = "0: 0100007F:1F90 00000000:0000 0A\n";
    assert_eq!(None, scraper.next(Some(line)));

    assert_eq!(Ok(()), scraper.start(StartOutcome::Attached(7)));
    assert!(scraper.is_started());
    assert_eq!(Some(&7), scraper.link());
    assert_eq!(
        Some(Ok(Connection { local: Address::V4(0x0100007F), remote: Address::V4(0), state: 10 })),
        scraper.next(Some(line))
    );
    assert_eq!(None, scraper.next(None));
    assert_eq!(None, scraper.next(Some("")));
    assert_eq!(Some(Err(DecodeError::TooFewFields)), scraper.next(Some("\n")));
    assert_eq!(
        Some(Err(DecodeError::InvalidLocalAddress)),
        scraper.next(Some("  sl  local_address rem_address   st\n"))
    );
    assert_eq!(Ok(()), scraper.stop());
    assert!(scraper.is_started());
}

#[test]
fn a_failed_start_leaves_nothing_attached() {
    for stage in [Stage::Open, Stage::Load, Stage::Attach] {
        let mut scraper: NetworkScraper<u32> = NetworkScraper::new(false);
        assert_eq!(Err(StartError::Failed(stage)), scraper.start(StartOutcome::Failed(stage)));
        assert!(!scraper.is_started());
        assert!(!scraper.debug());
        // a later start may still succeed
        assert_eq!(Ok(()), scraper.start(StartOutcome::Attached(1)));
        assert_eq!(Some(&1), scraper.link());
    }
}

#[test]
fn an_attachment_is_never_replaced() {
    let mut scraper: NetworkScraper<u32> = NetworkScraper::new(false);
    assert_eq!(Ok(()), scraper.start(StartOutcome::Attached(1)));
    assert_eq!(Err(StartError::AlreadyStarted), scraper.start(StartOutcome::Attached(2)));
    assert_eq!(Some(&1), scraper.link());
    assert_eq!(Err(StartError::AlreadyStarted), scraper.start(StartOutcome::Failed(Stage::Load)));
    assert_eq!(Some(&1), scraper.link());
}

#[test]
fn the_steps_of_a_start_are_open_load_attach() {
    let mut scraper: NetworkScraper<u32> = NetworkScraper::new(true);
    assert_eq!(
        vec![Step::Open { debug: true }, Step::Load, Step::Attach { program: Program::DumpTcp4 }],
        scraper.steps()
    );
    assert_eq!(Ok(()), scraper.start(StartOutcome::Attached(1)));
    assert_eq!(Vec::<Step>::new(), scraper.steps());
    let stages: Vec<Stage> = collector::lifecycle::start_steps(false, Program::IterTasks)
        .iter()
        .map(|s| s.stage())
        .collect();
    assert_eq!(vec![Stage::Open, Stage::Load, Stage::Attach], stages);
    assert_eq!("dump_bpf_prog", Program::DumpBpfProg.name());
    assert_eq!("dump_tcp4", Program::DumpTcp4.name());
    assert_eq!("iter_tasks", Program::IterTasks.name());
}
