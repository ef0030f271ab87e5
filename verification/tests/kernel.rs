use collector::kernel::{KernelIdentification, KernelVersion};

#[test]
fn test_has_ebpf_support() {
    let mut v = KernelVersion {
        kernel: 3,
        major: 13,
        ..Default::default()
    };
    assert!(!v.has_ebpf_support());

    v.kernel = 4;
    assert!(!v.has_ebpf_support());

    v.kernel = 5;
    assert!(v.has_ebpf_support());
}

#[test]
fn test_has_secure_boot_param() {
    let mut v = KernelVersion {
        kernel: 3,
        major: 10,
        ..Default::default()
    };
    assert!(!v.has_secure_boot_param());

    v.kernel = 4;
    assert!(!v.has_secure_boot_param());

    v.kernel = 5;
    assert!(v.has_secure_boot_param());
}

#[test]
fn test_short_release() {
    let v = KernelVersion {
        kernel: 9,
        major: 10,
        minor: 11,
        ..Default::default()
    };

    assert_eq!("9.10.11", v.short_release());
}

#[test]
fn test_kernel_version_construction() {
    let v = KernelVersion::new("3.10.0-957.10.1.el7.x86_64", "", "");
    assert_eq!(3, v.kernel);
    assert_eq!(10, v.major);
    assert_eq!(0, v.minor);
    assert_eq!(957, v.build_id);

    let v = KernelVersion::new("not.a.version-invalid.10.1.el7.x86_64", "", "");
    assert_eq!(0, v.kernel);
    assert_eq!(0, v.major);
    assert_eq!(0, v.minor);
    assert_eq!(0, v.build_id);
}

#[test]
fn ebpf_support_starts_at_4_14() {
    let at = |kernel: u64, major: u64| KernelVersion {
        kernel,
        major,
        ..Default::default()
    };
    assert!(!at(4, 13).has_ebpf_support());
    assert!(at(4, 14).has_ebpf_support());
    assert!(at(5, 0).has_ebpf_support());
    assert!(!at(0, 99).has_ebpf_support());
}

#[test]
fn secure_boot_param_starts_at_4_11() {
    let at = |kernel: u64, major: u64| KernelVersion {
        kernel,
        major,
        ..Default::default()
    };
    assert!(!at(4, 10).has_secure_boot_param());
    assert!(at(4, 11).has_secure_boot_param());
    assert!(at(5, 0).has_secure_boot_param());
}

#[test]
fn short_release_of_zero_and_of_large_numbers() {
    assert_eq!("0.0.0", KernelVersion::default().short_release());
    let v = KernelVersion {
        kernel: u64::MAX,
        major: 100,
        minor: 7,
        ..Default::default()
    };
    assert_eq!("18446744073709551615.100.7", v.short_release());
}

#[test]
fn unmatched_release_keeps_the_strings() {
    let release = "not.a.version-invalid.10.1.el7.x86_64";
    let v = KernelVersion::new(release, "#1 SMP", "x86_64");
    assert_eq!(release, v.release());
    assert_eq!("#1 SMP", v.version());
    assert_eq!("x86_64", v.machine());
    assert_eq!((0, 0, 0, 0), (v.kernel(), v.major(), v.minor(), v.build_id()));
}

#[test]
fn getters_give_back_what_was_parsed() {
    let v = KernelVersion::new("5.15.0-1053-gcp", "#58 SMP", "aarch64");
    assert_eq!(5, v.kernel());
    assert_eq!(15, v.major());
    assert_eq!(0, v.minor());
    assert_eq!(1053, v.build_id());
    assert_eq!("5.15.0-1053-gcp", v.release());
    assert_eq!("#58 SMP", v.version());
    assert_eq!("aarch64", v.machine());
    assert_eq!("5.15.0", v.short_release());
}

#[test]
fn release_without_build_number() {
    for release in ["6.1.0", "6.1.0-", "6.1.0-rc1", "6.1.0+", "6.1.0.4-5"] {
        let v = KernelVersion::new(release, "", "");
        assert_eq!((6, 1, 0, 0), (v.kernel, v.major, v.minor, v.build_id), "{}", release);
    }
}

#[test]
fn release_that_stops_short_is_zero() {
    for release in ["", "5", "5.", "5.15", "5.15.", ".5.15.0", "5..15.0", "v5.15.0", " 5.15.0", "5.15.-3", "-5.15.0"] {
        let v = KernelVersion::new(release, "", "");
        assert_eq!((0, 0, 0, 0), (v.kernel, v.major, v.minor, v.build_id), "{:?}", release);
        assert_eq!(release, v.release);
    }
}

#[test]
fn a_number_too_large_for_64_bits_is_zero() {
    let v = KernelVersion::new("18446744073709551616.2.3-4", "", "");
    assert_eq!((0, 2, 3, 4), (v.kernel, v.major, v.minor, v.build_id));
    let v = KernelVersion::new("18446744073709551615.2.3-99999999999999999999", "", "");
    assert_eq!((u64::MAX, 2, 3, 0), (v.kernel, v.major, v.minor, v.build_id));
    let v = KernelVersion::new("007.08.09-010", "", "");
    assert_eq!((7, 8, 9, 10), (v.kernel, v.major, v.minor, v.build_id));
}

#[test]
fn digits_outside_ascii_are_no_digits() {
    let v = KernelVersion::new("٣.10.0-957", "", "");
    assert_eq!((0, 0, 0, 0), (v.kernel, v.major, v.minor, v.build_id));
    assert_eq!("٣.10.0-957", v.release);
}

#[test]
fn parsing_agrees_with_the_pattern_on_ascii_releases() {
    let re = regex::Regex::new(r"^([0-9]+)\.([0-9]+)\.([0-9]+)(-([0-9]+))?").unwrap();
    let releases = [
        "3.10.0-957.10.1.el7.x86_64",
        "4.11.0-18.10.1.el8.x86_64",
        "5.15.0-1053-gcp",
        "6.8.0",
        "6.8.0-rc3",
        "6.8.0-",
        "6.8",
        "6.8.x",
        "x6.8.0",
        "10.20.30-40-50",
        "1.2.3-4.5",
        "1.2.3--4",
        "",
    ];
    for release in releases {
        let v = KernelVersion::new(release, "", "");
        let expected = match re.captures(release) {
            Some(c) => (
                c[1].parse::<u64>().unwrap(),
                c[2].parse::<u64>().unwrap(),
                c[3].parse::<u64>().unwrap(),
                c.get(5).map(|m| m.as_str().parse::<u64>().unwrap()).unwrap_or(0),
            ),
            None => (0, 0, 0, 0),
        };
        assert_eq!(expected, (v.kernel, v.major, v.minor, v.build_id), "{:?}", release);
    }
}

#[test]
fn version_from_identification_or_fallback() {
    let ident = KernelIdentification {
        release: "5.4.0-150-generic".to_string(),
        version: "#167-Ubuntu".to_string(),
        machine: "x86_64".to_string(),
    };
    let v = KernelVersion::from_identification(Some(ident), "4.4.4-4");
    assert_eq!((5, 4, 0, 150), (v.kernel, v.major, v.minor, v.build_id));
    assert_eq!("#167-Ubuntu", v.version);
    assert_eq!("x86_64", v.machine);

    let v = KernelVersion::from_identification(None, "4.4.4-4");
    assert_eq!((4, 4, 4, 4), (v.kernel, v.major, v.minor, v.build_id));
    assert_eq!("4.4.4-4", v.release);
    assert_eq!("", v.version);
    assert_eq!("", v.machine);

    let v = KernelVersion::from_identification(None, "");
    assert_eq!((0, 0, 0, 0), (v.kernel, v.major, v.minor, v.build_id));
}

#[test]
fn version_of_this_host_is_that_of_its_identification() {
    let v = KernelVersion::from_host("1.2.3-4");
    match uname::uname() {
        Ok(info) => {
            assert_eq!(info.release, v.release);
            assert_eq!(info.version, v.version);
            assert_eq!(info.machine, v.machine);
            let again = KernelVersion::new(&info.release, &info.version, &info.machine);
            assert_eq!(
                (again.kernel, again.major, again.minor, again.build_id),
                (v.kernel, v.major, v.minor, v.build_id)
            );
        }
        Err(_) => {
            assert_eq!("1.2.3-4", v.release);
            assert_eq!((1, 2, 3, 4), (v.kernel, v.major, v.minor, v.build_id));
        }
    }
}

#[test]
fn a_clone_is_equal_in_every_field() {
    let v = KernelVersion::new("3.10.0-957.10.1.el7.x86_64", "v", "m");
    let c = v.clone();
    assert_eq!((v.kernel, v.major, v.minor, v.build_id), (c.kernel, c.major, c.minor, c.build_id));
    assert_eq!((v.release, v.version, v.machine), (c.release, c.version, c.machine));
}
