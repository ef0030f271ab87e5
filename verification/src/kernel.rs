//! Kernel versions: the release string of a kernel read as a comparable
//! tuple of numbers.
//!
//! A release such as `5.15.0-1053-gcp` opens with three dotted numbers and,
//! optionally, a hyphen and a build number. `parse_release` says which
//! numbers a release writes; a release that does not open this way writes
//! none, and all four numbers are zero. The strings themselves are always
//! kept as they were given.

use vstd::prelude::*;
use crate::text::{
    all_digits, chars_of, decimal_digits, decimal_value, is_digit, is_digit_char,
    lemma_decimal_round_trip, parse_decimal, push_decimal,
};

verus! {

/// The index at which the run of decimal digits that starts at `from` ends:
/// the first index at or after `from` that holds no digit, or the length of
/// `s`.
pub open spec fn digits_end(s: Seq<char>, from: int) -> int
    decreases s.len() - from,
{
    if 0 <= from < s.len() && is_digit(s[from]) {
        digits_end(s, from + 1)
    } else {
        from
    }
}

/// Where the numbers of a release stand. The kernel number is
/// `[0, kernel_end)`; a dot follows, then the major number up to `major_end`;
/// another dot, then the minor number up to `minor_end`. Where a hyphen and
/// at least one digit follow, the build number runs from `minor_end + 1` to
/// `build_end`.
pub struct ReleaseSpans {
    pub kernel_end: int,
    pub major_end: int,
    pub minor_end: int,
    pub build_end: Option<int>,
}

/// The spans of the numbers that `s` opens with, or `None` when `s` does not
/// open with digits, a dot, digits, a dot and digits.
pub open spec fn release_spans(s: Seq<char>) -> Option<ReleaseSpans> {
    let kernel_end = digits_end(s, 0);
    let major_end = digits_end(s, kernel_end + 1);
    let minor_end = digits_end(s, major_end + 1);
    let build_end = digits_end(s, minor_end + 1);
    if kernel_end == 0 || kernel_end >= s.len() || s[kernel_end] != '.' {
        None
    } else if major_end == kernel_end + 1 || major_end >= s.len() || s[major_end] != '.' {
        None
    } else if minor_end == major_end + 1 {
        None
    } else {
        Some(
            ReleaseSpans {
                kernel_end,
                major_end,
                minor_end,
                build_end: if minor_end < s.len() && s[minor_end] == '-' && build_end > minor_end
                    + 1 {
                    Some(build_end)
                } else {
                    None
                },
            },
        )
    }
}

/// The number that a run of digits stands for in a version: its decimal
/// value, or zero where that value does not fit in 64 bits.
pub open spec fn number_of(digits: Seq<char>) -> u64 {
    if decimal_value(digits) <= u64::MAX {
        decimal_value(digits) as u64
    } else {
        0
    }
}

/// The four numbers of a version.
pub struct ReleaseNumbers {
    pub kernel: u64,
    pub major: u64,
    pub minor: u64,
    pub build_id: u64,
}

/// The numbers that the release `s` writes: those of its spans, with zero for
/// an absent build number, and four zeros where `s` has no spans.
pub open spec fn release_numbers(s: Seq<char>) -> ReleaseNumbers {
    match release_spans(s) {
        Some(spans) => ReleaseNumbers {
            kernel: number_of(s.subrange(0, spans.kernel_end)),
            major: number_of(s.subrange(spans.kernel_end + 1, spans.major_end)),
            minor: number_of(s.subrange(spans.major_end + 1, spans.minor_end)),
            build_id: match spans.build_end {
                Some(build_end) => number_of(s.subrange(spans.minor_end + 1, build_end)),
                None => 0,
            },
        },
        None => ReleaseNumbers { kernel: 0, major: 0, minor: 0, build_id: 0 },
    }
}

/// A kernel version as a mathematical value.
pub struct KernelVersionView {
    pub kernel: u64,
    pub major: u64,
    pub minor: u64,
    pub build_id: u64,
    pub release: Seq<char>,
    pub version: Seq<char>,
    pub machine: Seq<char>,
}

/// The version that the three strings of a kernel identification give: the
/// numbers of the release, and the strings unchanged.
pub open spec fn parse_release(
    release: Seq<char>,
    version: Seq<char>,
    machine: Seq<char>,
) -> KernelVersionView {
    let numbers = release_numbers(release);
    KernelVersionView {
        kernel: numbers.kernel,
        major: numbers.major,
        minor: numbers.minor,
        build_id: numbers.build_id,
        release,
        version,
        machine,
    }
}

/// The version of a kernel: four numbers and the raw strings they came with.
pub struct KernelVersion {
    pub kernel: u64,
    pub major: u64,
    pub minor: u64,
    pub build_id: u64,
    pub release: String,
    pub version: String,
    pub machine: String,
}

impl View for KernelVersion {
    type V = KernelVersionView;

    open spec fn view(&self) -> KernelVersionView {
        KernelVersionView {
            kernel: self.kernel,
            major: self.major,
            minor: self.minor,
            build_id: self.build_id,
            release: self.release@,
            version: self.version@,
            machine: self.machine@,
        }
    }
}

impl KernelVersionView {
    /// Whether the numbers are those that the release string writes.
    pub open spec fn is_parsed(self) -> bool {
        self == parse_release(self.release, self.version, self.machine)
    }

    /// Whether this kernel is recent enough for extended tracing: 4.14 or
    /// later.
    pub open spec fn has_ebpf_support(self) -> bool {
        !(self.kernel < 4 || (self.kernel == 4 && self.major < 14))
    }

    /// Whether this kernel reports the secure-boot state in its boot
    /// parameters: 4.11 or later.
    pub open spec fn has_secure_boot_param(self) -> bool {
        !(self.kernel < 4 || (self.kernel == 4 && self.major < 11))
    }

    /// The three leading numbers in decimal, joined by dots.
    pub open spec fn short_release(self) -> Seq<char> {
        decimal_digits(self.kernel as nat) + seq!['.'] + decimal_digits(self.major as nat)
            + seq!['.'] + decimal_digits(self.minor as nat)
    }
}

/// What the running kernel says of itself.
pub struct KernelIdentification {
    pub release: String,
    pub version: String,
    pub machine: String,
}

/// The version that a host yields: that of the kernel's identification where
/// there is one, else that of the fallback release with empty version and
/// machine.
pub open spec fn identified(
    ident: Option<KernelIdentification>,
    fallback_release: Seq<char>,
) -> KernelVersionView {
    match ident {
        Some(id) => parse_release(id.release@, id.version@, id.machine@),
        None => parse_release(fallback_release, Seq::empty(), Seq::empty()),
    }
}

/// The run of digits that starts at `from` stays inside `s`, holds digits
/// only, and is followed by no digit.
pub proof fn lemma_digits_end(s: Seq<char>, from: int)
    requires
        0 <= from <= s.len(),
    ensures
        from <= digits_end(s, from) <= s.len(),
        all_digits(s.subrange(from, digits_end(s, from))),
        digits_end(s, from) < s.len() ==> !is_digit(s[digits_end(s, from)]),
    decreases s.len() - from,
{
    if from < s.len() && is_digit(s[from]) {
        lemma_digits_end(s, from + 1);
        let end = digits_end(s, from);
        assert forall|i: int| 0 <= i < end - from implies is_digit(
            #[trigger] s.subrange(from, end)[i],
        ) by {
            if i > 0 {
                assert(s.subrange(from, end)[i] == s.subrange(from + 1, end)[i - 1]);
            }
        }
    }
}

/// A stretch of digits that no digit follows is the run that starts where it
/// starts.
pub proof fn lemma_digits_end_of_run(s: Seq<char>, from: int, to: int)
    requires
        0 <= from <= to <= s.len(),
        all_digits(s.subrange(from, to)),
        to < s.len() ==> !is_digit(s[to]),
    ensures
        digits_end(s, from) == to,
    decreases to - from,
{
    if from < to {
        assert(s[from] == s.subrange(from, to)[0]);
        assert forall|i: int| 0 <= i < to - (from + 1) implies is_digit(
            #[trigger] s.subrange(from + 1, to)[i],
        ) by {
            assert(s.subrange(from + 1, to)[i] == s.subrange(from, to)[i + 1]);
        }
        lemma_digits_end_of_run(s, from + 1, to);
    }
}

/// A run of digits reaches at least as far as any stretch of digits that
/// starts where it starts.
pub proof fn lemma_digits_end_at_least(s: Seq<char>, from: int, to: int)
    requires
        0 <= from <= to <= s.len(),
        all_digits(s.subrange(from, to)),
    ensures
        to <= digits_end(s, from) <= s.len(),
    decreases to - from,
{
    if from < to {
        assert(s[from] == s.subrange(from, to)[0]);
        assert forall|i: int| 0 <= i < to - (from + 1) implies is_digit(
            #[trigger] s.subrange(from + 1, to)[i],
        ) by {
            assert(s.subrange(from + 1, to)[i] == s.subrange(from, to)[i + 1]);
        }
        lemma_digits_end_at_least(s, from + 1, to);
    } else {
        lemma_digits_end(s, from);
    }
}

/// Whether `d` writes a number: one decimal digit or more.
pub open spec fn is_number(d: Seq<char>) -> bool {
    d.len() > 0 && all_digits(d)
}

/// Three runs of digits joined by dots.
pub open spec fn dotted(k: Seq<char>, m: Seq<char>, n: Seq<char>) -> Seq<char> {
    k + seq!['.'] + m + seq!['.'] + n
}

/// Whether `s` is the numbers `k`, `m` and `n`, joined by dots and followed
/// by `rest`.
pub open spec fn opens_with_numbers(
    s: Seq<char>,
    k: Seq<char>,
    m: Seq<char>,
    n: Seq<char>,
    rest: Seq<char>,
) -> bool {
    is_number(k) && is_number(m) && is_number(n) && s == dotted(k, m, n) + rest
}

/// Whether `rest` can follow a minor number that has no build number after
/// it: it opens with no digit, and with no hyphen that a digit follows.
pub open spec fn has_no_build_number(rest: Seq<char>) -> bool {
    rest.len() == 0 || (!is_digit(rest[0]) && !(rest[0] == '-' && rest.len() >= 2 && is_digit(
        rest[1],
    )))
}

/// The spans of a release that opens with the numbers `k`, `m` and `n`, where
/// `rest` opens with no digit.
proof fn lemma_spans_of_dotted(
    s: Seq<char>,
    k: Seq<char>,
    m: Seq<char>,
    n: Seq<char>,
    rest: Seq<char>,
)
    requires
        opens_with_numbers(s, k, m, n, rest),
        rest.len() == 0 || !is_digit(rest[0]),
    ensures
        ({
            let a = k.len() as int;
            let b = a + 1 + m.len();
            let c = b + 1 + n.len();
            &&& digits_end(s, 0) == a
            &&& digits_end(s, a + 1) == b
            &&& digits_end(s, b + 1) == c
            &&& s.subrange(0, a) == k
            &&& s.subrange(a + 1, b) == m
            &&& s.subrange(b + 1, c) == n
            &&& s.subrange(c, s.len() as int) == rest
            &&& s[a] == '.'
            &&& s[b] == '.'
        }),
{
    let a = k.len() as int;
    let b = a + 1 + m.len();
    let c = b + 1 + n.len();
    assert(s.len() == c + rest.len());
    assert(s.subrange(0, a) =~= k);
    assert(s.subrange(a + 1, b) =~= m);
    assert(s.subrange(b + 1, c) =~= n);
    assert(s.subrange(c, s.len() as int) =~= rest);
    assert(s[a] == '.');
    assert(s[b] == '.');
    if c < s.len() {
        assert(s[c] == rest[0]);
    }
    lemma_digits_end_of_run(s, 0, a);
    lemma_digits_end_of_run(s, a + 1, b);
    lemma_digits_end_of_run(s, b + 1, c);
}

/// A release made of three dotted numbers, a hyphen and a build number
/// writes exactly these four numbers, whatever follows, as long as no
/// further digit follows the build number.
pub proof fn lemma_release_with_build_number(
    k: Seq<char>,
    m: Seq<char>,
    n: Seq<char>,
    b: Seq<char>,
    rest: Seq<char>,
)
    requires
        is_number(k),
        is_number(m),
        is_number(n),
        is_number(b),
        rest.len() == 0 || !is_digit(rest[0]),
    ensures
        release_numbers(dotted(k, m, n) + seq!['-'] + b + rest) == (ReleaseNumbers {
            kernel: number_of(k),
            major: number_of(m),
            minor: number_of(n),
            build_id: number_of(b),
        }),
{
    let s = dotted(k, m, n) + seq!['-'] + b + rest;
    let tail = seq!['-'] + b + rest;
    assert(s =~= dotted(k, m, n) + tail);
    assert(tail[0] == '-');
    lemma_spans_of_dotted(s, k, m, n, tail);
    let c = (k.len() + m.len() + 2 + n.len()) as int;
    let d = c + 1 + b.len();
    assert(s[c] == tail[0]);
    assert(s.subrange(c + 1, d) =~= b);
    if d < s.len() {
        assert(s[d] == rest[0]);
    }
    lemma_digits_end_of_run(s, c + 1, d);
}

/// A release made of three dotted numbers with no build number after them
/// writes exactly these three numbers, and zero for the build number.
pub proof fn lemma_release_without_build_number(
    k: Seq<char>,
    m: Seq<char>,
    n: Seq<char>,
    rest: Seq<char>,
)
    requires
        is_number(k),
        is_number(m),
        is_number(n),
        has_no_build_number(rest),
    ensures
        release_numbers(dotted(k, m, n) + rest) == (ReleaseNumbers {
            kernel: number_of(k),
            major: number_of(m),
            minor: number_of(n),
            build_id: 0,
        }),
{
    let s = dotted(k, m, n) + rest;
    lemma_spans_of_dotted(s, k, m, n, rest);
    let c = (k.len() + m.len() + 2 + n.len()) as int;
    if c < s.len() {
        assert(s[c] == rest[0]);
        if c + 1 < s.len() {
            assert(s[c + 1] == rest[1]);
        }
    }
}

/// A release has spans exactly when it opens with three dotted numbers.
pub proof fn lemma_release_spans_iff(s: Seq<char>)
    ensures
        release_spans(s) is Some <==> exists|
            k: Seq<char>,
            m: Seq<char>,
            n: Seq<char>,
            rest: Seq<char>,
        | opens_with_numbers(s, k, m, n, rest),
{
    if release_spans(s) is Some {
        let spans = release_spans(s).unwrap();
        let a = spans.kernel_end;
        let b = spans.major_end;
        let c = spans.minor_end;
        lemma_digits_end(s, 0);
        lemma_digits_end(s, a + 1);
        lemma_digits_end(s, b + 1);
        let k = s.subrange(0, a);
        let m = s.subrange(a + 1, b);
        let n = s.subrange(b + 1, c);
        let rest = s.subrange(c, s.len() as int);
        assert(s =~= dotted(k, m, n) + rest);
        assert(opens_with_numbers(s, k, m, n, rest));
    }
    if exists|k: Seq<char>, m: Seq<char>, n: Seq<char>, rest: Seq<char>|
        opens_with_numbers(s, k, m, n, rest) {
        let (k, m, n, rest) = choose|
            k: Seq<char>,
            m: Seq<char>,
            n: Seq<char>,
            rest: Seq<char>,
        | opens_with_numbers(s, k, m, n, rest);
        let a = k.len() as int;
        let b = a + 1 + m.len();
        let c = b + 1 + n.len();
        assert(s.len() == c + rest.len());
        assert(s.subrange(0, a) =~= k);
        assert(s.subrange(a + 1, b) =~= m);
        assert(s.subrange(b + 1, c) =~= n);
        assert(s[a] == '.');
        assert(s[b] == '.');
        lemma_digits_end_of_run(s, 0, a);
        lemma_digits_end_of_run(s, a + 1, b);
        lemma_digits_end_at_least(s, b + 1, c);
    }
}

/// A release that does not open with three dotted numbers writes four zeros.
pub proof fn lemma_unmatched_release_is_zero(s: Seq<char>)
    requires
        forall|k: Seq<char>, m: Seq<char>, n: Seq<char>, rest: Seq<char>|
            !opens_with_numbers(s, k, m, n, rest),
    ensures
        release_numbers(s) == (ReleaseNumbers { kernel: 0, major: 0, minor: 0, build_id: 0 }),
{
    lemma_release_spans_iff(s);
}

/// A parsed version gives back the three strings it was parsed from, and its
/// numbers are those of its release.
pub proof fn lemma_parse_release_keeps_strings(
    release: Seq<char>,
    version: Seq<char>,
    machine: Seq<char>,
)
    ensures
        parse_release(release, version, machine).release == release,
        parse_release(release, version, machine).version == version,
        parse_release(release, version, machine).machine == machine,
        parse_release(release, version, machine).kernel == release_numbers(release).kernel,
        parse_release(release, version, machine).major == release_numbers(release).major,
        parse_release(release, version, machine).minor == release_numbers(release).minor,
        parse_release(release, version, machine).build_id == release_numbers(release).build_id,
        parse_release(release, version, machine).is_parsed(),
{
}

/// The short release of a version is itself a release, and it writes the
/// three leading numbers of the version and no build number.
pub proof fn lemma_short_release_round_trip(v: KernelVersionView)
    ensures
        release_numbers(v.short_release()) == (ReleaseNumbers {
            kernel: v.kernel,
            major: v.major,
            minor: v.minor,
            build_id: 0,
        }),
{
    let k = decimal_digits(v.kernel as nat);
    let m = decimal_digits(v.major as nat);
    let n = decimal_digits(v.minor as nat);
    lemma_decimal_round_trip(v.kernel as nat);
    lemma_decimal_round_trip(v.major as nat);
    lemma_decimal_round_trip(v.minor as nat);
    lemma_release_without_build_number(k, m, n, Seq::empty());
    assert(dotted(k, m, n) + Seq::<char>::empty() =~= v.short_release());
}

/// Finds the end of the run of digits that starts at `from`.
fn scan_digits(chars: &Vec<char>, from: usize) -> (end: usize)
    requires
        from <= chars.len(),
    ensures
        end == digits_end(chars@, from as int),
        from <= end <= chars.len(),
        all_digits(chars@.subrange(from as int, end as int)),
{
    let mut end: usize = from;
    while end < chars.len() && is_digit_char(chars[end])
        invariant
            from <= end <= chars.len(),
            digits_end(chars@, from as int) == digits_end(chars@, end as int),
        decreases chars.len() - end,
    {
        end = end + 1;
    }
    proof {
        lemma_digits_end(chars@, from as int);
    }
    end
}

/// Reads the digits `chars[from..to]` as a version number.
fn number_in(chars: &Vec<char>, from: usize, to: usize) -> (n: u64)
    requires
        from <= to <= chars.len(),
        all_digits(chars@.subrange(from as int, to as int)),
    ensures
        n == number_of(chars@.subrange(from as int, to as int)),
{
    match parse_decimal(chars, from, to) {
        Some(n) => n,
        None => 0,
    }
}

/// Reads the numbers that a release writes.
pub fn read_release_numbers(chars: &Vec<char>) -> (numbers: ReleaseNumbers)
    ensures
        numbers == release_numbers(chars@),
{
    let zero = ReleaseNumbers { kernel: 0, major: 0, minor: 0, build_id: 0 };
    let len = chars.len();
    let kernel_end = scan_digits(chars, 0);
    if kernel_end == 0 || kernel_end >= len || chars[kernel_end] != '.' {
        return zero;
    }
    let major_end = scan_digits(chars, kernel_end + 1);
    if major_end == kernel_end + 1 || major_end >= len || chars[major_end] != '.' {
        return zero;
    }
    let minor_end = scan_digits(chars, major_end + 1);
    if minor_end == major_end + 1 {
        return zero;
    }
    let mut build_id: u64 = 0;
    if minor_end < len && chars[minor_end] == '-' {
        let build_end = scan_digits(chars, minor_end + 1);
        if build_end > minor_end + 1 {
            build_id = number_in(chars, minor_end + 1, build_end);
        }
    }
    ReleaseNumbers {
        kernel: number_in(chars, 0, kernel_end),
        major: number_in(chars, kernel_end + 1, major_end),
        minor: number_in(chars, major_end + 1, minor_end),
        build_id,
    }
}

/// Calls `uname::uname`, which asks the running kernel for its
/// identification, and keeps the release, version and machine strings of the
/// answer; `None` where the call fails. Nothing is claimed of the strings:
/// they depend on the machine.
#[verifier::external_body]
fn host_identification() -> (ident: Option<KernelIdentification>) {
    match uname::uname() {
        Ok(info) => Some(
            KernelIdentification {
                release: info.release,
                version: info.version,
                machine: info.machine,
            },
        ),
        Err(_) => None,
    }
}

impl Default for KernelVersion {
    /// The zero version with empty strings.
    fn default() -> (kv: KernelVersion)
        ensures
            kv@ == (KernelVersionView {
                kernel: 0,
                major: 0,
                minor: 0,
                build_id: 0,
                release: Seq::empty(),
                version: Seq::empty(),
                machine: Seq::empty(),
            }),
    {
        KernelVersion {
            kernel: 0,
            major: 0,
            minor: 0,
            build_id: 0,
            release: String::new(),
            version: String::new(),
            machine: String::new(),
        }
    }
}

impl Clone for KernelVersion {
    fn clone(&self) -> (kv: KernelVersion)
        ensures
            kv == *self,
    {
        KernelVersion {
            kernel: self.kernel,
            major: self.major,
            minor: self.minor,
            build_id: self.build_id,
            release: self.release.clone(),
            version: self.version.clone(),
            machine: self.machine.clone(),
        }
    }
}

impl KernelVersion {
    /// Builds the version that `release` writes. `version` and `machine` are
    /// carried through unchanged, and so is `release` itself, whether or not
    /// it opens with numbers.
    pub fn new(release: &str, version: &str, machine: &str) -> (kv: KernelVersion)
        ensures
            kv@ == parse_release(release@, version@, machine@),
            kv@.is_parsed(),
    {
        let chars = chars_of(release);
        let numbers = read_release_numbers(&chars);
        KernelVersion {
            kernel: numbers.kernel,
            major: numbers.major,
            minor: numbers.minor,
            build_id: numbers.build_id,
            release: release.to_owned(),
            version: version.to_owned(),
            machine: machine.to_owned(),
        }
    }

    /// The version of a host from what was learnt of it: the kernel's own
    /// identification where there is one, else `fallback_release` alone.
    pub fn from_identification(
        ident: Option<KernelIdentification>,
        fallback_release: &str,
    ) -> (kv: KernelVersion)
        ensures
            kv@ == identified(ident, fallback_release@),
            kv@.is_parsed(),
    {
        proof {
            reveal_strlit("");
            assert(""@ =~= Seq::<char>::empty());
        }
        match ident {
            Some(id) => KernelVersion::new(
                id.release.as_str(),
                id.version.as_str(),
                id.machine.as_str(),
            ),
            None => KernelVersion::new(fallback_release, "", ""),
        }
    }

    /// The version of the running host. The kernel is asked for its
    /// identification; where it gives none, `fallback_release` stands in for
    /// the release, with empty version and machine.
    ///
    /// What the kernel answers is not known in advance, so the result is one
    /// of the versions that `identified` allows, and its numbers are always
    /// those of its own release string.
    pub fn from_host(fallback_release: &str) -> (kv: KernelVersion)
        ensures
            kv@.is_parsed(),
            exists|ident: Option<KernelIdentification>|
                kv@ == #[trigger] identified(ident, fallback_release@),
    {
        let ident = host_identification();
        KernelVersion::from_identification(ident, fallback_release)
    }

    /// Whether this kernel is recent enough for extended tracing.
    pub fn has_ebpf_support(&self) -> (r: bool)
        ensures
            r == self@.has_ebpf_support(),
    {
        !(self.kernel < 4 || (self.kernel == 4 && self.major < 14))
    }

    /// Whether this kernel reports the secure-boot state in its boot
    /// parameters.
    pub fn has_secure_boot_param(&self) -> (r: bool)
        ensures
            r == self@.has_secure_boot_param(),
    {
        !(self.kernel < 4 || (self.kernel == 4 && self.major < 11))
    }

    /// The three leading numbers as `kernel.major.minor`.
    pub fn short_release(&self) -> (r: String)
        ensures
            r@ == self@.short_release(),
    {
        proof {
            reveal_strlit(".");
        }
        let mut out = String::new();
        push_decimal(&mut out, self.kernel);
        out.append(".");
        push_decimal(&mut out, self.major);
        out.append(".");
        push_decimal(&mut out, self.minor);
        assert(out@ =~= self@.short_release());
        out
    }

    pub fn kernel(&self) -> (r: u64)
        ensures
            r == self@.kernel,
    {
        self.kernel
    }

    pub fn major(&self) -> (r: u64)
        ensures
            r == self@.major,
    {
        self.major
    }

    pub fn minor(&self) -> (r: u64)
        ensures
            r == self@.minor,
    {
        self.minor
    }

    pub fn build_id(&self) -> (r: u64)
        ensures
            r == self@.build_id,
    {
        self.build_id
    }

    pub fn release(&self) -> (r: String)
        ensures
            r@ == self@.release,
    {
        self.release.clone()
    }

    pub fn version(&self) -> (r: String)
        ensures
            r@ == self@.version,
    {
        self.version.clone()
    }

    pub fn machine(&self) -> (r: String)
        ensures
            r@ == self@.machine,
    {
        self.machine.clone()
    }
}

} // verus!
