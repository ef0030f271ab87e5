//! What is known of a host: its distribution, its name and its kernel, and
//! the capability questions that are answered from them.
//!
//! A `HostInfo` is built from what the caller has read: the lines of the
//! os-release file, the contents of the hostname files that could be read,
//! and the kernel version. Questions that need the file system or the kernel
//! take the caller's probe as an argument.

use vstd::prelude::*;
use crate::kernel::{KernelVersion, KernelVersionView};
use crate::text::{chars_of, contains, has_prefix, has_substring, same_text, starts_with};

verus! {

/// The build number from which extended tracing is present in the 3.10
/// kernel of RHEL 7.6.
pub const MIN_RHEL_BUILD_ID: u64 = 957;

/// The secure-boot state of a host, as the kernel's EFI code names it.
pub enum SecureBootStatus {
    Enabled,
    Disabled,
    /// Secure boot seems to be off, but the boot loader does not say enough
    /// to be sure.
    NotDetermined,
    /// No detection was made yet.
    Unset,
}

impl SecureBootStatus {
    /// The number that the kernel uses for this state.
    pub open spec fn spec_code(self) -> u8 {
        match self {
            SecureBootStatus::Enabled => 3,
            SecureBootStatus::Disabled => 2,
            SecureBootStatus::NotDetermined => 1,
            SecureBootStatus::Unset => 0,
        }
    }

    /// The number that the kernel uses for this state.
    pub fn code(&self) -> (r: u8)
        ensures
            r == self.spec_code(),
    {
        match self {
            SecureBootStatus::Enabled => 3,
            SecureBootStatus::Disabled => 2,
            SecureBootStatus::NotDetermined => 1,
            SecureBootStatus::Unset => 0,
        }
    }
}

impl Default for SecureBootStatus {
    fn default() -> (r: SecureBootStatus)
        ensures
            r == SecureBootStatus::Unset,
    {
        SecureBootStatus::Unset
    }
}

/// A host as a mathematical value.
pub struct HostInfoView {
    pub os: Seq<char>,
    pub build: Seq<char>,
    pub distro: Seq<char>,
    pub hostname: Seq<char>,
    pub kernel: KernelVersionView,
}

impl HostInfoView {
    /// Container-Optimized OS: the id says so and a build id is present.
    pub open spec fn is_cos(self) -> bool {
        self.os == "cos"@ && self.build.len() > 0
    }

    pub open spec fn is_coreos(self) -> bool {
        self.os == "coreos"@
    }

    pub open spec fn is_docker_desktop(self) -> bool {
        self.os == "Docker Desktop"@
    }

    pub open spec fn is_ubuntu(self) -> bool {
        self.os == "ubuntu"@
    }

    /// Garden Linux is recognised by its pretty name.
    pub open spec fn is_garden(self) -> bool {
        contains(self.distro, "Garden Linux"@)
    }

    /// RHEL 7.6 or later of the 7 series, whose 3.10 kernel has extended
    /// tracing from build 957 on. Any `rhel` host is taken by its kernel
    /// numbers alone; a `centos` host only where its release names `.el7.`.
    pub open spec fn is_rhel76(self) -> bool {
        &&& self.os == "rhel"@ || (self.os == "centos"@ && contains(
            self.kernel.release,
            ".el7."@,
        ))
        &&& self.kernel.kernel == 3
        &&& self.kernel.major == 10
        &&& self.kernel.build_id >= MIN_RHEL_BUILD_ID
    }

    /// RHEL 8.6: any `rhel` host, or an `rhcos` host whose release names
    /// `.el8_6`.
    pub open spec fn is_rhel86(self) -> bool {
        self.os == "rhel"@ || (self.os == "rhcos"@ && contains(self.kernel.release, ".el8_6"@))
    }

    /// Extended tracing is there on RHEL 7.6, whatever the kernel numbers
    /// say, and otherwise where the kernel is recent enough.
    pub open spec fn has_ebpf_support(self) -> bool {
        self.is_rhel76() || self.kernel.has_ebpf_support()
    }
}

/// What is known of a host.
pub struct HostInfo {
    /// The distribution id.
    pub os: String,
    /// The build id of the distribution.
    pub build: String,
    /// The pretty name of the distribution.
    pub distro: String,
    pub hostname: String,
    pub kernel: KernelVersion,
}

impl View for HostInfo {
    type V = HostInfoView;

    open spec fn view(&self) -> HostInfoView {
        HostInfoView {
            os: self.os@,
            build: self.build@,
            distro: self.distro@,
            hostname: self.hostname@,
            kernel: self.kernel@,
        }
    }
}

impl Default for HostInfo {
    /// A host of which nothing is known: empty strings and the zero kernel
    /// version.
    fn default() -> (host: HostInfo)
        ensures
            host@.os == Seq::<char>::empty(),
            host@.build == Seq::<char>::empty(),
            host@.distro == Seq::<char>::empty(),
            host@.hostname == Seq::<char>::empty(),
            host@.kernel == (KernelVersionView {
                kernel: 0,
                major: 0,
                minor: 0,
                build_id: 0,
                release: Seq::empty(),
                version: Seq::empty(),
                machine: Seq::empty(),
            }),
    {
        HostInfo {
            os: String::new(),
            build: String::new(),
            distro: String::new(),
            hostname: String::new(),
            kernel: KernelVersion::default(),
        }
    }
}

/// The character views of a list of strings.
pub open spec fn texts(lines: Seq<String>) -> Seq<Seq<char>> {
    Seq::new(lines.len(), |i: int| lines[i]@)
}

/// The value of an os-release line that opens with `key`: what follows the
/// key and the one separator after it. A line that ends with the key has the
/// empty value.
pub open spec fn value_after(line: Seq<char>, key: Seq<char>) -> Seq<char> {
    if line.len() > key.len() {
        line.skip(key.len() as int + 1)
    } else {
        Seq::empty()
    }
}

/// The value that the lines of an os-release file give to `key`: that of the
/// last line that opens with `key`, or the empty value where no line does.
pub open spec fn last_value(lines: Seq<Seq<char>>, key: Seq<char>) -> Seq<char>
    decreases lines.len(),
{
    if lines.len() == 0 {
        Seq::empty()
    } else if starts_with(lines.last(), key) {
        value_after(lines.last(), key)
    } else {
        last_value(lines.drop_last(), key)
    }
}

/// Where no line opens with `key`, the key has the empty value: absence is
/// no error.
pub proof fn lemma_absent_key_is_empty(lines: Seq<Seq<char>>, key: Seq<char>)
    requires
        forall|i: int| 0 <= i < lines.len() ==> !starts_with(#[trigger] lines[i], key),
    ensures
        last_value(lines, key) == Seq::<char>::empty(),
    decreases lines.len(),
{
    if lines.len() > 0 {
        assert(lines.last() == lines[lines.len() - 1]);
        let head = lines.drop_last();
        assert forall|i: int| 0 <= i < head.len() implies !starts_with(#[trigger] head[i], key) by {
            assert(head[i] == lines[i]);
        }
        lemma_absent_key_is_empty(head, key);
    }
}

/// The last line that opens with `key` gives its value, whatever the lines
/// before it say.
pub proof fn lemma_last_line_wins(lines: Seq<Seq<char>>, key: Seq<char>, i: int)
    requires
        0 <= i < lines.len(),
        starts_with(lines[i], key),
        forall|j: int| i < j < lines.len() ==> !starts_with(#[trigger] lines[j], key),
    ensures
        last_value(lines, key) == value_after(lines[i], key),
    decreases lines.len(),
{
    if i < lines.len() - 1 {
        assert(!starts_with(lines[lines.len() - 1], key));
        let head = lines.drop_last();
        assert(head[i] == lines[i]);
        assert forall|j: int| i < j < head.len() implies !starts_with(#[trigger] head[j], key) by {
            assert(head[j] == lines[j]);
        }
        lemma_last_line_wins(head, key, i);
    }
}

/// The contents of the first hostname file that could be read, or the empty
/// name where none could. `None` stands for a file that could not be read.
pub open spec fn first_readable(candidates: Seq<Option<String>>) -> Seq<char>
    decreases candidates.len(),
{
    if candidates.len() == 0 {
        Seq::empty()
    } else {
        match candidates[0] {
            Some(name) => name@,
            None => first_readable(candidates.drop_first()),
        }
    }
}

/// The host that the sources describe. The three keys open with different
/// letters, so no line counts for two of them.
pub open spec fn host_from(
    os_release: Seq<String>,
    hostnames: Seq<Option<String>>,
    kernel: KernelVersionView,
) -> HostInfoView {
    HostInfoView {
        os: last_value(texts(os_release), "ID"@),
        build: last_value(texts(os_release), "BUILD_ID"@),
        distro: last_value(texts(os_release), "PRETTY_NAME"@),
        hostname: first_readable(hostnames),
        kernel,
    }
}

/// Cuts the value out of a line that opens with a key of `key_len`
/// characters.
fn value_of_line(line: &String, line_len: usize, key_len: usize) -> (value: String)
    requires
        line_len == line@.len(),
    ensures
        value@ == if line@.len() > key_len {
            line@.skip(key_len + 1)
        } else {
            Seq::empty()
        },
{
    if line_len > key_len {
        let rest = line.as_str().substring_char(key_len + 1, line_len);
        assert(rest@ =~= line@.skip(key_len + 1));
        rest.to_owned()
    } else {
        String::new()
    }
}

/// The three values that the lines of an os-release file give.
pub struct OsRelease {
    pub id: String,
    pub build_id: String,
    pub pretty_name: String,
}

/// Reads the distribution id, build id and pretty name from the lines of an
/// os-release file. Lines are taken in order, and a later line overrides an
/// earlier one for the same key.
pub fn read_os_release(lines: &Vec<String>) -> (values: OsRelease)
    ensures
        values.id@ == last_value(texts(lines@), "ID"@),
        values.build_id@ == last_value(texts(lines@), "BUILD_ID"@),
        values.pretty_name@ == last_value(texts(lines@), "PRETTY_NAME"@),
{
    let id_key = chars_of("ID");
    let build_key = chars_of("BUILD_ID");
    let pretty_key = chars_of("PRETTY_NAME");
    proof {
        reveal_strlit("ID");
        reveal_strlit("BUILD_ID");
        reveal_strlit("PRETTY_NAME");
    }
    let mut id = String::new();
    let mut build_id = String::new();
    let mut pretty_name = String::new();
    let mut i: usize = 0;
    assert(texts(lines@).take(0) =~= Seq::<Seq<char>>::empty());
    while i < lines.len()
        invariant
            i <= lines.len(),
            id_key@ == "ID"@,
            build_key@ == "BUILD_ID"@,
            pretty_key@ == "PRETTY_NAME"@,
            id_key@.len() == 2,
            build_key@.len() == 8,
            pretty_key@.len() == 11,
            id@ == last_value(texts(lines@).take(i as int), "ID"@),
            build_id@ == last_value(texts(lines@).take(i as int), "BUILD_ID"@),
            pretty_name@ == last_value(texts(lines@).take(i as int), "PRETTY_NAME"@),
        decreases lines.len() - i,
    {
        let line = &lines[i];
        let chars = chars_of(line.as_str());
        proof {
            let seen = texts(lines@).take(i + 1);
            assert(seen.last() == line@);
            assert(seen.drop_last() =~= texts(lines@).take(i as int));
        }
        if has_prefix(&chars, &id_key) {
            id = value_of_line(line, chars.len(), 2);
        } else if has_prefix(&chars, &build_key) {
            build_id = value_of_line(line, chars.len(), 8);
        } else if has_prefix(&chars, &pretty_key) {
            pretty_name = value_of_line(line, chars.len(), 11);
        }
        proof {
            // a line opens with at most one of the three keys
            reveal_strlit("ID");
            reveal_strlit("BUILD_ID");
            reveal_strlit("PRETTY_NAME");
            if starts_with(line@, "ID"@) {
                assert(line@.take(2)[0] == 'I');
                assert(!starts_with(line@, "BUILD_ID"@)) by {
                    if starts_with(line@, "BUILD_ID"@) {
                        assert(line@.take(8)[0] == 'B');
                    }
                }
                assert(!starts_with(line@, "PRETTY_NAME"@)) by {
                    if starts_with(line@, "PRETTY_NAME"@) {
                        assert(line@.take(11)[0] == 'P');
                    }
                }
            } else if starts_with(line@, "BUILD_ID"@) {
                assert(line@.take(8)[0] == 'B');
                assert(!starts_with(line@, "PRETTY_NAME"@)) by {
                    if starts_with(line@, "PRETTY_NAME"@) {
                        assert(line@.take(11)[0] == 'P');
                    }
                }
            }
        }
        i = i + 1;
    }
    assert(texts(lines@).take(lines.len() as int) =~= texts(lines@));
    OsRelease { id, build_id, pretty_name }
}

/// Picks the host name: the contents of the first candidate that could be
/// read, taken as they are.
pub fn pick_hostname(candidates: &Vec<Option<String>>) -> (name: String)
    ensures
        name@ == first_readable(candidates@),
{
    let mut i: usize = 0;
    assert(candidates@.skip(0) =~= candidates@);
    while i < candidates.len()
        invariant
            i <= candidates.len(),
            first_readable(candidates@) == first_readable(candidates@.skip(i as int)),
        decreases candidates.len() - i,
    {
        proof {
            let rest = candidates@.skip(i as int);
            assert(rest[0] == candidates@[i as int]);
            assert(rest.drop_first() =~= candidates@.skip(i + 1));
        }
        match &candidates[i] {
            Some(name) => {
                return name.clone();
            },
            None => {},
        }
        i = i + 1;
    }
    String::new()
}

/// The root under which the host's file system is mounted when nothing else
/// is configured.
pub open spec fn default_host_root() -> Seq<char> {
    "/host"@
}

/// The root under which the host's file system is found: the configured one,
/// or `/host`.
pub fn host_root(configured: Option<String>) -> (root: String)
    ensures
        root@ == match configured {
            Some(path) => path@,
            None => default_host_root(),
        },
{
    match configured {
        Some(path) => path,
        None => String::from_str("/host"),
    }
}

/// The place of `path` under the host root: the root with the absolute
/// `path` appended.
pub fn host_path(root: &str, path: &str) -> (joined: String)
    ensures
        joined@ == root@ + path@,
{
    let mut joined = String::from_str(root);
    joined.append(path);
    joined
}

/// The file that describes the distribution. It is read in the agent's own
/// file system, not under the host root.
pub fn os_release_location() -> (path: &'static str)
    ensures
        path@ == "/etc/os-release"@,
{
    "/etc/os-release"
}

/// The files that may hold the host name, in the order in which they are
/// tried. Both are under the host root.
pub open spec fn hostname_paths(root: Seq<char>) -> Seq<Seq<char>> {
    seq![root + "/etc/hostname"@, root + "/proc/sys/kernel/hostname"@]
}

/// The files that may hold the host name, in the order in which they are
/// tried.
pub fn hostname_locations(root: &str) -> (paths: Vec<String>)
    ensures
        texts(paths@) == hostname_paths(root@),
{
    let mut paths: Vec<String> = Vec::new();
    paths.push(host_path(root, "/etc/hostname"));
    paths.push(host_path(root, "/proc/sys/kernel/hostname"));
    assert(texts(paths@) =~= hostname_paths(root@));
    paths
}

/// The directory whose presence shows that the host was booted through UEFI.
/// It is under the host root.
pub fn uefi_location(root: &str) -> (path: String)
    ensures
        path@ == root@ + "/sys/firmware/efi"@,
{
    host_path(root, "/sys/firmware/efi")
}

/// The places where the kernel's type metadata may be found for the kernel
/// `release`, in the order in which they are tried: first what the kernel
/// exports through sysfs, then images on disk. The first four are taken as
/// they are; the last four lie under the host root.
pub open spec fn btf_paths(root: Seq<char>, release: Seq<char>) -> Seq<Seq<char>> {
    seq![
        "/sys/kernel/btf/vmlinux"@,
        "/boot/vmlinux-"@ + release,
        "/lib/modules/"@ + release + "/vmlinux-"@ + release,
        "/lib/modules/"@ + release + "/build/vmlinux"@,
        root + "/usr/lib/modules/"@ + release + "/kernel/vmlinux"@,
        root + "/usr/lib/debug/boot/vmlinux-"@ + release,
        root + "/usr/lib/debug/boot/vmlinux-"@ + release + ".debug"@,
        root + "/usr/lib/debug/lib/modules/"@ + release + "/vmlinux"@,
    ]
}

/// Four pieces of text put together.
fn join(a: &str, b: &str, c: &str, d: &str) -> (joined: String)
    ensures
        joined@ == a@ + b@ + c@ + d@,
{
    let mut joined = String::from_str(a);
    joined.append(b);
    joined.append(c);
    joined.append(d);
    joined
}

/// Whether the probe `f` may answer `answer` when asked about `path`.
pub open spec fn answers<A, F: Fn(&str) -> A>(f: F, path: Seq<char>, answer: A) -> bool {
    exists|p: &str| p@ == path && #[trigger] call_ensures(f, (p,), answer)
}

/// Whether the probe `f` said yes to `paths[i]` after it had said no to all
/// the paths before it.
pub open spec fn first_found_at<F: Fn(&str) -> bool>(f: F, paths: Seq<Seq<char>>, i: int) -> bool {
    &&& 0 <= i < paths.len()
    &&& answers(f, paths[i], true)
    &&& forall|j: int| 0 <= j < i ==> #[trigger] answers(f, paths[j], false)
}

/// Whether the probe `f` said no to every one of `paths`.
pub open spec fn found_nowhere<F: Fn(&str) -> bool>(f: F, paths: Seq<Seq<char>>) -> bool {
    forall|i: int| 0 <= i < paths.len() ==> #[trigger] answers(f, paths[i], false)
}

/// What a probe of the running kernel for a feature came to.
#[derive(PartialEq, Eq, Structural, Clone, Copy)]
pub enum ProbeOutcome {
    /// The kernel has the feature.
    Supported,
    /// The kernel does not have the feature.
    NotSupported,
    /// The probe itself failed, so nothing is known.
    Failed,
}

/// Reads the number that a feature probe returned: zero says no, a negative
/// number says that the probe failed, any other number says yes.
pub open spec fn probe_outcome(result: i32) -> ProbeOutcome {
    if result == 0 {
        ProbeOutcome::NotSupported
    } else if result < 0 {
        ProbeOutcome::Failed
    } else {
        ProbeOutcome::Supported
    }
}

/// Executable form of `probe_outcome`.
pub fn classify_probe(result: i32) -> (outcome: ProbeOutcome)
    ensures
        outcome == probe_outcome(result),
{
    if result == 0 {
        ProbeOutcome::NotSupported
    } else if result < 0 {
        ProbeOutcome::Failed
    } else {
        ProbeOutcome::Supported
    }
}

impl ProbeOutcome {
    /// Whether the feature is taken to be available. A probe that failed
    /// counts as available: only a clear no turns the feature off.
    pub open spec fn spec_is_available(self) -> bool {
        self != ProbeOutcome::NotSupported
    }

    /// Whether the feature is taken to be available.
    pub fn is_available(&self) -> (r: bool)
        ensures
            r == self.spec_is_available(),
    {
        match self {
            ProbeOutcome::NotSupported => false,
            _ => true,
        }
    }
}

/// Whether `text` holds `pattern`.
fn text_contains(text: &str, pattern: &str) -> (r: bool)
    ensures
        r == contains(text@, pattern@),
{
    let t = chars_of(text);
    let p = chars_of(pattern);
    has_substring(&t, &p)
}

impl HostInfo {
    /// Describes a host from what was read of it: the lines of its
    /// os-release file (none where the file could not be read, and only
    /// those before the first line that could not be read), the contents of
    /// its hostname files in the order in which they are to be tried, and
    /// its kernel version.
    pub fn new(
        os_release: &Vec<String>,
        hostnames: &Vec<Option<String>>,
        kernel: KernelVersion,
    ) -> (host: HostInfo)
        ensures
            host@ == host_from(os_release@, hostnames@, kernel@),
    {
        let values = read_os_release(os_release);
        HostInfo {
            os: values.id,
            build: values.build_id,
            distro: values.pretty_name,
            hostname: pick_hostname(hostnames),
            kernel,
        }
    }

    /// Whether this host runs Container-Optimized OS.
    pub fn is_cos(&self) -> (r: bool)
        ensures
            r == self@.is_cos(),
    {
        same_text(self.os.as_str(), "cos") && !self.build.as_str().is_empty()
    }

    /// Whether this host runs CoreOS.
    pub fn is_coreos(&self) -> (r: bool)
        ensures
            r == self@.is_coreos(),
    {
        same_text(self.os.as_str(), "coreos")
    }

    /// Whether this host is Docker Desktop.
    pub fn is_docker_desktop(&self) -> (r: bool)
        ensures
            r == self@.is_docker_desktop(),
    {
        same_text(self.os.as_str(), "Docker Desktop")
    }

    /// Whether this host runs Ubuntu.
    pub fn is_ubuntu(&self) -> (r: bool)
        ensures
            r == self@.is_ubuntu(),
    {
        same_text(self.os.as_str(), "ubuntu")
    }

    /// Whether this host runs Garden Linux.
    pub fn is_garden(&self) -> (r: bool)
        ensures
            r == self@.is_garden(),
    {
        text_contains(self.distro.as_str(), "Garden Linux")
    }

    /// A copy of the kernel version of this host.
    pub fn kernel_version(&self) -> (r: Box<KernelVersion>)
        ensures
            *r == self.kernel,
    {
        Box::new(self.kernel.clone())
    }

    /// The distribution id.
    pub fn os_id(&self) -> (r: String)
        ensures
            r@ == self@.os,
    {
        self.os.clone()
    }

    /// The build id of the distribution.
    pub fn build_id(&self) -> (r: String)
        ensures
            r@ == self@.build,
    {
        self.build.clone()
    }

    /// The pretty name of the distribution.
    pub fn distro(&self) -> (r: String)
        ensures
            r@ == self@.distro,
    {
        self.distro.clone()
    }

    /// The name of the host.
    pub fn hostname(&self) -> (r: String)
        ensures
            r@ == self@.hostname,
    {
        self.hostname.clone()
    }

    /// Whether this host is RHEL 7.6 with the backported tracing.
    pub fn is_rhel76(&self) -> (r: bool)
        ensures
            r == self@.is_rhel76(),
    {
        let k = &self.kernel;
        if same_text(self.os.as_str(), "rhel") || (same_text(self.os.as_str(), "centos")
            && text_contains(k.release.as_str(), ".el7.")) {
            return (k.kernel == 3 && k.major == 10) && k.build_id >= MIN_RHEL_BUILD_ID;
        }
        false
    }

    /// Whether this host is RHEL 8.6.
    pub fn is_rhel86(&self) -> (r: bool)
        ensures
            r == self@.is_rhel86(),
    {
        same_text(self.os.as_str(), "rhel") || (same_text(self.os.as_str(), "rhcos")
            && text_contains(self.kernel.release.as_str(), ".el8_6"))
    }

    /// Whether this host has extended tracing.
    pub fn has_ebpf_support(&self) -> (r: bool)
        ensures
            r == self@.has_ebpf_support(),
    {
        self.is_rhel76() || self.kernel.has_ebpf_support()
    }

    /// The places where the type metadata of this host's kernel may be
    /// found, in the order in which they are tried.
    pub fn btf_locations(&self, host_root: &str) -> (paths: Vec<String>)
        ensures
            texts(paths@) == btf_paths(host_root@, self@.kernel.release),
            paths@.len() == 8,
    {
        let release = self.kernel.release.as_str();
        let mut paths: Vec<String> = Vec::new();
        proof {
            reveal_strlit("");
        }
        paths.push(join("/sys/kernel/btf/vmlinux", "", "", ""));
        paths.push(join("/boot/vmlinux-", release, "", ""));
        paths.push(join("/lib/modules/", release, "/vmlinux-", release));
        paths.push(join("/lib/modules/", release, "/build/vmlinux", ""));
        paths.push(join(host_root, "/usr/lib/modules/", release, "/kernel/vmlinux"));
        paths.push(join(host_root, "/usr/lib/debug/boot/vmlinux-", release, ""));
        paths.push(join(host_root, "/usr/lib/debug/boot/vmlinux-", release, ".debug"));
        paths.push(join(host_root, "/usr/lib/debug/lib/modules/", release, "/vmlinux"));
        proof {
            let want = btf_paths(host_root@, self@.kernel.release);
            let got = texts(paths@);
            assert(got.len() == 8);
            assert(got[0] =~= want[0]);
            assert(got[1] =~= want[1]);
            assert(got[2] =~= want[2]);
            assert(got[3] =~= want[3]);
            assert(got[4] =~= want[4]);
            assert(got[5] =~= want[5]);
            assert(got[6] =~= want[6]);
            assert(got[7] =~= want[7]);
            assert(got =~= want);
        }
        paths
    }

    /// Whether the type metadata of this host's kernel can be found.
    ///
    /// `is_present` is asked about the places of `btf_locations`, in order, until
    /// it says yes. The result is `true` where it said yes to one of them,
    /// having said no to all before it, and `false` where it said no to all.
    pub fn has_btf_symbols<F: Fn(&str) -> bool>(&self, host_root: &str, is_present: F) -> (found: bool)
        requires
            forall|p: &str| call_requires(is_present, (p,)),
        ensures
            found ==> exists|i: int|
                first_found_at(is_present, btf_paths(host_root@, self@.kernel.release), i),
            !found ==> found_nowhere(is_present, btf_paths(host_root@, self@.kernel.release)),
    {
        let paths = self.btf_locations(host_root);
        let ghost want = btf_paths(host_root@, self@.kernel.release);
        let mut i: usize = 0;
        while i < paths.len()
            invariant
                i <= paths.len() == 8,
                texts(paths@) == want,
                want == btf_paths(host_root@, self@.kernel.release),
                forall|p: &str| call_requires(is_present, (p,)),
                forall|j: int| 0 <= j < i ==> #[trigger] answers(is_present, want[j], false),
            decreases paths.len() - i,
        {
            let path = paths[i].as_str();
            assert(path@ == texts(paths@)[i as int]);
            let present = is_present(path);
            assert(answers(is_present, want[i as int], present));
            if present {
                assert(first_found_at(is_present, want, i as int));
                return true;
            }
            i = i + 1;
        }
        false
    }

    /// Whether this host was booted through UEFI.
    ///
    /// `is_dir` is asked once, about `uefi_location`: it answers whether the
    /// path is a directory, or `None` where that could not be found out. The
    /// result is `true` only where it answered that it is one.
    pub fn is_uefi<F: Fn(&str) -> Option<bool>>(&self, host_root: &str, is_dir: F) -> (r: bool)
        requires
            forall|p: &str| call_requires(is_dir, (p,)),
        ensures
            exists|answer: Option<bool>|
                r == (answer == Some(true)) && #[trigger] answers(
                    is_dir,
                    host_root@ + "/sys/firmware/efi"@,
                    answer,
                ),
    {
        let path = uefi_location(host_root);
        let answer = is_dir(path.as_str());
        assert(answers(is_dir, host_root@ + "/sys/firmware/efi"@, answer));
        match answer {
            Some(dir) => dir,
            None => false,
        }
    }

    /// Whether the kernel runs tracing programs, from the number that the
    /// probe for the tracing program type returned. A failed probe counts as
    /// support.
    pub fn has_bpf_tracing_support(&self, probe: i32) -> (r: bool)
        ensures
            r == probe_outcome(probe).spec_is_available(),
            r == (probe != 0),
    {
        classify_probe(probe).is_available()
    }

    /// Whether the kernel has ring buffers, from the number that the probe
    /// for the ring-buffer map type returned. A failed probe counts as
    /// support.
    pub fn has_bpf_ringbuf_support(&self, probe: i32) -> (r: bool)
        ensures
            r == probe_outcome(probe).spec_is_available(),
            r == (probe != 0),
    {
        classify_probe(probe).is_available()
    }

    /// The secure-boot state of this host. No detection is made, so the
    /// state is always `Unset`.
    pub fn secure_boot_status(&self) -> (r: SecureBootStatus)
        ensures
            r == SecureBootStatus::Unset,
    {
        SecureBootStatus::Unset
    }
}

/// Describes a host as `HostInfo::new` does, and hands the description out
/// on the heap, for callers that keep it behind a pointer.
pub fn host_info(
    os_release: &Vec<String>,
    hostnames: &Vec<Option<String>>,
    kernel: KernelVersion,
) -> (host: Box<HostInfo>)
    ensures
        host@ == host_from(os_release@, hostnames@, kernel@),
{
    Box::new(HostInfo::new(os_release, hostnames, kernel))
}

} // verus!
