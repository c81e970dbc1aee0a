//! Self-update reasoning: which release asset fits the platform, how
//! versions and tags are normalized and compared, what the check report
//! says, and which archive entries may be extracted.

use vstd::prelude::*;
use core::cmp::Ordering;
use crate::text::{
    chars_eq_str, chars_of, contains, contains_spec, ends_with, ends_with_spec, owned, split_chars, split_spec,
    str_eq, string_from_chars, strip_leading, strip_leading_spec, trim_spec, trim_str,
};

verus! {

/// Whether a text parses as a semantic version (`semver::Version::parse`).
pub uninterp spec fn semver_parses(s: Seq<char>) -> bool;

/// The order of two semantic versions (`Ord` on `semver::Version`).
pub uninterp spec fn semver_order_of(a: Seq<char>, b: Seq<char>) -> Ordering;

/// Whether a text parses as a semantic version (`semver::Version::parse`
/// succeeds).
#[verifier::external_body]
fn semver_valid(s: &str) -> (r: bool)
    ensures
        r == semver_parses(s@),
{
    semver::Version::parse(s).is_ok()
}

/// The order of two semantic versions (`Version::parse` on each, then
/// `Ord::cmp`); both must parse.
#[verifier::external_body]
fn semver_compare(a: &str, b: &str) -> (r: Ordering)
    requires
        semver_parses(a@),
        semver_parses(b@),
    ensures
        r == semver_order_of(a@, b@),
{
    let left = semver::Version::parse(a).unwrap();
    let right = semver::Version::parse(b).unwrap();
    left.cmp(&right)
}

/// The release target for a platform, or why there is none.
pub open spec fn target_for(os: Seq<char>, arch: Seq<char>) -> Result<Seq<char>, Seq<char>> {
    if os == "linux"@ && arch == "x86_64"@ {
        Ok("x86_64-unknown-linux-gnu"@)
    } else if os == "linux"@ && arch == "aarch64"@ {
        Err("Self-updates are not published for Linux ARM64 yet"@)
    } else if os == "macos"@ && arch == "x86_64"@ {
        Ok("x86_64-apple-darwin"@)
    } else if os == "macos"@ && arch == "aarch64"@ {
        Ok("aarch64-apple-darwin"@)
    } else if os == "windows"@ && arch == "x86_64"@ {
        Ok("x86_64-pc-windows-msvc"@)
    } else if os == "windows"@ && arch == "aarch64"@ {
        Err("Self-updates are not published for Windows ARM64 yet"@)
    } else {
        Err("Self-updates are not supported on platform '"@ + os + "' with architecture '"@ + arch + "'"@)
    }
}

/// The release target triple for an operating system and architecture.
pub fn supported_target_triple(os: &str, arch: &str) -> (r: Result<&'static str, String>)
    ensures
        r matches Ok(t) ==> target_for(os@, arch@) == Ok::<Seq<char>, Seq<char>>(t@),
        r matches Err(e) ==> target_for(os@, arch@) == Err::<Seq<char>, Seq<char>>(e@),
{
    proof {
        reveal_strlit("linux");
        reveal_strlit("macos");
        reveal_strlit("windows");
        reveal_strlit("x86_64");
        reveal_strlit("aarch64");
        reveal_strlit("x86_64-unknown-linux-gnu");
        reveal_strlit("x86_64-apple-darwin");
        reveal_strlit("aarch64-apple-darwin");
        reveal_strlit("x86_64-pc-windows-msvc");
        reveal_strlit("Self-updates are not published for Linux ARM64 yet");
        reveal_strlit("Self-updates are not published for Windows ARM64 yet");
        reveal_strlit("Self-updates are not supported on platform '");
        reveal_strlit("' with architecture '");
        reveal_strlit("'");
    }
    let linux = str_eq(os, "linux");
    let macos = str_eq(os, "macos");
    let windows = str_eq(os, "windows");
    let x86 = str_eq(arch, "x86_64");
    let arm = str_eq(arch, "aarch64");
    if linux && x86 {
        Ok("x86_64-unknown-linux-gnu")
    } else if linux && arm {
        Err(owned("Self-updates are not published for Linux ARM64 yet"))
    } else if macos && x86 {
        Ok("x86_64-apple-darwin")
    } else if macos && arm {
        Ok("aarch64-apple-darwin")
    } else if windows && x86 {
        Ok("x86_64-pc-windows-msvc")
    } else if windows && arm {
        Err(owned("Self-updates are not published for Windows ARM64 yet"))
    } else {
        let mut e = owned("Self-updates are not supported on platform '");
        e.append(os);
        e.append("' with architecture '");
        e.append(arch);
        e.append("'");
        Err(e)
    }
}

/// The release asset name for a target: a zip archive for Windows targets,
/// a gzipped tarball otherwise.
pub open spec fn asset_name_spec(target: Seq<char>) -> Seq<char> {
    if contains_spec(target, "windows"@) {
        "swarm-"@ + target + ".zip"@
    } else {
        "swarm-"@ + target + ".tar.gz"@
    }
}

/// The release asset name for a target.
pub fn asset_name_for_target(target: &str) -> (r: String)
    ensures
        r@ == asset_name_spec(target@),
{
    proof {
        reveal_strlit("windows");
        reveal_strlit("swarm-");
        reveal_strlit(".zip");
        reveal_strlit(".tar.gz");
    }
    let t = chars_of(target);
    let w = chars_of("windows");
    let mut name = owned("swarm-");
    name.append(target);
    if contains(t.as_slice(), w.as_slice()) {
        name.append(".zip");
    } else {
        name.append(".tar.gz");
    }
    name
}

/// The name of the executable inside a release archive.
pub fn executable_name(windows: bool) -> (r: &'static str)
    ensures
        windows ==> r@ == "swarm.exe"@,
        !windows ==> r@ == "swarm"@,
{
    proof {
        reveal_strlit("swarm.exe");
        reveal_strlit("swarm");
    }
    if windows {
        "swarm.exe"
    } else {
        "swarm"
    }
}

/// A version with surrounding whitespace and leading `v`s removed.
pub open spec fn normalized_version(v: Seq<char>) -> Seq<char> {
    strip_leading_spec(trim_spec(v), 'v')
}

/// A version with surrounding whitespace and leading `v`s removed.
pub fn normalize_version(version: &str) -> (r: String)
    ensures
        r@ == normalized_version(version@),
{
    let t = trim_str(version);
    let s = strip_leading(t.as_slice(), 'v');
    string_from_chars(s.as_slice())
}

/// The release tag for a requested version: the trimmed text, with a `v`
/// put in front when it does not start with one and is a semantic version.
pub open spec fn normalized_tag(v: Seq<char>) -> Seq<char> {
    let t = trim_spec(v);
    if t.len() > 0 && t[0] == 'v' {
        t
    } else if semver_parses(t) {
        seq!['v'] + t
    } else {
        t
    }
}

/// The release tag for a requested version.
pub fn normalize_tag(version: &str) -> (r: String)
    ensures
        r@ == normalized_tag(version@),
{
    let t = trim_str(version);
    let trimmed = string_from_chars(t.as_slice());
    if t.len() > 0 && t[0] == 'v' {
        trimmed
    } else if semver_valid(trimmed.as_str()) {
        let mut r = owned("v");
        r.append(trimmed.as_str());
        proof {
            reveal_strlit("v");
            assert(r@ =~= seq!['v'] + trimmed@);
        }
        r
    } else {
        trimmed
    }
}

/// The order of two versions once normalized, when both are semantic
/// versions.
pub open spec fn version_order(left: Seq<char>, right: Seq<char>) -> Option<Ordering> {
    if semver_parses(normalized_version(left)) && semver_parses(normalized_version(right)) {
        Some(semver_order_of(normalized_version(left), normalized_version(right)))
    } else {
        None
    }
}

/// Compare two versions, each with or without a leading `v`; `None` when
/// either is not a semantic version.
pub fn compare_versions(left: &str, right: &str) -> (r: Option<Ordering>)
    ensures
        r == version_order(left@, right@),
{
    let l = normalize_version(left);
    let r = normalize_version(right);
    if semver_valid(l.as_str()) && semver_valid(r.as_str()) {
        Some(semver_compare(l.as_str(), r.as_str()))
    } else {
        None
    }
}

/// The report of `swarm update --check`.
pub open spec fn check_report(
    current: Seq<char>,
    release: Seq<char>,
    url: Seq<char>,
    tag: Seq<char>,
    order: Option<Ordering>,
) -> Seq<char> {
    let head = "Current version: "@ + current + "\nAvailable version: "@ + release + "\nRelease: "@ + url + "\n"@;
    match order {
        Some(Ordering::Greater) => head + "An update is available."@,
        Some(Ordering::Equal) => head + "No update required."@,
        Some(Ordering::Less) => head + "No update required: the running build is newer than the latest published release."@,
        None => head + "Unable to compare versions automatically for release tag '"@ + tag
            + "'. Try `swarm update --version "@ + tag + "` to target that release explicitly."@,
    }
}

/// The report of `swarm update --check`: the current, available and release
/// lines, then whether an update is available.
pub fn format_check_report(
    current_version: &str,
    release_version: &str,
    release_url: &str,
    release_tag: &str,
    version_comparison: Option<Ordering>,
) -> (r: String)
    ensures
        r@ == check_report(current_version@, release_version@, release_url@, release_tag@, version_comparison),
{
    proof {
        reveal_strlit("Current version: ");
        reveal_strlit("\nAvailable version: ");
        reveal_strlit("\nRelease: ");
        reveal_strlit("\n");
        reveal_strlit("An update is available.");
        reveal_strlit("No update required.");
        reveal_strlit("No update required: the running build is newer than the latest published release.");
        reveal_strlit("Unable to compare versions automatically for release tag '");
        reveal_strlit("'. Try `swarm update --version ");
        reveal_strlit("` to target that release explicitly.");
    }
    let mut s = owned("Current version: ");
    s.append(current_version);
    s.append("\nAvailable version: ");
    s.append(release_version);
    s.append("\nRelease: ");
    s.append(release_url);
    s.append("\n");
    match version_comparison {
        Some(Ordering::Greater) => s.append("An update is available."),
        Some(Ordering::Equal) => s.append("No update required."),
        Some(Ordering::Less) => s.append(
            "No update required: the running build is newer than the latest published release.",
        ),
        None => {
            s.append("Unable to compare versions automatically for release tag '");
            s.append(release_tag);
            s.append("'. Try `swarm update --version ");
            s.append(release_tag);
            s.append("` to target that release explicitly.");
        },
    }
    s
}

/// What an update run does once the release is known.
#[derive(Debug, Clone, Copy, PartialEq, Eq, Structural)]
pub enum UpdatePlan {
    /// The running build is the release: nothing to install.
    UpToDate,
    /// Download and install the release.
    Install,
}

/// The reason an update is refused when the latest release is older than
/// the running build.
pub open spec fn older_release_reason(release: Seq<char>, current: Seq<char>) -> Seq<char> {
    "The latest published version ("@ + release + ") is older than the running build version ("@ + current
        + ")."@
}

/// Decide an update run: with an explicit version the release is always
/// installed; otherwise an equal release means up to date, an older one is
/// refused, and a newer or incomparable one is installed.
pub fn plan_update(explicit_version: bool, comparison: Option<Ordering>, release_version: &str, current_version: &str) -> (r: Result<UpdatePlan, String>)
    ensures
        explicit_version ==> r == Ok::<UpdatePlan, String>(UpdatePlan::Install),
        !explicit_version && comparison == Some(Ordering::Equal) ==> r == Ok::<UpdatePlan, String>(UpdatePlan::UpToDate),
        !explicit_version && comparison == Some(Ordering::Less) ==> (r matches Err(e) && e@ == older_release_reason(
            release_version@,
            current_version@,
        )),
        !explicit_version && comparison != Some(Ordering::Equal) && comparison != Some(Ordering::Less) ==> r
            == Ok::<UpdatePlan, String>(UpdatePlan::Install),
{
    if explicit_version {
        return Ok(UpdatePlan::Install);
    }
    match comparison {
        Some(Ordering::Equal) => Ok(UpdatePlan::UpToDate),
        Some(Ordering::Less) => {
            let mut e = owned("The latest published version (");
            e.append(release_version);
            e.append(") is older than the running build version (");
            e.append(current_version);
            e.append(").");
            proof {
                reveal_strlit("The latest published version (");
                reveal_strlit(") is older than the running build version (");
                reveal_strlit(").");
            }
            Err(e)
        },
        _ => Ok(UpdatePlan::Install),
    }
}

/// The URL of the release metadata: a tagged release when a version is
/// given, else the latest release.
pub open spec fn release_url_spec(version: Option<Seq<char>>) -> Seq<char> {
    match version {
        Some(v) => "https://api.github.com/repos/JosunLP/AiOfficeSwarm/releases/tags/"@ + normalized_tag(v),
        None => "https://api.github.com/repos/JosunLP/AiOfficeSwarm/releases/latest"@,
    }
}

/// The URL of the release metadata.
pub fn release_url(version: Option<&str>) -> (r: String)
    ensures
        r@ == release_url_spec(match version {
            Some(v) => Some(v@),
            None => None,
        }),
{
    proof {
        reveal_strlit("https://api.github.com/repos/JosunLP/AiOfficeSwarm/releases/tags/");
        reveal_strlit("https://api.github.com/repos/JosunLP/AiOfficeSwarm/releases/latest");
    }
    match version {
        Some(v) => {
            let mut u = owned("https://api.github.com/repos/JosunLP/AiOfficeSwarm/releases/tags/");
            let tag = normalize_tag(v);
            u.append(tag.as_str());
            u
        },
        None => owned("https://api.github.com/repos/JosunLP/AiOfficeSwarm/releases/latest"),
    }
}

/// Whether an archive entry path would leave the extraction directory: it
/// is absolute, or one of its components is `..`.
pub open spec fn escapes_extraction(path: Seq<char>) -> bool {
    (path.len() > 0 && path[0] == '/') || split_spec(path, '/').contains(".."@)
}

/// Accept an archive entry path only when it stays inside the extraction
/// directory.
pub fn validate_relative_archive_path(path: &str) -> (r: Result<(), String>)
    ensures
        escapes_extraction(path@) <==> r is Err,
        r matches Err(e) ==> e@ == "archive entry escapes the extraction directory"@,
{
    proof {
        reveal_strlit("archive entry escapes the extraction directory");
        reveal_strlit("..");
    }
    let chars = chars_of(path);
    let escapes = if chars.len() > 0 && chars[0] == '/' {
        true
    } else {
        let parts = split_chars(chars.as_slice(), '/');
        let mut found = false;
        let mut i: usize = 0;
        while i < parts.len()
            invariant
                i <= parts@.len(),
                forall|q: int| 0 <= q < parts@.len() ==> #[trigger] parts@[q]@ == split_spec(chars@, '/')[q],
                parts@.len() == split_spec(chars@, '/').len(),
                found == exists|q: int| 0 <= q < i && split_spec(chars@, '/')[q] == ".."@,
            decreases parts@.len() - i,
        {
            if chars_eq_str(parts[i].as_slice(), "..") {
                found = true;
            }
            i = i + 1;
        }
        found
    };
    if escapes {
        Err(owned("archive entry escapes the extraction directory"))
    } else {
        Ok(())
    }
}

/// The label of a tar entry type that self-update does not extract, by its
/// type byte.
pub open spec fn tar_kind(b: u8) -> Seq<char> {
    if b == 0x32 {
        "symlink"@
    } else if b == 0x31 {
        "hardlink"@
    } else if b == 0x67 {
        "pax-global-extensions"@
    } else if b == 0x78 {
        "pax-local-extensions"@
    } else if b == 0x4c {
        "gnu-longname"@
    } else if b == 0x4b {
        "gnu-longlink"@
    } else {
        "special"@
    }
}

/// The lowercase hexadecimal digit of a value below sixteen.
pub open spec fn hex_digit(n: u8) -> char {
    if n < 10 {
        ((n + 48) as u8) as char
    } else {
        ((n + 87) as u8) as char
    }
}

/// The byte a tar entry type stands for: a NUL type byte reads as a regular
/// file, `0`.
pub open spec fn tar_type_byte(b: u8) -> u8 {
    if b == 0 {
        0x30
    } else {
        b
    }
}

/// The label of an unsupported tar entry type: its kind and its type byte
/// in two hexadecimal digits.
pub open spec fn tar_label_spec(b: u8) -> Seq<char> {
    let raw = tar_type_byte(b);
    tar_kind(b) + " (byte 0x"@ + seq![hex_digit(raw / 16), hex_digit(raw % 16)] + ")"@
}

/// The lowercase hexadecimal digit of a value below sixteen.
fn hex_digit_exec(n: u8) -> (r: char)
    requires
        n < 16,
    ensures
        r == hex_digit(n),
{
    if n < 10 {
        ((n + 48) as u8) as char
    } else {
        ((n + 87) as u8) as char
    }
}

/// The label of an unsupported tar entry type, such as `symlink (byte 0x32)`.
pub fn tar_entry_type_label(entry_type: u8) -> (r: String)
    ensures
        r@ == tar_label_spec(entry_type),
{
    proof {
        reveal_strlit("symlink");
        reveal_strlit("hardlink");
        reveal_strlit("pax-global-extensions");
        reveal_strlit("pax-local-extensions");
        reveal_strlit("gnu-longname");
        reveal_strlit("gnu-longlink");
        reveal_strlit("special");
        reveal_strlit(" (byte 0x");
        reveal_strlit(")");
    }
    let kind = if entry_type == 0x32 {
        "symlink"
    } else if entry_type == 0x31 {
        "hardlink"
    } else if entry_type == 0x67 {
        "pax-global-extensions"
    } else if entry_type == 0x78 {
        "pax-local-extensions"
    } else if entry_type == 0x4c {
        "gnu-longname"
    } else if entry_type == 0x4b {
        "gnu-longlink"
    } else {
        "special"
    };
    let raw: u8 = if entry_type == 0 {
        0x30
    } else {
        entry_type
    };
    let mut digits: Vec<char> = Vec::new();
    digits.push(hex_digit_exec(raw / 16));
    digits.push(hex_digit_exec(raw % 16));
    let mut s = owned(kind);
    s.append(" (byte 0x");
    let d = string_from_chars(digits.as_slice());
    s.append(d.as_str());
    s.append(")");
    proof {
        assert(d@ =~= seq![hex_digit(raw / 16), hex_digit(raw % 16)]);
    }
    s
}

/// Whether a tar type byte is a regular file or a directory, the only
/// entries self-update extracts.
pub open spec fn tar_extractable(b: u8) -> bool {
    b == 0 || b == 0x30 || b == 0x35
}

/// Accept only regular-file and directory tar entries.
pub fn validate_tar_entry_type(entry_type: u8) -> (r: Result<(), String>)
    ensures
        tar_extractable(entry_type) <==> r is Ok,
        r matches Err(e) ==> e@ == "tar entry type '"@ + tar_label_spec(entry_type)
            + "' is not supported for self-update extraction"@,
{
    if entry_type == 0 || entry_type == 0x30 || entry_type == 0x35 {
        return Ok(());
    }
    let mut e = owned("tar entry type '");
    let label = tar_entry_type_label(entry_type);
    e.append(label.as_str());
    e.append("' is not supported for self-update extraction");
    proof {
        reveal_strlit("tar entry type '");
        reveal_strlit("' is not supported for self-update extraction");
    }
    Err(e)
}

/// The kinds of release archive.
#[derive(Debug, Clone, Copy, PartialEq, Eq, Structural)]
pub enum ArchiveKind {
    /// A zip archive.
    Zip,
    /// A gzipped tarball.
    TarGz,
}

/// The kind of a release archive by its file name.
pub fn archive_kind(name: &str) -> (r: Result<ArchiveKind, String>)
    ensures
        ends_with_spec(name@, ".zip"@) ==> r == Ok::<ArchiveKind, String>(ArchiveKind::Zip),
        !ends_with_spec(name@, ".zip"@) && ends_with_spec(name@, ".tar.gz"@) ==> r == Ok::<ArchiveKind, String>(
            ArchiveKind::TarGz,
        ),
        !ends_with_spec(name@, ".zip"@) && !ends_with_spec(name@, ".tar.gz"@) ==> (r matches Err(e) && e@
            == "Unsupported archive format: "@ + name@),
{
    let n = chars_of(name);
    let zip = chars_of(".zip");
    let tgz = chars_of(".tar.gz");
    if ends_with(n.as_slice(), zip.as_slice()) {
        Ok(ArchiveKind::Zip)
    } else if ends_with(n.as_slice(), tgz.as_slice()) {
        Ok(ArchiveKind::TarGz)
    } else {
        let mut e = owned("Unsupported archive format: ");
        e.append(name);
        proof {
            reveal_strlit("Unsupported archive format: ");
        }
        Err(e)
    }
}

/// Check one tar entry before extraction: its path must stay inside the
/// extraction directory and its type must be a file or a directory. The
/// error names the archive and the entry.
pub fn check_tar_entry(archive: &str, entry_path: &str, entry_type: u8) -> (r: Result<(), String>)
    ensures
        r is Ok <==> !escapes_extraction(entry_path@) && tar_extractable(entry_type),
        escapes_extraction(entry_path@) ==> (r matches Err(e) && e@ == "Archive '"@ + archive@
            + "' contains an unsafe path '"@ + entry_path@ + "'"@),
        !escapes_extraction(entry_path@) && !tar_extractable(entry_type) ==> (r matches Err(e) && e@ == "Archive '"@
            + archive@ + "' contains an unsupported entry type for '"@ + entry_path@ + "'"@),
{
    proof {
        reveal_strlit("Archive '");
        reveal_strlit("' contains an unsafe path '");
        reveal_strlit("' contains an unsupported entry type for '");
        reveal_strlit("'");
    }
    if validate_relative_archive_path(entry_path).is_err() {
        let mut e = owned("Archive '");
        e.append(archive);
        e.append("' contains an unsafe path '");
        e.append(entry_path);
        e.append("'");
        return Err(e);
    }
    if validate_tar_entry_type(entry_type).is_err() {
        let mut e = owned("Archive '");
        e.append(archive);
        e.append("' contains an unsupported entry type for '");
        e.append(entry_path);
        e.append("'");
        return Err(e);
    }
    Ok(())
}

/// The error for a tar entry that unpacked outside the extraction
/// directory.
pub fn outside_entry_error(archive: &str, entry_path: &str) -> (r: String)
    ensures
        r@ == "Archive '"@ + archive@ + "' contains an entry outside the extraction directory: '"@ + entry_path@
            + "'"@,
{
    proof {
        reveal_strlit("Archive '");
        reveal_strlit("' contains an entry outside the extraction directory: '");
        reveal_strlit("'");
    }
    let mut e = owned("Archive '");
    e.append(archive);
    e.append("' contains an entry outside the extraction directory: '");
    e.append(entry_path);
    e.append("'");
    e
}

} // verus!
