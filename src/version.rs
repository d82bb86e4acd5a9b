//! Semantic versions, compatibility tracks, and package names.
use vstd::prelude::*;
use vstd::string::*;
use std::cmp::Ordering;
use crate::error::Span;
use crate::text::{decimal, push_decimal};

verus! {

/// A semantic version. `pre` and `build` hold the pre-release and build
/// metadata without their leading `-` and `+`; either may be empty.
#[derive(Debug, Clone)]
pub struct Version {
    pub major: u64,
    pub minor: u64,
    pub patch: u64,
    pub pre: String,
    pub build: String,
}

/// Precedence of two pre-release strings, or `None` when either is not a
/// well-formed pre-release.
pub uninterp spec fn prerelease_order(a: Seq<char>, b: Seq<char>) -> Option<Ordering>;

/// Ordering of two build-metadata strings, or `None` when either is not
/// well-formed build metadata.
pub uninterp spec fn build_order(a: Seq<char>, b: Seq<char>) -> Option<Ordering>;

/// Relies on `semver::Prerelease::new` to validate both strings and on
/// `Ord for semver::Prerelease` for their precedence.
#[verifier::external_body]
fn prerelease_cmp(a: &str, b: &str) -> (r: Option<Ordering>)
    ensures
        r == prerelease_order(a@, b@),
{
    match (semver::Prerelease::new(a), semver::Prerelease::new(b)) {
        (Ok(x), Ok(y)) => Some(x.cmp(&y)),
        _ => None,
    }
}

/// Relies on `semver::BuildMetadata::new` to validate both strings and on
/// `Ord for semver::BuildMetadata` for their order.
#[verifier::external_body]
fn build_cmp(a: &str, b: &str) -> (r: Option<Ordering>)
    ensures
        r == build_order(a@, b@),
{
    match (semver::BuildMetadata::new(a), semver::BuildMetadata::new(b)) {
        (Ok(x), Ok(y)) => Some(x.cmp(&y)),
        _ => None,
    }
}

/// Order of two integers.
pub open spec fn int_order(a: int, b: int) -> Ordering {
    if a < b {
        Ordering::Less
    } else if a > b {
        Ordering::Greater
    } else {
        Ordering::Equal
    }
}

fn u64_cmp(a: u64, b: u64) -> (r: Ordering)
    ensures
        r == int_order(a as int, b as int),
{
    if a < b {
        Ordering::Less
    } else if a > b {
        Ordering::Greater
    } else {
        Ordering::Equal
    }
}

/// Semantic-version precedence: numbers first, then pre-release, then build.
pub open spec fn version_order(a: Version, b: Version) -> Option<Ordering> {
    if int_order(a.major as int, b.major as int) != Ordering::Equal {
        Some(int_order(a.major as int, b.major as int))
    } else if int_order(a.minor as int, b.minor as int) != Ordering::Equal {
        Some(int_order(a.minor as int, b.minor as int))
    } else if int_order(a.patch as int, b.patch as int) != Ordering::Equal {
        Some(int_order(a.patch as int, b.patch as int))
    } else {
        match prerelease_order(a.pre@, b.pre@) {
            Some(Ordering::Equal) => build_order(a.build@, b.build@),
            other => other,
        }
    }
}

/// The compatibility track of a version, as (major, minor, patch,
/// pre-release): a pre-release is its own track; otherwise the track keeps
/// the first non-zero component and zeroes the ones after it.
pub open spec fn compat_track(v: Version) -> (u64, u64, u64, Seq<char>) {
    if v.pre@.len() > 0 {
        (v.major, v.minor, v.patch, v.pre@)
    } else if v.major != 0 {
        (v.major, 0, 0, v.pre@)
    } else if v.minor != 0 {
        (0, v.minor, 0, v.pre@)
    } else {
        (0, 0, v.patch, v.pre@)
    }
}

/// The textual form `major.minor.patch[-pre][+build]`.
pub open spec fn version_text(v: Version) -> Seq<char> {
    decimal(v.major as nat) + "."@ + decimal(v.minor as nat) + "."@ + decimal(v.patch as nat)
        + (if v.pre@.len() > 0 { "-"@ + v.pre@ } else { seq![] })
        + (if v.build@.len() > 0 { "+"@ + v.build@ } else { seq![] })
}

/// The textual form of a compatibility track: the whole track for a
/// pre-release, else only its leading components down to the first non-zero
/// one.
pub open spec fn compat_track_text(v: Version) -> Seq<char> {
    if v.pre@.len() > 0 {
        decimal(v.major as nat) + "."@ + decimal(v.minor as nat) + "."@ + decimal(v.patch as nat)
            + "-"@ + v.pre@
    } else if v.major != 0 {
        decimal(v.major as nat)
    } else if v.minor != 0 {
        decimal(0) + "."@ + decimal(v.minor as nat)
    } else {
        decimal(0) + "."@ + decimal(0) + "."@ + decimal(v.patch as nat)
    }
}

impl Version {
    /// A release version with no pre-release or build metadata.
    pub fn new(major: u64, minor: u64, patch: u64) -> (r: Version)
        ensures
            r.major == major,
            r.minor == minor,
            r.patch == patch,
            r.pre@ == Seq::<char>::empty(),
            r.build@ == Seq::<char>::empty(),
    {
        Version { major, minor, patch, pre: String::new(), build: String::new() }
    }

    /// A copy of this version.
    pub fn duplicate(&self) -> (r: Version)
        ensures
            r == *self,
    {
        Version {
            major: self.major,
            minor: self.minor,
            patch: self.patch,
            pre: self.pre.clone(),
            build: self.build.clone(),
        }
    }

    /// Compares by semantic-version precedence; `None` when the pre-release
    /// or build metadata of either side is malformed.
    pub fn compare(&self, other: &Version) -> (r: Option<Ordering>)
        ensures
            r == version_order(*self, *other),
    {
        let c = u64_cmp(self.major, other.major);
        match c {
            Ordering::Equal => {},
            _ => return Some(c),
        }
        let c = u64_cmp(self.minor, other.minor);
        match c {
            Ordering::Equal => {},
            _ => return Some(c),
        }
        let c = u64_cmp(self.patch, other.patch);
        match c {
            Ordering::Equal => {},
            _ => return Some(c),
        }
        match prerelease_cmp(self.pre.as_str(), other.pre.as_str()) {
            Some(Ordering::Equal) => build_cmp(self.build.as_str(), other.build.as_str()),
            other => other,
        }
    }

    /// Appends the textual form of this version to `s`.
    pub fn write_to(&self, s: &mut String)
        ensures
            final(s)@ == old(s)@ + version_text(*self),
    {
        push_decimal(s, self.major);
        s.append(".");
        push_decimal(s, self.minor);
        s.append(".");
        push_decimal(s, self.patch);
        if self.pre.as_str().unicode_len() > 0 {
            s.append("-");
            s.append(self.pre.as_str());
        }
        if self.build.as_str().unicode_len() > 0 {
            s.append("+");
            s.append(self.build.as_str());
        }
        assert(final(s)@ =~= old(s)@ + version_text(*self));
    }

    /// The textual form of this version.
    pub fn to_string(&self) -> (r: String)
        ensures
            r@ == version_text(*self),
    {
        let mut s = String::new();
        self.write_to(&mut s);
        assert(s@ =~= version_text(*self));
        s
    }
}

/// Two versions whose numbers agree on their first non-zero component (and
/// carry no pre-release) lie on one compatibility track; two `0.x` versions
/// with different non-zero minor numbers do not.
pub proof fn lemma_compat_track_agreement(a: Version, b: Version)
    requires
        a.pre@.len() == 0,
        b.pre@.len() == 0,
    ensures
        (a.major != 0 && a.major == b.major) ==> compat_track(a) == compat_track(b),
        (a.major == 0 && b.major == 0 && a.minor != 0 && a.minor == b.minor) ==> compat_track(a)
            == compat_track(b),
        (a.major == 0 && b.major == 0 && a.minor != b.minor) ==> compat_track(a) != compat_track(b),
        (a.major != b.major) ==> compat_track(a) != compat_track(b),
{
}

/// The name of a package: a namespace, a name, and an optional version.
#[derive(Debug, Clone)]
pub struct PackageName {
    pub namespace: String,
    pub name: String,
    pub version: Option<Version>,
}

/// `namespace:name`, followed by `@version` when there is one.
pub open spec fn package_name_text(p: PackageName) -> Seq<char> {
    p.namespace@ + ":"@ + p.name@ + match p.version {
        Some(v) => "@"@ + version_text(v),
        None => seq![],
    }
}

/// The identifier of interface `iface` within package `p`.
pub open spec fn interface_id_text(p: PackageName, iface: Seq<char>) -> Seq<char> {
    p.namespace@ + ":"@ + p.name@ + "/"@ + iface + match p.version {
        Some(v) => "@"@ + version_text(v),
        None => seq![],
    }
}

impl PackageName {
    /// The compatibility track of `version`, with build metadata dropped.
    pub fn version_compat_track(version: &Version) -> (r: Version)
        ensures
            (r.major, r.minor, r.patch, r.pre@) == compat_track(*version),
            r.build@ == Seq::<char>::empty(),
    {
        let mut v = Version {
            major: version.major,
            minor: version.minor,
            patch: version.patch,
            pre: version.pre.clone(),
            build: String::new(),
        };
        if version.pre.as_str().unicode_len() > 0 {
            return v;
        }
        if v.major != 0 {
            v.minor = 0;
            v.patch = 0;
            return v;
        }
        if v.minor != 0 {
            v.patch = 0;
            return v;
        }
        v
    }

    /// The textual form of the compatibility track of `version`, as used in
    /// component import and export names.
    pub fn version_compat_track_string(version: &Version) -> (r: String)
        ensures
            r@ == compat_track_text(*version),
    {
        let track = PackageName::version_compat_track(version);
        let mut s = String::new();
        if track.pre.as_str().unicode_len() > 0 {
            s = track.to_string();
            assert(s@ =~= compat_track_text(*version));
            return s;
        }
        if track.major != 0 {
            push_decimal(&mut s, track.major);
            assert(s@ =~= compat_track_text(*version));
            return s;
        }
        if track.minor != 0 {
            push_decimal(&mut s, 0);
            s.append(".");
            push_decimal(&mut s, track.minor);
            assert(s@ =~= compat_track_text(*version));
            return s;
        }
        s = track.to_string();
        assert(s@ =~= compat_track_text(*version));
        s
    }

    /// A copy of this package name.
    pub fn duplicate(&self) -> (r: PackageName)
        ensures
            r == *self,
    {
        PackageName {
            namespace: self.namespace.clone(),
            name: self.name.clone(),
            version: match &self.version {
                Some(v) => Some(v.duplicate()),
                None => None,
            },
        }
    }

    /// Appends the textual form of this package name to `s`.
    pub fn write_to(&self, s: &mut String)
        ensures
            final(s)@ == old(s)@ + package_name_text(*self),
    {
        s.append(self.namespace.as_str());
        s.append(":");
        s.append(self.name.as_str());
        if let Some(v) = &self.version {
            s.append("@");
            v.write_to(s);
        }
        assert(final(s)@ =~= old(s)@ + package_name_text(*self));
    }

    /// The textual form `namespace:name[@version]`.
    pub fn to_string(&self) -> (r: String)
        ensures
            r@ == package_name_text(*self),
    {
        let mut s = String::new();
        self.write_to(&mut s);
        assert(s@ =~= package_name_text(*self));
        s
    }

    /// The identifier that this package assigns to the interface `interface`.
    pub fn interface_id(&self, interface: &str) -> (r: String)
        ensures
            r@ == interface_id_text(*self, interface@),
    {
        let mut s = String::new();
        s.append(self.namespace.as_str());
        s.append(":");
        s.append(self.name.as_str());
        s.append("/");
        s.append(interface);
        if let Some(v) = &self.version {
            s.append("@");
            v.write_to(&mut s);
        }
        assert(s@ =~= interface_id_text(*self, interface@));
        s
    }
}

/// The lines listing known packages, one per package, each indented.
pub open spec fn known_lines(known: Seq<PackageName>) -> Seq<char>
    decreases known.len(),
{
    if known.len() == 0 {
        seq![]
    } else {
        known_lines(known.drop_last()) + "    "@ + package_name_text(known.last()) + "\n"@
    }
}

/// The message of a package-not-found error without highlighting.
pub open spec fn not_found_text(requested: PackageName, known: Seq<PackageName>) -> Seq<char> {
    if known.len() == 0 {
        "package '"@ + package_name_text(requested) + "' not found. no known packages."@
    } else {
        "package '"@ + package_name_text(requested) + "' not found. known packages:\n"@
            + known_lines(known)
    }
}

/// A requested package that is not among the known ones.
#[derive(Debug)]
pub struct PackageNotFoundError {
    pub span: Span,
    pub requested: PackageName,
    pub known: Vec<PackageName>,
    pub highlighted: Option<String>,
}

impl PackageNotFoundError {
    pub fn new(span: Span, requested: PackageName, known: Vec<PackageName>) -> (r: Self)
        ensures
            r.span == span,
            r.requested == requested,
            r.known@ == known@,
            r.highlighted is None,
    {
        PackageNotFoundError { span, requested, known, highlighted: None }
    }

    /// The text shown for this error.
    pub fn message(&self) -> (r: String)
        ensures
            r@ == match self.highlighted {
                Some(h) => h@,
                None => not_found_text(self.requested, self.known@),
            },
    {
        if let Some(h) = &self.highlighted {
            return h.clone();
        }
        let mut s = String::new();
        s.append("package '");
        self.requested.write_to(&mut s);
        if self.known.len() == 0 {
            s.append("' not found. no known packages.");
            assert(s@ =~= not_found_text(self.requested, self.known@));
            return s;
        }
        s.append("' not found. known packages:\n");
        let ghost head = s@;
        let mut i: usize = 0;
        while i < self.known.len()
            invariant
                i <= self.known@.len(),
                s@ == head + known_lines(self.known@.subrange(0, i as int)),
            decreases self.known@.len() - i,
        {
            s.append("    ");
            self.known[i].write_to(&mut s);
            s.append("\n");
            proof {
                let sub = self.known@.subrange(0, i + 1);
                assert(sub.drop_last() =~= self.known@.subrange(0, i as int));
                assert(sub.last() == self.known@[i as int]);
            }
            i = i + 1;
        }
        assert(self.known@.subrange(0, self.known@.len() as int) =~= self.known@);
        assert(s@ =~= not_found_text(self.requested, self.known@));
        s
    }
}

} // verus!
