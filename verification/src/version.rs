//! Version identities: release channels, semantic versions and commit shas,
//! together with parsing and rendering of `major.minor.patch` strings.

use vstd::prelude::*;

verus! {

/// Release track.  Stable and preview builds are identified by semantic
/// version; nightly and dev builds are identified by commit sha.
#[derive(Clone, Copy, Debug, PartialEq, Eq, Structural)]
pub enum ReleaseChannel {
    Dev,
    Nightly,
    Preview,
    Stable,
}

impl ReleaseChannel {
    /// Channels on which the fetched version string is a semantic version;
    /// on the others it is a commit sha.
    pub open spec fn uses_semantic_versions(self) -> bool {
        self matches ReleaseChannel::Stable || self matches ReleaseChannel::Preview
    }

    pub open spec fn spec_dev_name(self) -> Seq<char> {
        match self {
            ReleaseChannel::Dev => "dev"@,
            ReleaseChannel::Nightly => "nightly"@,
            ReleaseChannel::Preview => "preview"@,
            ReleaseChannel::Stable => "stable"@,
        }
    }

    /// The lower-case name of the channel as it appears in release URLs.
    pub fn dev_name(&self) -> (r: &'static str)
        ensures
            r@ == self.spec_dev_name(),
    {
        match self {
            ReleaseChannel::Dev => "dev",
            ReleaseChannel::Nightly => "nightly",
            ReleaseChannel::Preview => "preview",
            ReleaseChannel::Stable => "stable",
        }
    }
}

/// A `major.minor.patch` version.  Ordering is lexicographic by component.
#[derive(Clone, Copy, Debug, Hash, PartialEq, Eq, Structural)]
pub struct SemanticVersion {
    pub major: u64,
    pub minor: u64,
    pub patch: u64,
}

impl SemanticVersion {
    pub fn new(major: u64, minor: u64, patch: u64) -> (r: Self)
        ensures
            r == (SemanticVersion { major, minor, patch }),
    {
        SemanticVersion { major, minor, patch }
    }

    /// Strict lexicographic order by major, then minor, then patch.
    pub open spec fn spec_lt(self, other: Self) -> bool {
        ||| self.major < other.major
        ||| (self.major == other.major && self.minor < other.minor)
        ||| (self.major == other.major && self.minor == other.minor && self.patch < other.patch)
    }

    /// The characters of the `major.minor.patch` rendering.
    pub open spec fn spec_version_string(self) -> Seq<char> {
        dec_str_of(self.major as int) + "."@ + dec_str_of(self.minor as int) + "."@ + dec_str_of(
            self.patch as int,
        )
    }

    /// Renders the version as `major.minor.patch`.
    pub fn version_string(&self) -> (r: String)
        ensures
            r@ == self.spec_version_string(),
    {
        let mut r = u64_dec_string(self.major);
        r.append(".");
        let minor = u64_dec_string(self.minor);
        r.append(minor.as_str());
        r.append(".");
        let patch = u64_dec_string(self.patch);
        r.append(patch.as_str());
        r
    }

    /// Whether `self` is a strictly newer version than `other`.
    pub fn newer_than(&self, other: &Self) -> (r: bool)
        ensures
            r == other.spec_lt(*self),
    {
        if self.major != other.major {
            self.major > other.major
        } else if self.minor != other.minor {
            self.minor > other.minor
        } else {
            self.patch > other.patch
        }
    }
}

/// The commit sha a nightly or dev build was produced from.
#[derive(Debug, PartialEq, Eq)]
pub struct AppCommitSha {
    pub full: String,
}

impl Clone for AppCommitSha {
    fn clone(&self) -> (r: Self)
        ensures
            r == *self,
    {
        AppCommitSha { full: self.full.clone() }
    }
}

impl View for AppCommitSha {
    type V = Seq<char>;

    open spec fn view(&self) -> Seq<char> {
        self.full@
    }
}

impl AppCommitSha {
    pub fn new(full: String) -> (r: Self)
        ensures
            r@ == full@,
    {
        AppCommitSha { full }
    }

    pub fn full(&self) -> (r: &str)
        ensures
            r@ == self@,
    {
        self.full.as_str()
    }
}

/// Which build an update decision refers to: a commit sha on nightly and dev
/// channels, a semantic version on stable and preview.  Values of different
/// variants are never compared with each other.
#[derive(Debug, PartialEq, Eq)]
pub enum VersionCheckType {
    Sha(AppCommitSha),
    Semantic(SemanticVersion),
}

impl Clone for VersionCheckType {
    fn clone(&self) -> (r: Self)
        ensures
            r == *self,
    {
        match self {
            VersionCheckType::Sha(sha) => VersionCheckType::Sha(sha.clone()),
            VersionCheckType::Semantic(v) => VersionCheckType::Semantic(*v),
        }
    }
}

/// A fetched version string that could not be read as `major.minor.patch`.
#[derive(Clone, Copy, Debug, PartialEq, Eq, Structural)]
pub struct InvalidVersionString;

impl InvalidVersionString {
    /// A short description, for display by the caller.
    pub fn message(&self) -> (r: &'static str)
        ensures
            r@ == "malformed semantic version string"@,
    {
        "malformed semantic version string"
    }
}

pub open spec fn is_ascii_digit_char(c: char) -> bool {
    48 <= c as int && c as int <= 57
}

pub open spec fn digit_value(c: char) -> int {
    c as int - 48
}

pub open spec fn all_ascii_digits(s: Seq<char>) -> bool {
    forall|k: int| 0 <= k < s.len() ==> is_ascii_digit_char(#[trigger] s[k])
}

/// The value of a string of decimal digits, most significant first.
pub open spec fn dec_value(s: Seq<char>) -> int
    decreases s.len(),
{
    if s.len() == 0 {
        0
    } else {
        dec_value(s.drop_last()) * 10 + digit_value(s.last())
    }
}

/// `i` and `j` are the positions of the only two dots of `s`, and the three
/// runs of characters they separate are nonempty digit strings whose values
/// fit in a `u64`.
pub open spec fn is_semver_split(s: Seq<char>, i: int, j: int) -> bool {
    &&& 0 < i
    &&& i + 1 < j
    &&& j + 1 < s.len()
    &&& s[i] == '.'
    &&& s[j] == '.'
    &&& (forall|k: int| 0 <= k < s.len() && #[trigger] s[k] == '.' ==> k == i || k == j)
    &&& all_ascii_digits(s.subrange(0, i))
    &&& all_ascii_digits(s.subrange(i + 1, j))
    &&& all_ascii_digits(s.subrange(j + 1, s.len() as int))
    &&& dec_value(s.subrange(0, i)) <= u64::MAX
    &&& dec_value(s.subrange(i + 1, j)) <= u64::MAX
    &&& dec_value(s.subrange(j + 1, s.len() as int)) <= u64::MAX
}

/// What a version string means: `Some` exactly when it has the shape
/// `major.minor.patch` with all-digit components that fit in a `u64`.
pub open spec fn spec_parse_semantic_version(s: Seq<char>) -> Option<SemanticVersion> {
    if exists|i: int, j: int| is_semver_split(s, i, j) {
        let (i, j) = choose|i: int, j: int| is_semver_split(s, i, j);
        Some(
            SemanticVersion {
                major: dec_value(s.subrange(0, i)) as u64,
                minor: dec_value(s.subrange(i + 1, j)) as u64,
                patch: dec_value(s.subrange(j + 1, s.len() as int)) as u64,
            },
        )
    } else {
        None
    }
}

proof fn lemma_dec_value_nonneg(s: Seq<char>)
    requires
        all_ascii_digits(s),
    ensures
        dec_value(s) >= 0,
    decreases s.len(),
{
    if s.len() > 0 {
        assert(all_ascii_digits(s.drop_last()));
        lemma_dec_value_nonneg(s.drop_last());
    }
}

/// The value of a digit string is at least the value of any of its prefixes.
proof fn lemma_dec_value_prefix_le(s: Seq<char>, k: int)
    requires
        all_ascii_digits(s),
        0 <= k <= s.len(),
    ensures
        dec_value(s.take(k)) <= dec_value(s),
    decreases s.len() - k,
{
    if k < s.len() {
        lemma_dec_value_prefix_le(s, k + 1);
        assert(s.take(k + 1).drop_last() =~= s.take(k));
        assert(all_ascii_digits(s.take(k)));
        lemma_dec_value_nonneg(s.take(k));
        assert(dec_value(s.take(k + 1)) == dec_value(s.take(k)) * 10 + digit_value(s.take(k + 1).last()));
        assert(dec_value(s.take(k)) <= dec_value(s.take(k + 1)));
    } else {
        assert(s.take(k) =~= s);
    }
}

/// Two split positions of the same string coincide.
proof fn lemma_semver_split_unique(s: Seq<char>, i1: int, j1: int, i2: int, j2: int)
    requires
        is_semver_split(s, i1, j1),
        is_semver_split(s, i2, j2),
    ensures
        i1 == i2,
        j1 == j2,
{
    assert(i1 == i2 || i1 == j2);
    assert(i2 == i1 || i2 == j1);
    assert(j1 == i2 || j1 == j2);
    assert(j2 == i1 || j2 == j1);
}

/// Reads the digits of `s` between `from` and `to` as a `u64`.
/// Returns `Some` exactly when the run is nonempty, all digits, and fits.
fn parse_dec_component(s: &str, from: usize, to: usize) -> (r: Option<u64>)
    requires
        from <= to <= s@.len(),
    ensures
        match r {
            Some(v) => {
                &&& from < to
                &&& all_ascii_digits(s@.subrange(from as int, to as int))
                &&& dec_value(s@.subrange(from as int, to as int)) <= u64::MAX
                &&& v == dec_value(s@.subrange(from as int, to as int))
            },
            None => !{
                &&& from < to
                &&& all_ascii_digits(s@.subrange(from as int, to as int))
                &&& dec_value(s@.subrange(from as int, to as int)) <= u64::MAX
            },
        },
{
    if from == to {
        return None;
    }
    let ghost part = s@.subrange(from as int, to as int);
    let mut acc: u64 = 0;
    let mut i: usize = from;
    while i < to
        invariant
            from <= i <= to <= s@.len(),
            part == s@.subrange(from as int, to as int),
            forall|m: int| 0 <= m < i - from ==> is_ascii_digit_char(#[trigger] part[m]),
            acc == dec_value(part.take(i - from)),
        decreases to - i,
    {
        let c = s.get_char(i);
        assert(c == part[i - from]);
        let cv = c as u32;
        if cv < 48 || cv > 57 {
            assert(!is_ascii_digit_char(part[i - from]));
            return None;
        }
        let d: u64 = (cv - 48) as u64;
        assert(is_ascii_digit_char(part[i - from]) && d == digit_value(part[i - from]));
        proof {
            assert(part.take(i - from + 1).drop_last() =~= part.take(i - from));
            assert(part.take(i - from + 1).last() == part[i - from]);
            assert(dec_value(part.take(i - from + 1)) == acc * 10 + d);
        }
        if acc > 1844674407370955161u64 || (acc == 1844674407370955161u64 && d > 5) {
            // The digits seen so far already exceed what a u64 can hold, so
            // the whole component does too.
            proof {
                assert(acc * 10 + d > u64::MAX);
                if all_ascii_digits(part) {
                    lemma_dec_value_prefix_le(part, i - from + 1);
                }
            }
            return None;
        }
        assert(acc * 10 + d <= u64::MAX);
        acc = acc * 10 + d;
        i = i + 1;
    }
    assert(part.take(to - from) =~= part);
    assert(all_ascii_digits(part));
    Some(acc)
}

/// Finds the first `'.'` in `s` at or after `from`.
fn find_dot(s: &str, from: usize) -> (r: Option<usize>)
    requires
        from <= s@.len(),
    ensures
        match r {
            Some(k) => {
                &&& from <= k < s@.len()
                &&& s@[k as int] == '.'
                &&& forall|m: int| from <= m < k ==> s@[m] != '.'
            },
            None => forall|m: int| from <= m < s@.len() ==> s@[m] != '.',
        },
{
    let n = s.unicode_len();
    let mut i: usize = from;
    while i < n
        invariant
            from <= i <= n == s@.len(),
            forall|m: int| from <= m < i ==> s@[m] != '.',
        decreases n - i,
    {
        if s.get_char(i) == '.' {
            return Some(i);
        }
        i = i + 1;
    }
    None
}

/// Reads a `major.minor.patch` version string.  Returns `Err` exactly when
/// the string does not have that shape: not exactly two dots, an empty or
/// non-digit component, or a component too large for a `u64`.
pub fn parse_semantic_version(s: &str) -> (r: Result<SemanticVersion, InvalidVersionString>)
    ensures
        match r {
            Ok(v) => spec_parse_semantic_version(s@) == Some(v),
            Err(_) => spec_parse_semantic_version(s@) is None,
        },
{
    let n = s.unicode_len();
    let Some(i) = find_dot(s, 0) else {
        proof {
            if exists|i2: int, j2: int| is_semver_split(s@, i2, j2) {
                let (ci, cj) = choose|i2: int, j2: int| is_semver_split(s@, i2, j2);
                assert(s@[ci] == '.');
                assert(false);
            }
        }
        return Err(InvalidVersionString);
    };
    let Some(j) = find_dot(s, i + 1) else {
        proof {
            if exists|i2: int, j2: int| is_semver_split(s@, i2, j2) {
                let (ci, cj) = choose|i2: int, j2: int| is_semver_split(s@, i2, j2);
                assert(s@[ci] == '.');
                assert(s@[cj] == '.');
                // Both dots lie at or before `i`, yet they are distinct and
                // `i` itself is the first dot.
                assert(ci <= i && cj <= i);
                assert(i as int == ci || i as int == cj);
                assert(false);
            }
        }
        return Err(InvalidVersionString);
    };
    if let Some(k) = find_dot(s, j + 1) {
        // A third dot: no two-dot split can exist.
        proof {
            if exists|i2: int, j2: int| is_semver_split(s@, i2, j2) {
                let (ci, cj) = choose|i2: int, j2: int| is_semver_split(s@, i2, j2);
                assert(s@[i as int] == '.' && s@[j as int] == '.' && s@[k as int] == '.');
                assert(i as int == ci || i as int == cj);
                assert(j as int == ci || j as int == cj);
                assert(k as int == ci || k as int == cj);
                assert(false);
            }
        }
        return Err(InvalidVersionString);
    }
    // The dots of `s` are exactly `i` and `j`.
    assert forall|k: int| 0 <= k < s@.len() && #[trigger] s@[k] == '.' implies k == i || k == j by {
        if k < i {
            assert(s@[k] != '.');
        } else if i < k < j {
            assert(s@[k] != '.');
        } else if j < k {
            assert(s@[k] != '.');
        }
    }
    let major = parse_dec_component(s, 0, i);
    let minor = parse_dec_component(s, i + 1, j);
    let patch = parse_dec_component(s, j + 1, n);
    match (major, minor, patch) {
        (Some(major), Some(minor), Some(patch)) => {
            proof {
                assert(is_semver_split(s@, i as int, j as int));
                let (ci, cj) = choose|i: int, j: int| is_semver_split(s@, i, j);
                lemma_semver_split_unique(s@, ci, cj, i as int, j as int);
            }
            Ok(SemanticVersion { major, minor, patch })
        },
        _ => {
            proof {
                if exists|i: int, j: int| is_semver_split(s@, i, j) {
                    let (ci, cj) = choose|i: int, j: int| is_semver_split(s@, i, j);
                    lemma_semver_split_unique(s@, ci, cj, i as int, j as int);
                }
            }
            Err(InvalidVersionString)
        },
    }
}

/// The decimal digit character for `d`, which must be below ten.
pub open spec fn digit_char(d: int) -> char {
    if d == 0 { '0' }
    else if d == 1 { '1' }
    else if d == 2 { '2' }
    else if d == 3 { '3' }
    else if d == 4 { '4' }
    else if d == 5 { '5' }
    else if d == 6 { '6' }
    else if d == 7 { '7' }
    else if d == 8 { '8' }
    else { '9' }
}

/// The decimal rendering of `n`, most significant digit first, no leading
/// zeros (a single `'0'` for zero).
pub open spec fn dec_str_of(n: int) -> Seq<char>
    decreases n,
{
    if n < 10 {
        seq![digit_char(n)]
    } else {
        dec_str_of(n / 10) + seq![digit_char(n % 10)]
    }
}

fn digit_str(d: u64) -> (r: &'static str)
    requires
        d < 10,
    ensures
        r@ == seq![digit_char(d as int)],
{
    proof {
        reveal_strlit("0");
        reveal_strlit("1");
        reveal_strlit("2");
        reveal_strlit("3");
        reveal_strlit("4");
        reveal_strlit("5");
        reveal_strlit("6");
        reveal_strlit("7");
        reveal_strlit("8");
        reveal_strlit("9");
    }
    match d {
        0 => "0",
        1 => "1",
        2 => "2",
        3 => "3",
        4 => "4",
        5 => "5",
        6 => "6",
        7 => "7",
        8 => "8",
        _ => "9",
    }
}

/// Renders `n` in decimal.
pub fn u64_dec_string(n: u64) -> (r: String)
    ensures
        r@ == dec_str_of(n as int),
    decreases n,
{
    if n < 10 {
        digit_str(n).to_owned()
    } else {
        let mut r = u64_dec_string(n / 10);
        r.append(digit_str(n % 10));
        r
    }
}

proof fn lemma_dec_str_of_digits(n: int)
    requires
        n >= 0,
    ensures
        dec_str_of(n).len() >= 1,
        all_ascii_digits(dec_str_of(n)),
    decreases n,
{
    if n >= 10 {
        lemma_dec_str_of_digits(n / 10);
        let s = dec_str_of(n);
        let prefix = dec_str_of(n / 10);
        assert forall|k: int| 0 <= k < s.len() implies is_ascii_digit_char(s[k]) by {
            if k < prefix.len() {
                assert(s[k] == prefix[k]);
            } else {
                assert(s[k] == digit_char(n % 10));
            }
        }
    }
}

proof fn lemma_dec_str_of_value(n: int)
    requires
        n >= 0,
    ensures
        dec_value(dec_str_of(n)) == n,
    decreases n,
{
    if n < 10 {
        let s = dec_str_of(n);
        assert(s.len() == 1);
        assert(s.drop_last() =~= Seq::<char>::empty());
        assert(dec_value(s) == dec_value(s.drop_last()) * 10 + digit_value(s.last()));
        assert(s.last() == digit_char(n));
        assert(digit_value(digit_char(n)) == n);
    } else {
        lemma_dec_str_of_value(n / 10);
        lemma_dec_str_of_digits(n / 10);
        let s = dec_str_of(n);
        assert(s.len() >= 1);
        assert(s.drop_last() =~= dec_str_of(n / 10));
        assert(dec_value(s) == dec_value(s.drop_last()) * 10 + digit_value(s.last()));
        assert(dec_value(s.drop_last()) == n / 10);
        assert(s.last() == digit_char(n % 10));
        assert(digit_value(digit_char(n % 10)) == n % 10);
        assert(n / 10 * 10 + n % 10 == n);
    }
}

/// Rendering a version and parsing the result gives the version back: the
/// rendered string is a well-formed version string and parses uniquely.
pub proof fn lemma_parse_of_version_string(v: SemanticVersion)
    ensures
        spec_parse_semantic_version(v.spec_version_string()) == Some(v),
{
    reveal_strlit(".");
    let a = dec_str_of(v.major as int);
    let b = dec_str_of(v.minor as int);
    let c = dec_str_of(v.patch as int);
    lemma_dec_str_of_digits(v.major as int);
    lemma_dec_str_of_digits(v.minor as int);
    lemma_dec_str_of_digits(v.patch as int);
    lemma_dec_str_of_value(v.major as int);
    lemma_dec_str_of_value(v.minor as int);
    lemma_dec_str_of_value(v.patch as int);
    let s = v.spec_version_string();
    let i = a.len() as int;
    let j = a.len() as int + 1 + b.len() as int;
    assert("."@.len() == 1 && "."@[0] == '.');
    assert(s.len() == a.len() + 1 + b.len() + 1 + c.len());
    assert(s[i] == '.');
    assert(s[j] == '.');
    assert forall|k: int| 0 <= k < s.len() && #[trigger] s[k] == '.' implies k == i || k == j by {
        if k < i {
            assert(s[k] == a[k]);
            assert(is_ascii_digit_char(a[k]));
        } else if i < k < j {
            assert(s[k] == b[k - i - 1]);
            assert(is_ascii_digit_char(b[k - i - 1]));
        } else if j < k {
            assert(s[k] == c[k - j - 1]);
            assert(is_ascii_digit_char(c[k - j - 1]));
        }
    }
    assert(s.subrange(0, i) =~= a);
    assert(s.subrange(i + 1, j) =~= b);
    assert(s.subrange(j + 1, s.len() as int) =~= c);
    assert(is_semver_split(s, i, j));
    let (ci, cj) = choose|ci: int, cj: int| is_semver_split(s, ci, cj);
    lemma_semver_split_unique(s, ci, cj, i, j);
}

/// Mathematical value of a `VersionCheckType`.
pub enum IdentityView {
    Sha(Seq<char>),
    Semantic(SemanticVersion),
}

impl View for VersionCheckType {
    type V = IdentityView;

    open spec fn view(&self) -> IdentityView {
        match self {
            VersionCheckType::Sha(sha) => IdentityView::Sha(sha@),
            VersionCheckType::Semantic(v) => IdentityView::Semantic(*v),
        }
    }
}

} // verus!
