//! Semantic versions and the rule that computes the next one.

use crate::text::{
    chars_of, decimal, decimal_digits, decimal_value, has_quote, is_digit,
    lemma_decimal_round_trip, numeric_value, parse_decimal, push_range,
};
use vstd::prelude::*;
use vstd::string::StringExecFns;

verus! {

/// A semantic version: `major.minor.patch`, an optional prerelease (dot-separated
/// identifiers, held as written, without the leading `-`) and optional build
/// metadata (without the leading `+`). An empty string means the part is absent.
#[derive(Debug, PartialEq, Eq)]
pub struct Version {
    pub major: u64,
    pub minor: u64,
    pub patch: u64,
    pub pre: String,
    pub build: String,
}

/// The mathematical value of a [`Version`].
pub ghost struct VersionView {
    pub major: nat,
    pub minor: nat,
    pub patch: nat,
    pub pre: Seq<char>,
    pub build: Seq<char>,
}

impl View for Version {
    type V = VersionView;

    open spec fn view(&self) -> VersionView {
        VersionView {
            major: self.major as nat,
            minor: self.minor as nat,
            patch: self.patch as nat,
            pre: self.pre@,
            build: self.build@,
        }
    }
}

/// Whether `c` may stand in a prerelease or in build metadata: an ASCII
/// letter or digit, a hyphen, or the dot that separates identifiers.
pub open spec fn is_identifier_char(c: char) -> bool {
    ||| '0' <= c <= '9'
    ||| 'A' <= c <= 'Z'
    ||| 'a' <= c <= 'z'
    ||| c == '-'
    ||| c == '.'
}

/// Whether every character of `s` may stand in a prerelease or in build
/// metadata.
pub open spec fn is_identifier_text(s: Seq<char>) -> bool {
    forall|i: int| 0 <= i < s.len() ==> is_identifier_char(#[trigger] s[i])
}

/// The version text was not a semantic version.
#[derive(Debug, PartialEq, Eq)]
pub struct MalformedVersion {
    /// The text that was rejected.
    pub input: String,
}

/// `semver::Error`, the error of the `semver` crate's parser. Nothing is
/// known of a value of it; it is only taken from the parser and dropped.
#[verifier::external_type_specification]
#[verifier::external_body]
pub struct ExSemverError(semver::Error);

/// What `semver::Version::parse` makes of a text: the version it reads, or
/// `None` where it reports an error.
pub uninterp spec fn semver_parse(text: Seq<char>) -> Option<VersionView>;

/// Calls `semver::Version::parse`. The result depends on the text alone: it is
/// `Ok` exactly where [`semver_parse`] is `Some`, and then carries the three
/// numbers, the prerelease and the build metadata that the parser read. The
/// parser lets only ASCII letters, digits, hyphens and dots into a prerelease
/// and into build metadata.
#[verifier::external_body]
fn parse_semver(text: &str) -> (r: Result<Version, semver::Error>)
    ensures
        r is Ok <==> semver_parse(text@) is Some,
        r matches Ok(v) ==> semver_parse(text@) == Some(v@),
        r matches Ok(v) ==> v@.is_plain(),
{
    match semver::Version::parse(text) {
        Ok(v) => Ok(
            Version {
                major: v.major,
                minor: v.minor,
                patch: v.patch,
                pre: v.pre.as_str().to_string(),
                build: v.build.as_str().to_string(),
            },
        ),
        Err(e) => Err(e),
    }
}

/// Where the last identifier of a prerelease begins when only `pre[..upto]` is
/// considered: just after the last `.` before `upto`, or at 0 if there is none.
pub open spec fn identifier_start(pre: Seq<char>, upto: int) -> int
    decreases upto,
{
    if upto <= 0 {
        0
    } else if pre[upto - 1] == '.' {
        upto
    } else {
        identifier_start(pre, upto - 1)
    }
}

/// Where the last dot-separated identifier of `pre` begins.
pub open spec fn last_identifier_start(pre: Seq<char>) -> int {
    identifier_start(pre, pre.len() as int)
}

/// The last dot-separated identifier of `pre`.
pub open spec fn last_identifier(pre: Seq<char>) -> Seq<char> {
    pre.subrange(last_identifier_start(pre), pre.len() as int)
}

/// The number at the end of a prerelease, if its last identifier is a decimal
/// numeral that fits in 64 bits.
pub open spec fn numeric_suffix(pre: Seq<char>) -> Option<nat> {
    numeric_value(last_identifier(pre))
}

impl VersionView {
    /// `major.minor.patch` in decimal.
    pub open spec fn core_text(self) -> Seq<char> {
        decimal(self.major) + seq!['.'] + decimal(self.minor) + seq!['.'] + decimal(self.patch)
    }

    /// The full text of the version: the core, then `-` and the prerelease if
    /// there is one, then `+` and the build metadata if there is any.
    pub open spec fn text(self) -> Seq<char> {
        self.core_text() + (if self.pre.len() > 0 {
            seq!['-'] + self.pre
        } else {
            Seq::<char>::empty()
        }) + (if self.build.len() > 0 {
            seq!['+'] + self.build
        } else {
            Seq::<char>::empty()
        })
    }

    /// Whether the prerelease and the build metadata hold only what a
    /// semantic version may hold there: ASCII letters, digits, hyphens and
    /// dots.
    pub open spec fn is_plain(self) -> bool {
        is_identifier_text(self.pre) && is_identifier_text(self.build)
    }

    /// Whether the next version raises the patch number (rather than a number
    /// at the end of the prerelease).
    pub open spec fn bumps_patch(self) -> bool {
        self.pre.len() == 0 || numeric_suffix(self.pre) is None
    }

    /// The next version. Without a prerelease, or with one whose last
    /// identifier is not a number, the patch number goes up by one. With a
    /// prerelease that ends in a number, that number goes up by one and
    /// nothing else changes. Build metadata is dropped in every case.
    pub open spec fn next(self) -> VersionView {
        if self.bumps_patch() {
            VersionView { patch: self.patch + 1, build: Seq::<char>::empty(), ..self }
        } else {
            VersionView {
                pre: self.pre.take(last_identifier_start(self.pre)) + decimal(
                    numeric_suffix(self.pre)->0 + 1,
                ),
                build: Seq::<char>::empty(),
                ..self
            }
        }
    }

    /// Whether the next version can be held in a [`Version`]: the patch
    /// number, if it is the one to go up, is below the largest `u64`.
    pub open spec fn has_next(self) -> bool {
        self.bumps_patch() ==> self.patch < u64::MAX
    }
}

/// The last identifier starts at a boundary and holds no dot.
pub proof fn lemma_identifier_start(pre: Seq<char>, upto: int)
    requires
        0 <= upto <= pre.len(),
    ensures
        0 <= identifier_start(pre, upto) <= upto,
        identifier_start(pre, upto) > 0 ==> pre[identifier_start(pre, upto) - 1] == '.',
        forall|i: int| identifier_start(pre, upto) <= i < upto ==> pre[i] != '.',
    decreases upto,
{
    if upto > 0 && pre[upto - 1] != '.' {
        lemma_identifier_start(pre, upto - 1);
    }
}

/// A position that follows a dot (or is 0) and has no dot after it is where the
/// last identifier starts.
pub proof fn lemma_identifier_start_unique(pre: Seq<char>, upto: int, start: int)
    requires
        0 <= start <= upto <= pre.len(),
        start > 0 ==> pre[start - 1] == '.',
        forall|i: int| start <= i < upto ==> pre[i] != '.',
    ensures
        identifier_start(pre, upto) == start,
    decreases upto,
{
    if upto > start {
        lemma_identifier_start_unique(pre, upto - 1, start);
    }
}

/// With a prerelease whose last identifier is not a number, the next version
/// has the patch number raised by one and the same prerelease.
pub proof fn lemma_next_with_label_prerelease(v: VersionView)
    requires
        v.pre.len() > 0,
        numeric_suffix(v.pre) is None,
    ensures
        v.next().patch == v.patch + 1,
        v.next().pre == v.pre,
        v.next().major == v.major,
        v.next().minor == v.minor,
{
}

/// With a prerelease that ends in the number `n` (and no build metadata), the
/// next version differs only in that last identifier, which becomes the
/// numeral of `n + 1`: the numbers, every identifier before the last and the
/// absent build metadata stay as they are.
pub proof fn lemma_next_with_numbered_prerelease(v: VersionView, n: nat)
    requires
        numeric_suffix(v.pre) == Some(n),
        v.build.len() == 0,
    ensures
        v.next().major == v.major,
        v.next().minor == v.minor,
        v.next().patch == v.patch,
        v.next().build == v.build,
        last_identifier_start(v.next().pre) == last_identifier_start(v.pre),
        v.next().pre.take(last_identifier_start(v.pre)) == v.pre.take(
            last_identifier_start(v.pre),
        ),
        last_identifier(v.next().pre) == decimal(n + 1),
        decimal_value(last_identifier(v.next().pre)) == n + 1,
{
    let start = last_identifier_start(v.pre);
    let next_pre = v.next().pre;
    lemma_identifier_start(v.pre, v.pre.len() as int);
    lemma_decimal_round_trip(n + 1);
    assert(v.pre.len() > 0);
    assert(next_pre == v.pre.take(start) + decimal(n + 1));
    assert forall|i: int| start <= i < next_pre.len() implies next_pre[i] != '.' by {
        assert(next_pre[i] == decimal(n + 1)[i - start]);
        assert(is_digit(decimal(n + 1)[i - start]));
    }
    if start > 0 {
        assert(next_pre[start - 1] == v.pre[start - 1]);
    }
    lemma_identifier_start_unique(next_pre, next_pre.len() as int, start);
    assert(next_pre.take(start) =~= v.pre.take(start));
    assert(last_identifier(next_pre) =~= decimal(n + 1));
    assert(v.build =~= Seq::<char>::empty());
}

/// Without a prerelease, the next version is the same version with the patch
/// number raised by one and the build metadata dropped.
pub proof fn lemma_next_without_prerelease(v: VersionView)
    requires
        v.pre.len() == 0,
    ensures
        v.next() == (VersionView { patch: v.patch + 1, build: Seq::<char>::empty(), ..v }),
{
}

/// The next version after a plain version is plain.
pub proof fn lemma_next_is_plain(v: VersionView)
    requires
        v.is_plain(),
    ensures
        v.next().is_plain(),
{
    if !v.bumps_patch() {
        let n = numeric_suffix(v.pre)->0;
        let start = last_identifier_start(v.pre);
        lemma_identifier_start(v.pre, v.pre.len() as int);
        lemma_decimal_round_trip(n + 1);
        let next_pre = v.next().pre;
        assert forall|i: int| 0 <= i < next_pre.len() implies is_identifier_char(
            #[trigger] next_pre[i],
        ) by {
            if i < start {
                assert(next_pre[i] == v.pre[i]);
            } else {
                assert(is_digit(decimal(n + 1)[i - start]));
            }
        }
    }
}

/// Neither the text of a plain version nor its `major.minor.patch` holds a
/// double quote.
pub proof fn lemma_plain_text_has_no_quote(v: VersionView)
    requires
        v.is_plain(),
    ensures
        !has_quote(v.text()),
        !has_quote(v.core_text()),
{
    lemma_decimal_round_trip(v.major);
    lemma_decimal_round_trip(v.minor);
    lemma_decimal_round_trip(v.patch);
    let core = v.core_text();
    assert forall|i: int| 0 <= i < core.len() implies is_digit(#[trigger] core[i]) || core[i]
        == '.' by {
        let a = decimal(v.major).len() as int;
        let b = a + 1 + decimal(v.minor).len();
        if i < a {
            assert(core[i] == decimal(v.major)[i]);
        } else if i == a {
        } else if i < b {
            assert(core[i] == decimal(v.minor)[i - a - 1]);
        } else if i == b {
        } else {
            assert(core[i] == decimal(v.patch)[i - b - 1]);
        }
    }
    let text = v.text();
    assert forall|i: int| 0 <= i < text.len() implies text[i] != '"' by {
        let c = core.len() as int;
        let p = if v.pre.len() > 0 {
            1 + v.pre.len()
        } else {
            0
        };
        if i < c {
            assert(text[i] == core[i]);
        } else if i < c + p {
            if i > c {
                assert(text[i] == v.pre[i - c - 1]);
            }
        } else {
            if i > c + p {
                assert(text[i] == v.build[i - c - p - 1]);
            }
        }
    }
}

/// The next version never carries build metadata.
pub proof fn lemma_next_drops_build(v: VersionView)
    ensures
        v.next().build.len() == 0,
{
}

impl Clone for Version {
    fn clone(&self) -> (v: Version)
        ensures
            v@ == self@,
    {
        Version {
            major: self.major,
            minor: self.minor,
            patch: self.patch,
            pre: self.pre.clone(),
            build: self.build.clone(),
        }
    }
}

impl Version {
    /// The version `major.minor.patch` with no prerelease and no build metadata.
    pub fn new(major: u64, minor: u64, patch: u64) -> (v: Version)
        ensures
            v@ == (VersionView {
                major: major as nat,
                minor: minor as nat,
                patch: patch as nat,
                pre: Seq::<char>::empty(),
                build: Seq::<char>::empty(),
            }),
    {
        Version { major, minor, patch, pre: String::new(), build: String::new() }
    }

    /// Reads a semantic version such as `1.2.3`, `1.0.0-alpha.1` or
    /// `2.1.0-rc.2+build.5`, by the rules of the `semver` crate.
    pub fn parse(text: &str) -> (r: Result<Version, MalformedVersion>)
        ensures
            match semver_parse(text@) {
                Some(m) => r matches Ok(v) && v@ == m && m.is_plain(),
                None => r matches Err(e) && e.input@ == text@,
            },
    {
        match parse_semver(text) {
            Ok(v) => Ok(v),
            Err(_) => Err(MalformedVersion { input: text.to_owned() }),
        }
    }

    /// `major.minor.patch`, leaving out prerelease and build metadata.
    pub fn core_string(&self) -> (out: String)
        ensures
            out@ == self@.core_text(),
    {
        let mut out = String::new();
        let major = decimal_digits(self.major as u128);
        push_range(&mut out, &major, 0, major.len());
        out.push('.');
        let minor = decimal_digits(self.minor as u128);
        push_range(&mut out, &minor, 0, minor.len());
        out.push('.');
        let patch = decimal_digits(self.patch as u128);
        push_range(&mut out, &patch, 0, patch.len());
        proof {
            assert(major@.subrange(0, major.len() as int) =~= major@);
            assert(minor@.subrange(0, minor.len() as int) =~= minor@);
            assert(patch@.subrange(0, patch.len() as int) =~= patch@);
            assert(out@ =~= self@.core_text());
        }
        out
    }

    /// The version written out in full.
    pub fn to_string(&self) -> (out: String)
        ensures
            out@ == self@.text(),
    {
        let mut out = self.core_string();
        if !self.pre.as_str().is_empty() {
            out.push('-');
            out.append(self.pre.as_str());
        }
        if !self.build.as_str().is_empty() {
            out.push('+');
            out.append(self.build.as_str());
        }
        proof {
            assert(out@ =~= self@.text());
        }
        out
    }

    /// Whether [`Version::increment`] may be called on this version.
    pub fn can_increment(&self) -> (b: bool)
        ensures
            b == self@.has_next(),
    {
        let pre = chars_of(self.pre.as_str());
        if pre.len() > 0 {
            let start = last_identifier_of(&pre);
            if parse_decimal(&pre, start, pre.len()).is_some() {
                return true;
            }
        }
        self.patch < u64::MAX
    }

    /// The next version after this one.
    pub fn increment(&self) -> (next: Version)
        requires
            self@.has_next(),
        ensures
            next@ == self@.next(),
    {
        let pre = chars_of(self.pre.as_str());
        if pre.len() > 0 {
            let start = last_identifier_of(&pre);
            if let Some(n) = parse_decimal(&pre, start, pre.len()) {
                let digits = decimal_digits(n as u128 + 1);
                let mut next_pre = String::new();
                push_range(&mut next_pre, &pre, 0, start);
                push_range(&mut next_pre, &digits, 0, digits.len());
                proof {
                    assert(digits@.subrange(0, digits.len() as int) =~= digits@);
                    assert(pre@.subrange(0, start as int) =~= pre@.take(start as int));
                    assert(next_pre@ =~= self@.next().pre);
                }
                return Version {
                    major: self.major,
                    minor: self.minor,
                    patch: self.patch,
                    pre: next_pre,
                    build: String::new(),
                };
            }
        }
        Version {
            major: self.major,
            minor: self.minor,
            patch: self.patch + 1,
            pre: self.pre.clone(),
            build: String::new(),
        }
    }
}

/// Finds where the last dot-separated identifier of `pre` begins.
fn last_identifier_of(pre: &Vec<char>) -> (start: usize)
    ensures
        start == last_identifier_start(pre@),
        start <= pre.len(),
{
    let mut k: usize = pre.len();
    while k > 0 && pre[k - 1] != '.'
        invariant
            k <= pre.len(),
            identifier_start(pre@, k as int) == last_identifier_start(pre@),
        decreases k,
    {
        k -= 1;
    }
    k
}

} // verus!
