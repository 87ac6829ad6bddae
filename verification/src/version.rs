use vstd::prelude::*;
use vstd::string::StringExecFns;
use core::cmp::Ordering;
use crate::decimal::dec_of;
use crate::decimal::dec_val;
use crate::decimal::is_digit;
use crate::decimal::is_digit_seq;
use crate::decimal::lemma_dec_of_wf;
use crate::decimal::parse_component;
use crate::decimal::u64_to_dec;
use crate::decimal::valid_component;
use crate::split::dot_free;
use crate::split::lemma_split_three;
use crate::split::split_dots;
use crate::split::split_dots_exec;

verus! {

/// An immutable three-part semantic version: (major, minor, patch).
///
/// Equality is structural: two versions are equal iff all three
/// fields match exactly.
#[derive(Debug, Clone, Copy, PartialEq, Eq, Structural)]
pub struct Version {
    major: u32,
    minor: u32,
    patch: u32,
}

/// Parse failure. `Structure` reports an input that does not split
/// into the expected number of dot-separated components; `Numeric`
/// reports the first component (left to right) that is not a valid
/// unsigned integer, verbatim.
#[derive(Debug)]
pub enum ParseError {
    Structure { expected: usize, actual: usize },
    Numeric { part: String },
}

/// The canonical text of a (major, minor, patch) triple:
/// `<major>.<minor>.<patch>`, each part in canonical decimal form.
pub open spec fn spec_version_seq(major: u32, minor: u32, patch: u32) -> Seq<char> {
    dec_of(major as nat) + seq!['.'] + dec_of(minor as nat) + seq!['.'] + dec_of(patch as nat)
}

/// Lexicographic order over (major, minor, patch): major dominates,
/// then minor, then patch.
pub open spec fn spec_cmp(a: Version, b: Version) -> Ordering {
    if a.spec_major() > b.spec_major() {
        Ordering::Greater
    } else if a.spec_major() < b.spec_major() {
        Ordering::Less
    } else if a.spec_minor() > b.spec_minor() {
        Ordering::Greater
    } else if a.spec_minor() < b.spec_minor() {
        Ordering::Less
    } else if a.spec_patch() > b.spec_patch() {
        Ordering::Greater
    } else if a.spec_patch() < b.spec_patch() {
        Ordering::Less
    } else {
        Ordering::Equal
    }
}

impl Version {
    pub closed spec fn spec_major(self) -> u32 {
        self.major
    }

    pub closed spec fn spec_minor(self) -> u32 {
        self.minor
    }

    pub closed spec fn spec_patch(self) -> u32 {
        self.patch
    }

    /// Two versions are compatible iff major and minor agree; the
    /// patch level is ignored.
    pub open spec fn spec_compatible(self, other: Version) -> bool {
        self.spec_major() == other.spec_major() && self.spec_minor() == other.spec_minor()
    }

    pub fn major(&self) -> (r: u32)
        ensures
            r == self.spec_major(),
    {
        self.major
    }

    pub fn minor(&self) -> (r: u32)
        ensures
            r == self.spec_minor(),
    {
        self.minor
    }

    pub fn patch(&self) -> (r: u32)
        ensures
            r == self.spec_patch(),
    {
        self.patch
    }

    pub fn is_compatible_with(&self, other: &Self) -> (r: bool)
        ensures
            r == self.spec_compatible(*other),
    {
        self.major == other.major && self.minor == other.minor
    }

    /// Parse `<major>.<minor>.<patch>`. The input must split on '.'
    /// into exactly three components, each a nonempty run of decimal
    /// digits whose value fits in `u32`; otherwise the error reports
    /// either the observed component count or the first offending
    /// component, left to right.
    pub fn parse(s: &str) -> (r: Result<Version, ParseError>)
        ensures
            ({
                let parts = split_dots(s@);
                match r {
                    Ok(v) => {
                        &&& parts.len() == 3
                        &&& valid_component(parts[0])
                        &&& valid_component(parts[1])
                        &&& valid_component(parts[2])
                        &&& v.spec_major() as nat == dec_val(parts[0])
                        &&& v.spec_minor() as nat == dec_val(parts[1])
                        &&& v.spec_patch() as nat == dec_val(parts[2])
                    },
                    Err(ParseError::Structure { expected, actual }) => {
                        &&& parts.len() != 3
                        &&& expected == 3usize
                        &&& actual == parts.len()
                    },
                    Err(ParseError::Numeric { part }) => {
                        &&& parts.len() == 3
                        &&& {
                            ||| (!valid_component(parts[0]) && part@ == parts[0])
                            ||| (valid_component(parts[0]) && !valid_component(parts[1])
                                && part@ == parts[1])
                            ||| (valid_component(parts[0]) && valid_component(parts[1])
                                && !valid_component(parts[2]) && part@ == parts[2])
                        }
                    },
                }
            }),
    {
        let mut parts = split_dots_exec(s);
        if parts.len() != 3 {
            return Err(ParseError::Structure { expected: 3, actual: parts.len() });
        }
        let p2 = parts.pop().unwrap();
        let p1 = parts.pop().unwrap();
        let p0 = parts.pop().unwrap();
        let major = match parse_component(p0.as_str()) {
            Some(m) => m,
            None => {
                return Err(ParseError::Numeric { part: p0 });
            },
        };
        let minor = match parse_component(p1.as_str()) {
            Some(m) => m,
            None => {
                return Err(ParseError::Numeric { part: p1 });
            },
        };
        let patch = match parse_component(p2.as_str()) {
            Some(m) => m,
            None => {
                return Err(ParseError::Numeric { part: p2 });
            },
        };
        Ok(Version { major, minor, patch })
    }

    /// Render this version as `<major>.<minor>.<patch>`: canonical
    /// decimal components, '.' separators, nothing else.
    pub fn to_version_string(&self) -> (r: String)
        ensures
            r@ == spec_version_seq(self.spec_major(), self.spec_minor(), self.spec_patch()),
    {
        let mut s = u64_to_dec(self.major as u64);
        let dot = ".";
        proof {
            reveal_strlit(".");
            assert(dot@ =~= seq!['.']);
        }
        s.append(dot);
        let m = u64_to_dec(self.minor as u64);
        s.append(m.as_str());
        s.append(dot);
        let p = u64_to_dec(self.patch as u64);
        s.append(p.as_str());
        proof {
            assert(s@ =~= spec_version_seq(self.spec_major(), self.spec_minor(), self.spec_patch()));
        }
        s
    }

    /// Lexicographic comparison per `spec_cmp`.
    pub fn compare(&self, other: &Self) -> (r: Ordering)
        ensures
            r == spec_cmp(*self, *other),
    {
        if self.major > other.major {
            Ordering::Greater
        } else if self.major < other.major {
            Ordering::Less
        } else if self.minor > other.minor {
            Ordering::Greater
        } else if self.minor < other.minor {
            Ordering::Less
        } else if self.patch > other.patch {
            Ordering::Greater
        } else if self.patch < other.patch {
            Ordering::Less
        } else {
            Ordering::Equal
        }
    }
}

impl PartialOrd for Version {
    fn partial_cmp(&self, other: &Self) -> (r: Option<Ordering>) {
        Some(self.compare(other))
    }
}

impl vstd::std_specs::cmp::PartialOrdSpecImpl for Version {
    open spec fn obeys_partial_cmp_spec() -> bool {
        true
    }

    open spec fn partial_cmp_spec(&self, other: &Version) -> Option<Ordering> {
        Some(spec_cmp(*self, *other))
    }
}

impl core::str::FromStr for Version {
    type Err = ParseError;

    fn from_str(s: &str) -> Result<Version, ParseError> {
        Version::parse(s)
    }
}

impl ParseError {
    /// The rendered message for this error.
    pub open spec fn spec_message(self) -> Seq<char> {
        match self {
            ParseError::Structure { expected, actual } => "Invalid version format: expected "@
                + dec_of(expected as nat) + " components, got "@ + dec_of(actual as nat) + "."@,
            ParseError::Numeric { part } => "Invalid version format: expected integer, got '"@
                + part@ + "'."@,
        }
    }

    /// Render the error as text, with the observed component count
    /// or the offending component spelled out.
    pub fn message(&self) -> (r: String)
        ensures
            r@ == self.spec_message(),
    {
        match self {
            ParseError::Structure { expected, actual } => {
                let mut s = String::from_str("Invalid version format: expected ");
                let e = u64_to_dec(*expected as u64);
                s.append(e.as_str());
                s.append(" components, got ");
                let a = u64_to_dec(*actual as u64);
                s.append(a.as_str());
                s.append(".");
                proof {
                    assert(s@ =~= self.spec_message());
                }
                s
            },
            ParseError::Numeric { part } => {
                let mut s = String::from_str("Invalid version format: expected integer, got '");
                s.append(part.as_str());
                s.append("'.");
                proof {
                    assert(s@ =~= self.spec_message());
                }
                s
            },
        }
    }
}

/// Round trip: the canonical text of any (major, minor, patch)
/// triple splits into exactly those three components, each a valid
/// component evaluating back to the same number — so parsing the
/// formatted text of any version recovers an equal version.
pub proof fn lemma_format_parse_round_trip(major: u32, minor: u32, patch: u32)
    ensures
        ({
            let parts = split_dots(spec_version_seq(major, minor, patch));
            &&& parts.len() == 3
            &&& valid_component(parts[0]) && dec_val(parts[0]) == major as nat
            &&& valid_component(parts[1]) && dec_val(parts[1]) == minor as nat
            &&& valid_component(parts[2]) && dec_val(parts[2]) == patch as nat
        }),
{
    lemma_dec_of_wf(major as nat);
    lemma_dec_of_wf(minor as nat);
    lemma_dec_of_wf(patch as nat);
    lemma_digit_seq_dot_free(dec_of(major as nat));
    lemma_digit_seq_dot_free(dec_of(minor as nat));
    lemma_digit_seq_dot_free(dec_of(patch as nat));
    lemma_split_three(dec_of(major as nat), dec_of(minor as nat), dec_of(patch as nat));
}

/// A run of decimal digits contains no '.' separator.
pub proof fn lemma_digit_seq_dot_free(s: Seq<char>)
    requires
        is_digit_seq(s),
    ensures
        dot_free(s),
{
    assert forall|i: int| 0 <= i < s.len() implies #[trigger] s[i] != '.' by {
        assert(is_digit(s[i]));
    }
}

/// Compatibility is symmetric: it holds of `a` against `b` exactly
/// when it holds of `b` against `a`.
pub proof fn lemma_compatible_symmetric(a: Version, b: Version)
    ensures
        a.spec_compatible(b) == b.spec_compatible(a),
{
}

/// Comparison is antisymmetric: swapping the arguments swaps Less
/// and Greater, and preserves Equal.
pub proof fn lemma_cmp_antisymmetric(a: Version, b: Version)
    ensures
        (spec_cmp(a, b) == Ordering::Less) <==> (spec_cmp(b, a) == Ordering::Greater),
        (spec_cmp(a, b) == Ordering::Equal) <==> (spec_cmp(b, a) == Ordering::Equal),
{
}

/// Comparison is transitive: whatever ordering holds of `a` against
/// `b` and of `b` against `c` holds of `a` against `c`.
pub proof fn lemma_cmp_transitive(a: Version, b: Version, c: Version, o: Ordering)
    requires
        spec_cmp(a, b) == o,
        spec_cmp(b, c) == o,
    ensures
        spec_cmp(a, c) == o,
{
}

/// Comparison agrees with equality: it returns Equal exactly on
/// structurally equal versions.
pub proof fn lemma_cmp_equal_iff_eq(a: Version, b: Version)
    ensures
        (spec_cmp(a, b) == Ordering::Equal) <==> a == b,
{
}

} // verus!
