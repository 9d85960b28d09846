//! Validated names, platforms and package kinds.
use vstd::prelude::*;

use crate::error::ErrorKind;

verus! {

/// Whether `c` is alphanumeric in the Unicode sense used by `char::is_alphanumeric`.
pub uninterp spec fn unicode_alphanumeric(c: char) -> bool;

/// Relies on `char::is_alphanumeric`: the answer depends on the character alone.
#[verifier::external_body]
fn char_is_alphanumeric(c: char) -> (r: bool)
    ensures
        r == unicode_alphanumeric(c),
{
    c.is_alphanumeric()
}

pub open spec fn is_ascii_alnum(c: char) -> bool {
    ('a' <= c && c <= 'z') || ('A' <= c && c <= 'Z') || ('0' <= c && c <= '9')
}

/// The punctuation allowed in a name besides alphanumerics.
pub open spec fn is_name_special(c: char) -> bool {
    c == '.' || c == '+' || c == '-' || c == '_' || c == '@' || c == '/'
}

/// Alphanumeric characters (ASCII letters and digits below 128, Unicode's notion above)
/// and the special punctuation.
pub open spec fn is_name_char(c: char) -> bool {
    is_name_special(c) || if (c as u32) < 128 {
        is_ascii_alnum(c)
    } else {
        unicode_alphanumeric(c)
    }
}

/// A valid name is non-empty and made of name characters only.
pub open spec fn name_valid(s: Seq<char>) -> bool {
    s.len() > 0 && forall|i: int| 0 <= i < s.len() ==> is_name_char(#[trigger] s[i])
}

pub open spec fn is_ascii_whitespace(c: char) -> bool {
    c == ' ' || c == '\t' || c == '\n' || c == '\r' || c == '\x0C'
}

/// Names are never empty, and never hold ASCII whitespace.
pub proof fn lemma_name_rejects_empty_and_whitespace(s: Seq<char>, i: int)
    requires
        s.len() == 0 || (0 <= i < s.len() && is_ascii_whitespace(s[i])),
    ensures
        !name_valid(s),
{
    if s.len() > 0 {
        assert(!is_name_char(s[i]));
    }
}

/// Whether `c` is alphanumeric or one of the special characters, as checked at run time.
fn is_name_char_exec(c: char) -> (r: bool)
    ensures
        r == is_name_char(c),
{
    if c == '.' || c == '+' || c == '-' || c == '_' || c == '@' || c == '/' {
        true
    } else if (c as u32) < 128 {
        ('a' <= c && c <= 'z') || ('A' <= c && c <= 'Z') || ('0' <= c && c <= '9')
    } else {
        char_is_alphanumeric(c)
    }
}

/// A restricted identifier used for packages, package sets, groups and installers:
/// non-empty, and made of alphanumerics and the characters `.`, `+`, `-`, `_`, `@`, `/`.
#[derive(Debug)]
pub struct Name {
    text: String,
}

impl View for Name {
    type V = Seq<char>;

    closed spec fn view(&self) -> Seq<char> {
        self.text@
    }
}

impl Name {
    #[verifier::type_invariant]
    spec fn wf(self) -> bool {
        name_valid(self.text@)
    }

    /// Returns `true` if the provided string is a valid `Name` value, else `false`.
    pub fn is_valid(s: &str) -> (r: bool)
        ensures
            r == name_valid(s@),
            s@.len() == 0 ==> !r,
            (exists|i: int| 0 <= i < s@.len() && is_ascii_whitespace(#[trigger] s@[i])) ==> !r,
    {
        let n = s.unicode_len();
        if n == 0 {
            return false;
        }
        let mut i: usize = 0;
        while i < n
            invariant
                n == s@.len(),
                i <= n,
                forall|j: int| 0 <= j < i ==> is_name_char(#[trigger] s@[j]),
            decreases n - i,
        {
            let c = s.get_char(i);
            if !is_name_char_exec(c) {
                return false;
            }
            i += 1;
        }
        true
    }

    /// Parses a name; fails with `InvalidNameString` exactly when `s` is not a valid name.
    pub fn from_str(s: &str) -> (r: Result<Name, ErrorKind>)
        ensures
            r is Ok <==> parse_name(s@) is Some,
            r is Ok ==> parse_name(s@) == Some(r->Ok_0@),
            r is Err ==> r->Err_0 == ErrorKind::InvalidNameString(r->Err_0->InvalidNameString_0)
                && r->Err_0->InvalidNameString_0@ == s@,
    {
        if Name::is_valid(s) {
            Ok(Name { text: String::from_str(s) })
        } else {
            Err(ErrorKind::InvalidNameString(String::from_str(s)))
        }
    }

    /// The text of this name.
    pub fn as_str(&self) -> (r: &str)
        ensures
            r@ == self@,
            name_valid(self@),
    {
        proof {
            use_type_invariant(self);
        }
        self.text.as_str()
    }

    /// The text of this name, as an owned string.
    pub fn to_string(&self) -> (r: String)
        ensures
            r@ == self@,
    {
        self.text.clone()
    }

    /// The text of this name, to be joined onto file-system paths.
    pub fn as_path(&self) -> (r: String)
        ensures
            r@ == self@,
    {
        self.text.clone()
    }
}

/// What parsing a string as a name gives: the name's text, when the string is valid.
pub open spec fn parse_name(s: Seq<char>) -> Option<Seq<char>> {
    if name_valid(s) {
        Some(s)
    } else {
        None
    }
}

/// Encoding a valid name and decoding it again is the identity: parsing a valid string
/// gives a name whose text, written out, is that string; and parsing the text of any name
/// gives that name back.
pub proof fn lemma_name_round_trip(s: Seq<char>)
    requires
        name_valid(s),
    ensures
        parse_name(s) == Some(s),
        parse_name(parse_name(s)->Some_0) == parse_name(s),
{
}

impl Clone for Name {
    fn clone(&self) -> (r: Self)
        ensures
            r == *self,
    {
        proof {
            use_type_invariant(self);
        }
        Name { text: self.text.clone() }
    }
}

impl PartialEq for Name {
    fn eq(&self, other: &Name) -> (r: bool)
        ensures
            r == (self@ == other@),
    {
        self.text == other.text
    }
}

impl vstd::std_specs::cmp::PartialEqSpecImpl for Name {
    open spec fn obeys_eq_spec() -> bool {
        true
    }

    open spec fn eq_spec(&self, other: &Name) -> bool {
        self@ == other@
    }
}

impl Eq for Name {
}

/// The supported platforms.
#[derive(Clone, Copy, Debug, PartialEq, Eq, Structural, Hash)]
pub enum Platform {
    Macos,
    Linux,
}

impl Platform {
    /// Returns `true` if the constraint `other` admits this platform, taken to be the
    /// current one: an absent constraint resolves to the current platform (it is not a
    /// wildcard), and an explicit one must equal it.
    pub fn is_match(&self, other: &Option<Platform>) -> (r: bool)
        ensures
            r == platform_matches(*self, *other),
    {
        match other {
            None => true,
            Some(p) => *p == *self,
        }
    }

    /// Returns `true` if the constraint `other` admits the `current` platform.
    pub fn is_current(current: Platform, other: &Option<Platform>) -> (r: bool)
        ensures
            r == platform_matches(current, *other),
    {
        current.is_match(other)
    }

    /// The platform a constraint resolves to: the constraint itself, or `current` when absent.
    pub fn resolve(current: Platform, other: &Option<Platform>) -> (r: Platform)
        ensures
            r == resolve_platform(current, *other),
    {
        match other {
            None => current,
            Some(p) => *p,
        }
    }

    /// The lower-case name of this platform.
    pub fn to_string(&self) -> (r: String)
        ensures
            r@ == platform_text(*self),
    {
        match self {
            Platform::Macos => String::from_str("macos"),
            Platform::Linux => String::from_str("linux"),
        }
    }
}

pub open spec fn platform_text(p: Platform) -> Seq<char> {
    match p {
        Platform::Macos => "macos"@,
        Platform::Linux => "linux"@,
    }
}

/// An absent constraint resolves to the current platform.
pub open spec fn resolve_platform(current: Platform, constraint: Option<Platform>) -> Platform {
    match constraint {
        None => current,
        Some(p) => p,
    }
}

/// A constraint matches the current platform when it is absent, or equal to it.
pub open spec fn platform_matches(current: Platform, constraint: Option<Platform>) -> bool {
    resolve_platform(current, constraint) == current
}

/// Platform matching: with no constraint a value always matches the current platform,
/// and an explicit constraint matches exactly when it equals the current platform.
pub proof fn lemma_platform_match(current: Platform, constraint: Option<Platform>)
    ensures
        constraint is None ==> platform_matches(current, constraint),
        constraint is Some ==> (platform_matches(current, constraint) <==> constraint->Some_0
            == current),
{
}

/// The model of a package kind, with the language's name as text.
pub ghost enum KindView {
    Application,
    Default,
    Language(Seq<char>),
}

/// The dimension, together with the platform, that selects an installer for a package.
#[derive(Debug)]
pub enum PackageKind {
    /// Applications: casks, snaps and the like.
    Application,
    /// Packages of the platform's standard package installer.
    Default,
    /// Packages of a language- or environment-specific tool.
    Language(Name),
}

impl View for PackageKind {
    type V = KindView;

    open spec fn view(&self) -> KindView {
        match self {
            PackageKind::Application => KindView::Application,
            PackageKind::Default => KindView::Default,
            PackageKind::Language(n) => KindView::Language(n@),
        }
    }
}

impl Clone for PackageKind {
    fn clone(&self) -> (r: Self)
        ensures
            r == *self,
    {
        match self {
            PackageKind::Application => PackageKind::Application,
            PackageKind::Default => PackageKind::Default,
            PackageKind::Language(n) => PackageKind::Language(n.clone()),
        }
    }
}

impl PartialEq for PackageKind {
    fn eq(&self, other: &PackageKind) -> (r: bool)
        ensures
            r == (self@ == other@),
    {
        match (self, other) {
            (PackageKind::Application, PackageKind::Application) => true,
            (PackageKind::Default, PackageKind::Default) => true,
            (PackageKind::Language(a), PackageKind::Language(b)) => a == b,
            _ => false,
        }
    }
}

impl vstd::std_specs::cmp::PartialEqSpecImpl for PackageKind {
    open spec fn obeys_eq_spec() -> bool {
        true
    }

    open spec fn eq_spec(&self, other: &PackageKind) -> bool {
        self@ == other@
    }
}

impl Eq for PackageKind {
}

impl PackageKind {
    /// The kind used when none is given.
    pub fn default_kind() -> (r: PackageKind)
        ensures
            r@ == KindView::Default,
    {
        PackageKind::Default
    }

    /// Returns `true` if `other` is `None` and this is the default kind, or `other` is this kind.
    pub fn is_match(&self, other: &Option<PackageKind>) -> (r: bool)
        ensures
            r == match other {
                None => self@ == KindView::Default,
                Some(k) => self@ == k@,
            },
    {
        match other {
            None => match self {
                PackageKind::Default => true,
                _ => false,
            },
            Some(k) => *self == *k,
        }
    }
}

} // verus!
