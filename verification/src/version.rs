//! Versions of agents.

use vstd::prelude::*;
use vstd::string::*;

use crate::error::{ParseError, ParseFault};
use crate::text::{chars_of, parse_u32, push_decimal, skip_chars, split_chars, string_of};

verus! {

/// A semantic version, written `v1.2.3`.
#[derive(Debug, PartialEq, Eq, Structural)]
pub struct Version {
    pub major: u32,
    pub minor: u32,
    pub patch: u32,
}

/// A version as text.
pub open spec fn version_text(v: Version) -> Seq<char> {
    "v"@ + crate::text::decimal(v.major as nat) + "."@ + crate::text::decimal(v.minor as nat) + "."@
        + crate::text::decimal(v.patch as nat)
}

/// `s` without the `v` that it begins with, if it begins with one.
pub open spec fn without_v(s: Seq<char>) -> Seq<char> {
    if s.len() > 0 && s[0] == 'v' {
        s.skip(1)
    } else {
        s
    }
}

/// The version that `s` spells, or why it spells none.
///
/// A version consists of three numbers between dots, behind an optional `v`.
pub open spec fn version_of(s: Seq<char>) -> Result<Version, ParseFault> {
    let bare = without_v(s);
    let parts = crate::text::split(bare, '.');
    if parts.len() != 3 {
        Err(
            ParseFault::Version(
                "expected 3 parts, got "@ + crate::text::decimal(parts.len()) + ": "@ + bare,
            ),
        )
    } else {
        match (
            crate::text::u32_of(parts[0]),
            crate::text::u32_of(parts[1]),
            crate::text::u32_of(parts[2]),
        ) {
            (None, _, _) => Err(ParseFault::Version("invalid major version: "@ + parts[0])),
            (Some(_), None, _) => Err(ParseFault::Version("invalid minor version: "@ + parts[1])),
            (Some(_), Some(_), None) => Err(
                ParseFault::Version("invalid patch version: "@ + parts[2]),
            ),
            (Some(major), Some(minor), Some(patch)) => Ok(Version { major, minor, patch }),
        }
    }
}

/// The pieces of three texts without dots, joined by dots.
pub proof fn lemma_three_parts(a: Seq<char>, b: Seq<char>, c: Seq<char>)
    requires
        !a.contains('.'),
        !b.contains('.'),
        !c.contains('.'),
    ensures
        crate::text::split(a + "."@ + b + "."@ + c, '.') == seq![a, b, c],
{
    reveal_strlit(".");
    crate::text::lemma_split_single(a, '.');
    crate::text::lemma_split_single(b, '.');
    crate::text::lemma_split_single(c, '.');
    crate::text::lemma_split_join(a, b, '.');
    crate::text::lemma_split_join(a.push('.') + b, c, '.');
    assert(a + "."@ + b + "."@ + c =~= (a.push('.') + b).push('.') + c);
    assert(seq![a] + seq![b] + seq![c] =~= seq![a, b, c]);
}

/// Writing a version and parsing what was written gives the version back.
pub proof fn law_version_round_trip(v: Version)
    ensures
        version_of(version_text(v)) == Ok::<Version, ParseFault>(v),
{
    let a = crate::text::decimal(v.major as nat);
    let b = crate::text::decimal(v.minor as nat);
    let c = crate::text::decimal(v.patch as nat);
    reveal_strlit("v");
    crate::text::lemma_decimal(v.major as nat);
    crate::text::lemma_decimal(v.minor as nat);
    crate::text::lemma_decimal(v.patch as nat);
    crate::text::lemma_digits_lack(a, '.');
    crate::text::lemma_digits_lack(b, '.');
    crate::text::lemma_digits_lack(c, '.');
    crate::text::lemma_u32_of_decimal(v.major);
    crate::text::lemma_u32_of_decimal(v.minor);
    crate::text::lemma_u32_of_decimal(v.patch);
    assert(without_v(version_text(v)) =~= a + "."@ + b + "."@ + c);
    lemma_three_parts(a, b, c);
}

/// A version may be spelled with or without the `v`: both spellings give the
/// same version, or the same error.
pub proof fn law_v_is_optional(bare: Seq<char>)
    requires
        !(bare.len() > 0 && bare[0] == 'v'),
    ensures
        version_of("v"@ + bare) == version_of(bare),
{
    reveal_strlit("v");
    assert(without_v("v"@ + bare) =~= bare);
}

impl Version {
    /// The version with these three numbers.
    pub fn new(major: u32, minor: u32, patch: u32) -> (r: Version)
        ensures
            r == (Version { major, minor, patch }),
    {
        Version { major, minor, patch }
    }

    /// Parses a version such as `v1.0.0` or `1.0.0`.
    ///
    /// # Errors
    /// [`ParseError::InvalidVersion`] gives the number of parts where there
    /// are not three, else the first part that is no `u32`.
    pub fn parse(s: &str) -> (r: Result<Version, ParseError>)
        ensures
            match version_of(s@) {
                Ok(v) => r matches Ok(version) && version == v,
                Err(fault) => r matches Err(e) && e@ == fault,
            },
    {
        let whole = chars_of(s);
        let bare = if whole.len() > 0 && whole[0] == 'v' {
            skip_chars(&whole, 1)
        } else {
            whole
        };
        let parts = split_chars(&bare, '.');
        let ghost all = crate::text::split(bare@, '.');
        assert(all.len() == parts@.len());
        if parts.len() != 3 {
            let mut message = "expected 3 parts, got ".to_string();
            push_decimal(&mut message, parts.len() as u64);
            let message = message.concat(": ");
            let rest = string_of(&bare);
            return Err(ParseError::InvalidVersion(message.concat(rest.as_str())));
        }
        assert(all[0] == parts@[0]@ && all[1] == parts@[1]@ && all[2] == parts@[2]@);
        let major = match parse_u32(&parts[0]) {
            Some(n) => n,
            None => {
                let part = string_of(&parts[0]);
                return Err(
                    ParseError::InvalidVersion(
                        "invalid major version: ".to_string().concat(part.as_str()),
                    ),
                );
            },
        };
        let minor = match parse_u32(&parts[1]) {
            Some(n) => n,
            None => {
                let part = string_of(&parts[1]);
                return Err(
                    ParseError::InvalidVersion(
                        "invalid minor version: ".to_string().concat(part.as_str()),
                    ),
                );
            },
        };
        let patch = match parse_u32(&parts[2]) {
            Some(n) => n,
            None => {
                let part = string_of(&parts[2]);
                return Err(
                    ParseError::InvalidVersion(
                        "invalid patch version: ".to_string().concat(part.as_str()),
                    ),
                );
            },
        };
        Ok(Version { major, minor, patch })
    }

    /// The version as text, with the `v`.
    pub fn text(&self) -> (r: String)
        ensures
            r@ == version_text(*self),
    {
        let mut out = "v".to_string();
        push_decimal(&mut out, self.major as u64);
        let mut out = out.concat(".");
        push_decimal(&mut out, self.minor as u64);
        let mut out = out.concat(".");
        push_decimal(&mut out, self.patch as u64);
        out
    }
}

impl Clone for Version {
    fn clone(&self) -> (r: Version)
        ensures
            r == *self,
    {
        Version { major: self.major, minor: self.minor, patch: self.patch }
    }
}

} // verus!
