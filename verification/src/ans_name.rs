//! ANS names: a version and a host in one URI, `ans://v1.0.0.agent.example.com`.

use vstd::prelude::*;
use vstd::string::*;

use crate::error::{ParseError, ParseFault};
use crate::fqdn::Fqdn;
use crate::text::{chars_of, has_prefix, skip_chars, split_n_chars, string_of};
use crate::version::Version;

verus! {

/// The name of an agent: the host it runs on and its version.
#[derive(Debug)]
pub struct AnsName {
    version: Version,
    fqdn: Fqdn,
}

/// What an [`AnsName`] says.
pub struct AnsNameParts {
    pub version: Version,
    pub host: Seq<char>,
}

impl View for AnsName {
    type V = AnsNameParts;

    closed spec fn view(&self) -> AnsNameParts {
        AnsNameParts { version: self.version, host: self.fqdn@ }
    }
}

/// An ANS name as text.
pub open spec fn ans_name_text(name: AnsNameParts) -> Seq<char> {
    "ans://"@ + crate::version::version_text(name.version) + "."@ + name.host
}

/// The ANS name that `uri` spells, or why it spells none.
///
/// Behind the scheme come a version, with its `v`, and a host. What stands
/// before the third dot is the version.
pub open spec fn ans_name_of(uri: Seq<char>) -> Result<AnsNameParts, ParseFault> {
    let rest = uri.skip("ans://"@.len() as int);
    let parts = crate::text::split_n(rest, '.', 4);
    if !crate::text::starts_with(uri, "ans://"@) {
        Err(ParseFault::AnsName("ANS name must start with 'ans://': "@ + uri))
    } else if !(rest.len() > 0 && rest[0] == 'v') {
        Err(ParseFault::AnsName("ANS name version must start with 'v': "@ + uri))
    } else if parts.len() < 4 {
        Err(
            ParseFault::AnsName(
                "ANS name must have format 'ans://vX.Y.Z.fqdn', got: "@ + uri,
            ),
        )
    } else {
        match crate::version::version_of(parts[0] + "."@ + parts[1] + "."@ + parts[2]) {
            Err(fault) => Err(fault),
            Ok(version) => match crate::fqdn::fqdn_of(parts[3]) {
                Err(fault) => Err(fault),
                Ok(host) => Ok(AnsNameParts { version, host }),
            },
        }
    }
}

/// The text of an ANS name begins with the scheme; the rest has the numbers of
/// the version and the host for its pieces.
proof fn lemma_name_pieces(name: AnsNameParts)
    ensures
        ({
            let uri = ans_name_text(name);
            let a = "v"@ + crate::text::decimal(name.version.major as nat);
            let b = crate::text::decimal(name.version.minor as nat);
            let c = crate::text::decimal(name.version.patch as nat);
            let rest = uri.skip("ans://"@.len() as int);
            &&& crate::text::starts_with(uri, "ans://"@)
            &&& rest.len() > 0 && rest[0] == 'v'
            &&& crate::text::split_n(rest, '.', 4) == seq![a, b, c, name.host]
            &&& a + "."@ + b + "."@ + c == crate::version::version_text(name.version)
        }),
{
    let uri = ans_name_text(name);
    let a = "v"@ + crate::text::decimal(name.version.major as nat);
    let b = crate::text::decimal(name.version.minor as nat);
    let c = crate::text::decimal(name.version.patch as nat);
    let rest = uri.skip("ans://"@.len() as int);
    reveal_strlit("v");
    reveal_strlit(".");
    assert(uri.take("ans://"@.len() as int) =~= "ans://"@);
    assert(a + "."@ + b + "."@ + c =~= crate::version::version_text(name.version));
    let tail2 = c.push('.') + name.host;
    let tail1 = b.push('.') + tail2;
    assert(rest =~= a.push('.') + tail1);
    crate::text::lemma_decimal(name.version.major as nat);
    crate::text::lemma_decimal(name.version.minor as nat);
    crate::text::lemma_decimal(name.version.patch as nat);
    let major = crate::text::decimal(name.version.major as nat);
    crate::text::lemma_digits_lack(major, '.');
    crate::text::lemma_digits_lack(b, '.');
    crate::text::lemma_digits_lack(c, '.');
    assert(!a.contains('.')) by {
        if a.contains('.') {
            let k = choose|k: int| 0 <= k < a.len() && a[k] == '.';
            assert(major[k - 1] == '.');
        }
    }
    crate::text::lemma_split_n_first(a, tail1, '.', 4);
    crate::text::lemma_split_n_first(b, tail2, '.', 3);
    crate::text::lemma_split_n_first(c, name.host, '.', 2);
    crate::text::lemma_split_n_one(name.host, '.');
    assert(seq![a] + (seq![b] + (seq![c] + seq![name.host])) =~= seq![a, b, c, name.host]);
}

/// Writing the ANS name of a version and a canonical host and parsing what was
/// written gives the two back.
pub proof fn law_ans_name_round_trip(name: AnsNameParts)
    requires
        crate::fqdn::canonical_host(name.host),
    ensures
        ans_name_of(ans_name_text(name)) == Ok::<AnsNameParts, ParseFault>(name),
{
    lemma_name_pieces(name);
    crate::version::law_version_round_trip(name.version);
    crate::fqdn::law_canonical_host_is_kept(name.host);
}

/// What parsing accepts has a canonical host, and its text parses to the same
/// name again.
pub proof fn law_parsed_name_is_canonical(uri: Seq<char>)
    ensures
        ans_name_of(uri) matches Ok(name) ==> crate::fqdn::canonical_host(name.host)
            && ans_name_of(ans_name_text(name)) == Ok::<AnsNameParts, ParseFault>(name),
{
    let parts = crate::text::split_n(uri.skip("ans://"@.len() as int), '.', 4);
    if let Ok(name) = ans_name_of(uri) {
        crate::fqdn::law_parsed_host_is_canonical(parts[3]);
        law_ans_name_round_trip(name);
    }
}

/// Two ANS names with the same text are the same.
pub proof fn law_ans_name_text_is_unique(a: AnsNameParts, b: AnsNameParts)
    requires
        crate::fqdn::canonical_host(a.host),
        crate::fqdn::canonical_host(b.host),
        ans_name_text(a) == ans_name_text(b),
    ensures
        a == b,
{
    law_ans_name_round_trip(a);
    law_ans_name_round_trip(b);
}

/// A version whose `v` is doubled is no version.
proof fn lemma_double_v(s: Seq<char>)
    requires
        s.len() >= 2,
        s[0] == 'v',
        s[1] == 'v',
    ensures
        crate::version::version_of(s) is Err,
{
    let bare = crate::version::without_v(s);
    let parts = crate::text::split(bare, '.');
    assert(bare[0] == 'v');
    crate::text::lemma_split_head(bare, '.', 1);
    if parts.len() == 3 {
        assert(parts[0].take(1)[0] == bare.take(1)[0]);
        assert(!crate::text::is_digit(parts[0][0]));
    }
}

/// A second `v` before the version makes a name that is rejected.
pub proof fn law_double_v_is_rejected(s: Seq<char>)
    ensures
        ans_name_of("ans://vv"@ + s) is Err,
{
    let uri = "ans://vv"@ + s;
    reveal_strlit("ans://");
    reveal_strlit("ans://vv");
    reveal_strlit(".");
    let rest = uri.skip("ans://"@.len() as int);
    assert(rest[0] == 'v' && rest[1] == 'v');
    let parts = crate::text::split_n(rest, '.', 4);
    crate::text::lemma_split_n_head(rest, '.', 4, 2);
    if parts.len() >= 4 {
        let version = parts[0] + "."@ + parts[1] + "."@ + parts[2];
        assert(parts[0].take(2)[0] == rest.take(2)[0]);
        assert(parts[0].take(2)[1] == rest.take(2)[1]);
        assert(version[0] == 'v' && version[1] == 'v');
        lemma_double_v(version);
    }
}

/// The text of an ANS name with a canonical host is ASCII.
pub proof fn lemma_ans_name_ascii(name: AnsNameParts)
    requires
        crate::fqdn::canonical_host(name.host),
    ensures
        vstd::utf8::is_ascii_chars(ans_name_text(name)),
{
    reveal_strlit("ans://");
    reveal_strlit("v");
    reveal_strlit(".");
    let a = crate::text::decimal(name.version.major as nat);
    let b = crate::text::decimal(name.version.minor as nat);
    let c = crate::text::decimal(name.version.patch as nat);
    crate::text::lemma_decimal(name.version.major as nat);
    crate::text::lemma_decimal(name.version.minor as nat);
    crate::text::lemma_decimal(name.version.patch as nat);
    crate::fqdn::lemma_canonical_chars(name.host);
    assert(forall|i: int| 0 <= i < a.len() ==> crate::text::is_digit(#[trigger] a[i]));
    assert(forall|i: int| 0 <= i < b.len() ==> crate::text::is_digit(#[trigger] b[i]));
    assert(forall|i: int| 0 <= i < c.len() ==> crate::text::is_digit(#[trigger] c[i]));
}

impl AnsName {
    /// The version.
    pub fn version(&self) -> (r: &Version)
        ensures
            *r == self@.version,
    {
        &self.version
    }

    /// The host.
    pub fn fqdn(&self) -> (r: &Fqdn)
        ensures
            r@ == self@.host,
    {
        &self.fqdn
    }

    /// Parses `ans://v<major>.<minor>.<patch>.<fqdn>`.
    ///
    /// # Errors
    /// [`ParseError::InvalidAnsName`] where the text has another form,
    /// [`ParseError::InvalidVersion`] or [`ParseError::InvalidFqdn`] where it
    /// has that form and the version or the host is not valid.
    pub fn parse(uri: &str) -> (r: Result<AnsName, ParseError>)
        ensures
            match ans_name_of(uri@) {
                Ok(parts) => r matches Ok(name) && name@ == parts,
                Err(fault) => r matches Err(e) && e@ == fault,
            },
    {
        let whole = chars_of(uri);
        let scheme = chars_of("ans://");
        if !has_prefix(&whole, &scheme) {
            return Err(
                ParseError::InvalidAnsName(
                    "ANS name must start with 'ans://': ".to_string().concat(uri),
                ),
            );
        }
        let rest = skip_chars(&whole, scheme.len());
        if rest.len() == 0 || rest[0] != 'v' {
            return Err(
                ParseError::InvalidAnsName(
                    "ANS name version must start with 'v': ".to_string().concat(uri),
                ),
            );
        }
        let parts = split_n_chars(&rest, '.', 4);
        let ghost all = crate::text::split_n(rest@, '.', 4);
        assert(all.len() == parts@.len());
        if parts.len() < 4 {
            return Err(
                ParseError::InvalidAnsName(
                    "ANS name must have format 'ans://vX.Y.Z.fqdn', got: ".to_string().concat(uri),
                ),
            );
        }
        assert(all[0] == parts@[0]@ && all[1] == parts@[1]@ && all[2] == parts@[2]@ && all[3]
            == parts@[3]@);
        let major = string_of(&parts[0]);
        let minor = string_of(&parts[1]);
        let patch = string_of(&parts[2]);
        let numbers = major.concat(".").concat(minor.as_str()).concat(".").concat(patch.as_str());
        let version = match Version::parse(numbers.as_str()) {
            Ok(version) => version,
            Err(e) => return Err(e),
        };
        let host = string_of(&parts[3]);
        let fqdn = match Fqdn::new(host.as_str()) {
            Ok(fqdn) => fqdn,
            Err(e) => return Err(e),
        };
        Ok(AnsName { version, fqdn })
    }

    /// The name as text.
    pub fn text(&self) -> (r: String)
        ensures
            r@ == ans_name_text(self@),
            crate::fqdn::canonical_host(self@.host),
    {
        let version = self.version.text();
        "ans://".to_string().concat(version.as_str()).concat(".").concat(self.fqdn.as_str())
    }
}

} // verus!
