//! Fully qualified domain names.

use vstd::prelude::*;
use vstd::string::*;

use crate::error::{ParseError, ParseFault};
use crate::text::{chars_of, lower_chars, split_chars, string_of, trim_end_chars};

verus! {

/// The greatest number of bytes in a label.
pub const MAX_LABEL_LEN: usize = 63;

/// A fully qualified domain name in its canonical form: lowercase, without a
/// dot at the end.
#[derive(Debug)]
pub struct Fqdn {
    name: String,
}

impl View for Fqdn {
    type V = Seq<char>;

    closed spec fn view(&self) -> Seq<char> {
        self.name@
    }
}

/// A character that a label may hold, in either case.
pub open spec fn label_char(c: char) -> bool {
    ('a' <= c && c <= 'z') || ('A' <= c && c <= 'Z') || ('0' <= c && c <= '9') || c == '-'
}

/// Why `label` cannot stand in a domain name, if it cannot.
pub open spec fn label_fault(label: Seq<char>) -> Option<Seq<char>> {
    if label.len() == 0 {
        Some("empty label"@)
    } else if vstd::utf8::encode_utf8(label).len() > MAX_LABEL_LEN {
        Some("label too long"@)
    } else if exists|i: int| 0 <= i < label.len() && !label_char(#[trigger] label[i]) {
        Some("invalid character in label: "@ + label)
    } else if label[0] == '-' || label.last() == '-' {
        Some("label cannot start or end with hyphen"@)
    } else {
        None
    }
}

/// What is wrong with the first of `labels` that is not valid, if any.
pub open spec fn first_label_fault(labels: Seq<Seq<char>>) -> Option<Seq<char>>
    decreases labels.len(),
{
    if labels.len() == 0 {
        None
    } else {
        match first_label_fault(labels.drop_last()) {
            Some(reason) => Some(reason),
            None => label_fault(labels.last()),
        }
    }
}

/// The canonical form of `domain`, or why it is no domain name.
///
/// Dots at the end are dropped and the case is lowered.
pub open spec fn fqdn_of(domain: Seq<char>) -> Result<Seq<char>, ParseFault> {
    let trimmed = crate::text::trim_end(domain, '.');
    if domain.len() == 0 {
        Err(ParseFault::Fqdn("empty domain"@))
    } else {
        match first_label_fault(crate::text::split(trimmed, '.')) {
            Some(reason) => Err(ParseFault::Fqdn(reason)),
            None => Ok(crate::text::lower(trimmed)),
        }
    }
}

/// A label in canonical form: 1 to 63 lowercase letters, digits and hyphens,
/// with no hyphen at either end.
pub open spec fn canonical_label(label: Seq<char>) -> bool {
    &&& 1 <= label.len() <= MAX_LABEL_LEN
    &&& forall|i: int|
        0 <= i < label.len() ==> label_char(#[trigger] label[i]) && !('A' <= label[i] && label[i]
            <= 'Z')
    &&& label[0] != '-'
    &&& label.last() != '-'
}

/// A domain name in canonical form: canonical labels joined by dots.
pub open spec fn canonical_host(host: Seq<char>) -> bool {
    forall|i: int|
        0 <= i < crate::text::split(host, '.').len() ==> canonical_label(
            #[trigger] crate::text::split(host, '.')[i],
        )
}

/// No label of `labels` is at fault exactly if there is no first one.
pub proof fn lemma_no_fault(labels: Seq<Seq<char>>)
    ensures
        first_label_fault(labels) is None <==> forall|i: int|
            0 <= i < labels.len() ==> label_fault(#[trigger] labels[i]) is None,
    decreases labels.len(),
{
    if labels.len() > 0 {
        lemma_no_fault(labels.drop_last());
        assert(labels.last() == labels[labels.len() - 1]);
        assert forall|i: int| 0 <= i < labels.len() - 1 implies labels.drop_last()[i]
            == #[trigger] labels[i] by {}
        if first_label_fault(labels) is None {
            assert forall|i: int| 0 <= i < labels.len() implies label_fault(
                #[trigger] labels[i],
            ) is None by {
                if i < labels.len() - 1 {
                    assert(labels.drop_last()[i] == labels[i]);
                }
            }
        }
    }
}

/// The first fault among `labels` is that of the first label that has one.
pub proof fn lemma_first_fault(labels: Seq<Seq<char>>, k: int)
    requires
        0 <= k < labels.len(),
        first_label_fault(labels.take(k)) is None,
        label_fault(labels[k]) is Some,
    ensures
        first_label_fault(labels) == label_fault(labels[k]),
    decreases labels.len(),
{
    if k == labels.len() - 1 {
        assert(labels.drop_last() =~= labels.take(k));
    } else {
        assert(labels.drop_last().take(k) =~= labels.take(k));
        lemma_first_fault(labels.drop_last(), k);
    }
}

/// Labels are ASCII, so that they have as many bytes as characters.
pub proof fn lemma_label_bytes(label: Seq<char>)
    requires
        forall|i: int| 0 <= i < label.len() ==> label_char(#[trigger] label[i]),
    ensures
        vstd::utf8::encode_utf8(label).len() == label.len(),
{
    assert(vstd::utf8::is_ascii_chars(label));
    vstd::utf8::is_ascii_chars_encode_utf8(label);
}

/// A canonical label has no fault, and lowering a label without fault makes
/// it canonical.
proof fn lemma_label_lower(label: Seq<char>)
    ensures
        canonical_label(label) ==> label_fault(label) is None && crate::text::lower(label) == label,
        label_fault(label) is None ==> canonical_label(crate::text::lower(label)),
{
    if canonical_label(label) {
        lemma_label_bytes(label);
        assert(crate::text::lower(label) =~= label);
    }
    if label_fault(label) is None {
        lemma_label_bytes(label);
        let low = crate::text::lower(label);
        assert forall|i: int| 0 <= i < low.len() implies label_char(#[trigger] low[i]) && !('A'
            <= low[i] && low[i] <= 'Z') by {
            assert(label_char(label[i]));
        }
        assert(low.last() == crate::text::lower_char(label.last()));
        assert(low[0] == crate::text::lower_char(label[0]));
    }
}

/// What parsing accepts is in canonical form.
pub proof fn law_parsed_host_is_canonical(domain: Seq<char>)
    ensures
        fqdn_of(domain) matches Ok(host) ==> canonical_host(host),
{
    let trimmed = crate::text::trim_end(domain, '.');
    let labels = crate::text::split(trimmed, '.');
    if fqdn_of(domain) is Ok {
        lemma_no_fault(labels);
        crate::text::lemma_split_lower(trimmed, '.');
        let low = crate::text::split(crate::text::lower(trimmed), '.');
        assert forall|i: int| 0 <= i < low.len() implies canonical_label(#[trigger] low[i]) by {
            lemma_label_lower(labels[i]);
            assert(low[i] == crate::text::lower(labels[i]));
        }
    }
}

/// The characters of a canonical host are ASCII, none of them a capital
/// letter, and the last one is not a dot.
pub proof fn lemma_canonical_chars(host: Seq<char>)
    requires
        canonical_host(host),
    ensures
        host.len() > 0,
        host.last() != '.',
        vstd::utf8::is_ascii_chars(host),
        crate::text::lower(host) == host,
{
    let labels = crate::text::split(host, '.');
    let p = |c: char| label_char(c) && !('A' <= c && c <= 'Z');
    crate::text::lemma_split_pieces(host, '.');
    assert(canonical_label(labels[labels.len() - 1]));
    assert forall|i: int, j: int| 0 <= i < labels.len() && 0 <= j < labels[i].len() implies p(
        #[trigger] labels[i][j],
    ) by {
        assert(canonical_label(labels[i]));
    }
    crate::text::lemma_split_all(host, '.', p);
    assert(crate::text::lower(host) =~= host);
}

/// A host in canonical form is accepted as it is, so that parsing what parsing
/// gave changes nothing.
pub proof fn law_canonical_host_is_kept(host: Seq<char>)
    requires
        canonical_host(host),
    ensures
        fqdn_of(host) == Ok::<Seq<char>, ParseFault>(host),
{
    let labels = crate::text::split(host, '.');
    lemma_canonical_chars(host);
    assert(crate::text::trim_end(host, '.') == host);
    lemma_no_fault(labels);
    assert forall|i: int| 0 <= i < labels.len() implies label_fault(
        #[trigger] labels[i],
    ) is None by {
        lemma_label_lower(labels[i]);
    }
}

/// Two labels that differ in case alone are both valid or both not.
proof fn lemma_label_case(a: Seq<char>, b: Seq<char>)
    requires
        crate::text::lower(a) == crate::text::lower(b),
        label_fault(a) is None,
    ensures
        label_fault(b) is None,
{
    let low = crate::text::lower(a);
    assert(a.len() == low.len() == b.len());
    assert forall|i: int| 0 <= i < b.len() implies label_char(#[trigger] b[i]) by {
        assert(label_char(a[i]));
        assert(low[i] == crate::text::lower_char(a[i]));
        assert(low[i] == crate::text::lower_char(b[i]));
    }
    lemma_label_bytes(a);
    lemma_label_bytes(b);
    assert(low[0] == crate::text::lower_char(a[0]) == crate::text::lower_char(b[0]));
    let end = a.len() - 1;
    assert(low[end] == crate::text::lower_char(a[end]) == crate::text::lower_char(b[end]));
}

/// The case in which a host is spelled does not matter: two spellings that
/// differ in case alone give the same host, in lowercase.
pub proof fn law_case_does_not_matter(a: Seq<char>, b: Seq<char>)
    requires
        crate::text::lower(a) == crate::text::lower(b),
    ensures
        fqdn_of(a) matches Ok(host) ==> fqdn_of(b) == Ok::<Seq<char>, ParseFault>(host),
        fqdn_of(a) is Ok <==> fqdn_of(b) is Ok,
{
    lemma_case_one_way(a, b);
    lemma_case_one_way(b, a);
}

proof fn lemma_case_one_way(a: Seq<char>, b: Seq<char>)
    requires
        crate::text::lower(a) == crate::text::lower(b),
    ensures
        fqdn_of(a) matches Ok(host) ==> fqdn_of(b) == Ok::<Seq<char>, ParseFault>(host),
{
    if fqdn_of(a) is Ok {
        let ta = crate::text::trim_end(a, '.');
        let tb = crate::text::trim_end(b, '.');
        let la = crate::text::split(ta, '.');
        let lb = crate::text::split(tb, '.');
        assert(crate::text::lower(a).len() == a.len());
        assert(crate::text::lower(b).len() == b.len());
        crate::text::lemma_trim_lower(a, '.');
        crate::text::lemma_trim_lower(b, '.');
        crate::text::lemma_split_lower(ta, '.');
        crate::text::lemma_split_lower(tb, '.');
        let low = crate::text::split(crate::text::lower(ta), '.');
        assert(crate::text::lower(ta) == crate::text::lower(tb));
        assert(low == la.map_values(|p: Seq<char>| crate::text::lower(p)));
        assert(low == lb.map_values(|p: Seq<char>| crate::text::lower(p)));
        lemma_no_fault(la);
        lemma_no_fault(lb);
        assert forall|i: int| 0 <= i < lb.len() implies label_fault(#[trigger] lb[i]) is None by {
            assert(label_fault(la[i]) is None);
            assert(low[i] == crate::text::lower(la[i]));
            assert(low[i] == crate::text::lower(lb[i]));
            lemma_label_case(la[i], lb[i]);
        }
    }
}

/// A dot at the end of a name does not matter.
pub proof fn law_trailing_dot_does_not_matter(domain: Seq<char>)
    requires
        domain.len() > 0,
    ensures
        fqdn_of(domain.push('.')) == fqdn_of(domain),
{
    assert(domain.push('.').drop_last() =~= domain);
}

/// Why `label` cannot stand in a domain name, if it cannot.
fn label_error(label: &Vec<char>) -> (r: Option<String>)
    ensures
        match label_fault(label@) {
            Some(reason) => r matches Some(message) && message@ == reason,
            None => r is None,
        },
{
    if label.len() == 0 {
        return Some("empty label".to_string());
    }
    let name = string_of(label);
    if name.as_str().as_bytes().len() > MAX_LABEL_LEN {
        return Some("label too long".to_string());
    }
    let mut i: usize = 0;
    while i < label.len()
        invariant
            i <= label.len(),
            label.len() > 0,
            vstd::utf8::encode_utf8(label@).len() <= MAX_LABEL_LEN,
            name@ == label@,
            forall|k: int| 0 <= k < i ==> label_char(#[trigger] label@[k]),
        decreases label.len() - i,
    {
        let c = label[i];
        if !(('a' <= c && c <= 'z') || ('A' <= c && c <= 'Z') || ('0' <= c && c <= '9') || c
            == '-') {
            assert(!label_char(label@[i as int]));
            return Some("invalid character in label: ".to_string().concat(name.as_str()));
        }
        i = i + 1;
    }
    if label[0] == '-' || label[label.len() - 1] == '-' {
        return Some("label cannot start or end with hyphen".to_string());
    }
    None
}

impl Fqdn {
    /// A value of this type is always in canonical form.
    #[verifier::type_invariant]
    pub open spec fn inv(self) -> bool {
        canonical_host(self@)
    }

    /// Parses a domain name.
    ///
    /// # Errors
    /// [`ParseError::InvalidFqdn`] says what is wrong with the name, or with
    /// the first of its labels that is not valid.
    pub fn new(domain: &str) -> (r: Result<Fqdn, ParseError>)
        ensures
            match fqdn_of(domain@) {
                Ok(host) => r matches Ok(fqdn) && fqdn@ == host,
                Err(fault) => r matches Err(e) && e@ == fault,
            },
    {
        let mut name = chars_of(domain);
        if name.len() == 0 {
            return Err(ParseError::InvalidFqdn("empty domain".to_string()));
        }
        trim_end_chars(&mut name, '.');
        let labels = split_chars(&name, '.');
        let ghost all = crate::text::split(name@, '.');
        let mut i: usize = 0;
        while i < labels.len()
            invariant
                i <= labels.len(),
                domain@.len() > 0,
                name@ == crate::text::trim_end(domain@, '.'),
                all == crate::text::split(name@, '.'),
                crate::text::pieces(labels@) == all,
                first_label_fault(all.take(i as int)) is None,
            decreases labels.len() - i,
        {
            assert(all[i as int] == labels@[i as int]@);
            if let Some(reason) = label_error(&labels[i]) {
                proof {
                    lemma_first_fault(all, i as int);
                }
                return Err(ParseError::InvalidFqdn(reason));
            }
            assert(all.take(i + 1).drop_last() =~= all.take(i as int));
            i = i + 1;
        }
        assert(all.take(i as int) =~= all);
        proof {
            law_parsed_host_is_canonical(domain@);
        }
        let host = lower_chars(&name);
        Ok(Fqdn { name: string_of(&host) })
    }

    /// The name as text. It is in canonical form.
    pub fn as_str(&self) -> (r: &str)
        ensures
            r@ == self@,
            canonical_host(self@),
    {
        proof {
            use_type_invariant(self);
        }
        self.name.as_str()
    }
}

impl Clone for Fqdn {
    fn clone(&self) -> (r: Fqdn)
        ensures
            r@ == self@,
    {
        proof {
            use_type_invariant(self);
        }
        Fqdn { name: self.name.clone() }
    }
}

} // verus!
