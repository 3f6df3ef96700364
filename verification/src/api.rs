use vstd::prelude::*;

use kube_core::gvk::ParseGroupVersionError;
use kube_core::{ApiResource, GroupVersion, GroupVersionKind};


verus! {

#[verifier::external_type_specification]
#[verifier::external_body]
pub struct ExParseGroupVersionError(ParseGroupVersionError);

/// The place of the first `c` in `s`, or the length of `s` when there is none.
pub open spec fn first_index_of(s: Seq<char>, c: char) -> int
    decreases s.len(),
{
    if s.len() == 0 {
        0
    } else if s[0] == c {
        0
    } else {
        1 + first_index_of(s.drop_first(), c)
    }
}

/// The group and the version named by an `apiVersion` text: what stands before
/// the first `/` and what follows it, or no group and the whole text.
pub open spec fn group_version_parts(s: Seq<char>) -> (Seq<char>, Seq<char>) {
    let i = first_index_of(s, '/');
    if i < s.len() {
        (s.take(i), s.skip(i + 1))
    } else {
        (Seq::<char>::empty(), s)
    }
}

/// The `apiVersion` text of a group and a version: the version alone for the
/// core group, `group/version` otherwise.
pub open spec fn api_version_text(group: Seq<char>, version: Seq<char>) -> Seq<char> {
    if group.len() == 0 {
        version
    } else {
        group + seq!['/'] + version
    }
}

/// Whether `kube` can guess a plural for `kind`: its guess panics on the kind `y`
/// (in either case), where it looks at the letter before a final `y` that is not there.
pub open spec fn plural_guessable(kind: Seq<char>) -> bool {
    kind != seq!['y'] && kind != seq!['Y']
}

/// Whether every character of `s` is ASCII.
pub open spec fn is_ascii_text(s: Seq<char>) -> bool {
    forall|i: int| 0 <= i < s.len() ==> (s[i] as int) < 128
}

/// An ASCII capital letter made small; any other character kept.
pub open spec fn ascii_lower(c: char) -> char {
    if 65 <= (c as int) <= 90 {
        ((c as int) + 32) as char
    } else {
        c
    }
}

/// Whether `s` ends with `suffix`.
pub open spec fn ends_with(s: Seq<char>, suffix: Seq<char>) -> bool {
    s.len() >= suffix.len() && s.skip(s.len() - suffix.len()) == suffix
}

/// Whether `c` is one of the vowels `a`, `e`, `i`, `o`, `u`.
pub open spec fn is_vowel(c: char) -> bool {
    c == 'a' || c == 'e' || c == 'i' || c == 'o' || c == 'u'
}

/// The plural that `kube` guesses for a lower-cased ASCII kind: a few fixed
/// words; `es` after `s`, `x`, `z`, `ch` or `sh`; `ies` for a `y` after a
/// consonant; `s` otherwise.
pub open spec fn ascii_plural(word: Seq<char>) -> Seq<char> {
    if word == "endpoints"@ || word == "endpointslices"@ {
        word
    } else if word == "nodemetrics"@ {
        "nodes"@
    } else if word == "podmetrics"@ {
        "pods"@
    } else if ends_with(word, seq!['s']) || ends_with(word, seq!['x']) || ends_with(word, seq!['z'])
        || ends_with(word, seq!['c', 'h']) || ends_with(word, seq!['s', 'h']) {
        word + seq!['e', 's']
    } else if word.len() >= 2 && word.last() == 'y' && !is_vowel(word[word.len() - 2]) {
        word.drop_last() + seq!['i', 'e', 's']
    } else {
        word + seq!['s']
    }
}

/// The plural resource name that `kube` guesses for a kind.
pub uninterp spec fn guessed_plural(kind: Seq<char>) -> Seq<char>;

/// An API group and version, such as `apps` and `v1`.
pub struct ApiGroupVersion {
    pub group: String,
    pub version: String,
}

/// What the API server is asked about: the group, version and kind that the
/// user named, and the names derived from them.
pub struct ResourceType {
    pub group: String,
    pub version: String,
    pub api_version: String,
    pub kind: String,
    pub plural: String,
}

/// `kube_core::GroupVersion::from_str` (re-exported as `kube::core`): splits at the first `/` (`splitn(2, '/')`),
/// or takes the whole text as the version of the core group. As `splitn` always
/// yields one or two pieces, it never fails.
#[verifier::external_body]
fn parse_group_version(text: &str) -> (res: Result<ApiGroupVersion, ParseGroupVersionError>)
    ensures
        res is Ok,
        res matches Ok(gv) ==> (gv.group@, gv.version@) == group_version_parts(text@),
{
    text.parse::<GroupVersion>().map(|gv| ApiGroupVersion { group: gv.group, version: gv.version })
}

/// `kube_core::ApiResource::from_gvk` (re-exported as `kube::core`) on `GroupVersionKind::gvk(group, version, kind)`:
/// keeps the group, version and kind, writes the `apiVersion` text, and guesses
/// the plural from the lower-cased kind (named `guessed_plural`; for an ASCII kind
/// `to_plural`'s few rules are written out as `ascii_plural`). For the kind `y`
/// the guess subtracts past zero (`word.len() - 2`), a panic in debug builds, which
/// the `requires` rules out.
#[verifier::external_body]
fn api_resource_from_gvk(group: &str, version: &str, kind: &str) -> (res: ResourceType)
    requires
        plural_guessable(kind@),
    ensures
        res.group@ == group@,
        res.version@ == version@,
        res.kind@ == kind@,
        res.api_version@ == api_version_text(group@, version@),
        res.plural@ == guessed_plural(kind@),
        is_ascii_text(kind@) ==> res.plural@ == ascii_plural(kind@.map_values(|c: char| ascii_lower(c))),
{
    let ar = ApiResource::from_gvk(&GroupVersionKind::gvk(group, version, kind));
    ResourceType { group: ar.group, version: ar.version, api_version: ar.api_version, kind: ar.kind, plural: ar.plural }
}

/// The group and version that an object's `apiVersion` names.
pub fn api_group_version(api_version: &str) -> (gv: ApiGroupVersion)
    ensures
        (gv.group@, gv.version@) == group_version_parts(api_version@),
{
    match parse_group_version(api_version) {
        Ok(gv) => gv,
        Err(_) => {
            proof {
                assert(false);
            }
            ApiGroupVersion { group: String::new(), version: String::new() }
        },
    }
}

/// The resource type that a group, a version and a kind name.
pub fn resource_type(group: &str, version: &str, kind: &str) -> (rt: ResourceType)
    requires
        plural_guessable(kind@),
    ensures
        rt.group@ == group@,
        rt.version@ == version@,
        rt.kind@ == kind@,
        rt.api_version@ == api_version_text(group@, version@),
        rt.plural@ == guessed_plural(kind@),
        is_ascii_text(kind@) ==> rt.plural@ == ascii_plural(kind@.map_values(|c: char| ascii_lower(c))),
{
    api_resource_from_gvk(group, version, kind)
}

impl ApiGroupVersion {
    /// The `apiVersion` text of this group and version.
    pub fn api_version(&self) -> (s: String)
        ensures
            s@ == api_version_text(self.group@, self.version@),
    {
        if self.group.as_str().unicode_len() == 0 {
            self.version.clone()
        } else {
            proof {
                reveal_strlit("/");
            }
            let mut s = self.group.clone();
            s.append("/");
            s.append(self.version.as_str());
            assert(s@ =~= self.group@ + seq!['/'] + self.version@);
            s
        }
    }
}

proof fn lemma_first_index_of(s: Seq<char>, c: char)
    ensures
        0 <= first_index_of(s, c) <= s.len(),
        first_index_of(s, c) < s.len() ==> s[first_index_of(s, c)] == c,
        forall|j: int| 0 <= j < first_index_of(s, c) ==> s[j] != c,
    decreases s.len(),
{
    if s.len() > 0 && s[0] != c {
        lemma_first_index_of(s.drop_first(), c);
        assert forall|j: int| 0 <= j < first_index_of(s, c) implies s[j] != c by {
            if j > 0 {
                assert(s[j] == s.drop_first()[j - 1]);
            }
        }
    }
}

/// Reading the group and version out of an `apiVersion` text and writing them
/// back gives the text again, unless it starts with `/`.
pub proof fn law_api_version_roundtrip(s: Seq<char>)
    requires
        !(s.len() > 0 && s[0] == '/'),
    ensures
        api_version_text(group_version_parts(s).0, group_version_parts(s).1) == s,
{
    lemma_first_index_of(s, '/');
    let i = first_index_of(s, '/');
    if i < s.len() {
        assert(i != 0);
        assert(s.take(i) + seq!['/'] + s.skip(i + 1) =~= s);
    }
}

} // verus!
