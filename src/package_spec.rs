use vstd::prelude::*;

use crate::text::{
    chars_of, concat_str, count_sep, lemma_pieces_len, opt_string_view, pieces, split_pieces, views,
    Sep,
};

verus! {

/// `i` is the position of the first `@` in `s`.
pub open spec fn first_at_sign(s: Seq<char>, i: int) -> bool {
    &&& 0 <= i < s.len()
    &&& s[i] == '@'
    &&& forall|j: int| 0 <= j < i ==> s[j] != '@'
}

/// A token split at its first `@` into name and version.
pub open spec fn split_version(s: Seq<char>) -> (Seq<char>, Option<Seq<char>>) {
    if s.contains('@') {
        let i = choose|i: int| first_at_sign(s, i);
        (s.subrange(0, i), Some(s.subrange(i + 1, s.len() as int)))
    } else {
        (s, None)
    }
}

/// Splits a `name@version` token at its first `@`.
pub fn parse_package_spec(spec: &str) -> (r: (&str, Option<&str>))
    ensures
        r.1 is None <==> !spec@.contains('@'),
        r.1 is None ==> r.0@ == spec@,
        r.1 is Some ==> exists|i: int|
            #![trigger first_at_sign(spec@, i)]
            first_at_sign(spec@, i) && r.0@ == spec@.subrange(0, i) && r.1->0@ == spec@.subrange(
                i + 1,
                spec@.len() as int,
            ),
{
    let cs = chars_of(spec);
    let n = cs.len();
    let mut i: usize = 0;
    while i < n
        invariant
            cs@ == spec@,
            n == cs@.len(),
            i <= n,
            forall|j: int| 0 <= j < i ==> spec@[j] != '@',
        decreases n - i,
    {
        if cs[i] == '@' {
            let name = spec.substring_char(0, i);
            let version = spec.substring_char(i + 1, n);
            assert(first_at_sign(spec@, i as int));
            return (name, Some(version));
        }
        i = i + 1;
    }
    assert(!spec@.contains('@'));
    (spec, None)
}

/// How a package name is qualified.
#[derive(Debug)]
pub enum NameForm {
    /// A bare name from the main repository.
    Plain,
    /// `owner/tapname/formula`: a formula of a third-party tap.
    Tapped { tap: String, formula: String },
    /// Any other number of `/`.
    Invalid,
}

/// The tap `owner/tapname` of a name with exactly two `/`.
pub open spec fn tap_of(name: Seq<char>) -> Seq<char> {
    pieces(name, Sep::Slash)[0] + "/"@ + pieces(name, Sep::Slash)[1]
}

/// Tells a bare name from a tap-qualified one, by its number of `/`.
pub fn classify_name(name: &str) -> (r: NameForm)
    ensures
        count_sep(name@, Sep::Slash) == 0 <==> r is Plain,
        count_sep(name@, Sep::Slash) == 2 <==> r is Tapped,
        r matches NameForm::Tapped { tap, formula } ==> tap@ == tap_of(name@) && formula@ == pieces(
            name@,
            Sep::Slash,
        )[2],
{
    let parts = split_pieces(name, Sep::Slash);
    proof {
        lemma_pieces_len(name@, Sep::Slash);
        assert(views(parts@)[0] == parts@[0]@);
    }
    if parts.len() == 1 {
        NameForm::Plain
    } else if parts.len() == 3 {
        proof {
            assert(views(parts@)[1] == parts@[1]@);
            assert(views(parts@)[2] == parts@[2]@);
        }
        let head = concat_str(parts[0].as_str(), "/");
        let tap = concat_str(head.as_str(), parts[1].as_str());
        NameForm::Tapped { tap, formula: parts[2].clone() }
    } else {
        NameForm::Invalid
    }
}

/// A package as the user asked for it.
#[derive(Debug)]
pub struct PackageSpec {
    /// The name as given, tap qualifier included.
    pub name: String,
    pub version: Option<String>,
    /// `owner/tapname` when the name has exactly two `/`.
    pub tap_qualifier: Option<String>,
    pub is_cask: bool,
    pub is_node: bool,
}

/// Why a package token could not be read.
#[derive(Debug, PartialEq, Eq, Structural)]
pub enum SpecError {
    /// The name holds one, or three or more, `/`.
    InvalidFormat,
}

impl PackageSpec {
    /// Reads a token `name`, `name@version` or `owner/tapname/name[@version]`.
    pub fn parse(token: &str, is_cask: bool, is_node: bool) -> (r: Result<PackageSpec, SpecError>)
        ensures
            ({
                let (n, v) = split_version(token@);
                let c = count_sep(n, Sep::Slash);
                &&& r is Err <==> (c != 0 && c != 2)
                &&& r is Ok ==> {
                    let p = r->Ok_0;
                    &&& p.name@ == n
                    &&& opt_string_view(p.version) == v
                    &&& (c == 0 ==> p.tap_qualifier is None)
                    &&& (c == 2 ==> p.tap_qualifier is Some && p.tap_qualifier->0@ == tap_of(n))
                    &&& p.is_cask == is_cask
                    &&& p.is_node == is_node
                }
            }),
    {
        let (name, version) = parse_package_spec(token);
        proof {
            if token@.contains('@') {
                let i = choose|i: int| first_at_sign(token@, i);
                let k = choose|k: int|
                    first_at_sign(token@, k) && name@ == token@.subrange(0, k)
                        && version->0@ == token@.subrange(k + 1, token@.len() as int);
                assert(i == k) by {
                    if i < k {
                        assert(token@[i] != '@');
                    } else if k < i {
                        assert(token@[k] != '@');
                    }
                }
            }
        }
        let version_owned = match version {
            Some(v) => Some(String::from_str(v)),
            None => None,
        };
        match classify_name(name) {
            NameForm::Plain => Ok(
                PackageSpec {
                    name: String::from_str(name),
                    version: version_owned,
                    tap_qualifier: None,
                    is_cask,
                    is_node,
                },
            ),
            NameForm::Tapped { tap, formula: _ } => Ok(
                PackageSpec {
                    name: String::from_str(name),
                    version: version_owned,
                    tap_qualifier: Some(tap),
                    is_cask,
                    is_node,
                },
            ),
            NameForm::Invalid => Err(SpecError::InvalidFormat),
        }
    }
}

} // verus!
