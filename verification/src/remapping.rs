//! The legacy remapping pipeline: parsing one `alias=org/repo@version` entry
//! into its structured parts, and translating a whole set of such entries
//! into alias/path pairs anchored under the user's dependency cache.

use vstd::prelude::*;

use crate::errors::EthliftError;
use crate::strutil::{
    count_and_first, count_char, first_index_of, is_first_index_of, lemma_count_char_concat,
    lemma_count_char_pos_first, lemma_count_char_singleton, lemma_count_char_zero,
    lemma_first_index_agrees,
};

verus! {

/// One alias-to-path substitution rule: `alias` is the import prefix and
/// `target_path` the filesystem root of the dependency it maps to.
#[derive(Debug, Clone, PartialEq, Eq)]
pub struct RemappingEntry {
    pub alias: String,
    pub target_path: String,
}

/// The part of `s` left of its first `=`.
pub open spec fn spec_lhs(s: Seq<char>) -> Seq<char> {
    s.subrange(0, first_index_of(s, '='))
}

/// The part of `s` right of its first `=`.
pub open spec fn spec_rhs(s: Seq<char>) -> Seq<char> {
    s.subrange(first_index_of(s, '=') + 1, s.len() as int)
}

/// The organization/repository part of the right-hand side: what stands
/// before its first `@`.
pub open spec fn spec_org_repo(s: Seq<char>) -> Seq<char> {
    spec_rhs(s).subrange(0, first_index_of(spec_rhs(s), '@'))
}

/// The version part of the right-hand side: what stands after its first `@`.
pub open spec fn spec_version(s: Seq<char>) -> Seq<char> {
    spec_rhs(s).subrange(first_index_of(spec_rhs(s), '@') + 1, spec_rhs(s).len() as int)
}

/// The library short name: what stands after the first `/` of the
/// organization/repository part.
pub open spec fn spec_repo_name(s: Seq<char>) -> Seq<char> {
    spec_org_repo(s).subrange(
        first_index_of(spec_org_repo(s), '/') + 1,
        spec_org_repo(s).len() as int,
    )
}

/// A legacy remapping string is well-formed when it holds exactly one `=`,
/// its right-hand side exactly one `@`, and the part before that `@` exactly
/// one `/`.
pub open spec fn spec_well_formed_remapping(s: Seq<char>) -> bool {
    &&& count_char(s, '=') == 1
    &&& count_char(spec_rhs(s), '@') == 1
    &&& count_char(spec_org_repo(s), '/') == 1
}

/// A well-formed right-hand side splits as organization/repository, `@`,
/// version, and nothing else: reconstructing the versioned path from the two
/// parts gives back the right-hand side exactly.
pub proof fn lemma_versioned_path_round_trip(s: Seq<char>)
    requires
        spec_well_formed_remapping(s),
    ensures
        spec_rhs(s) == spec_org_repo(s) + seq!['@'] + spec_version(s),
{
    lemma_count_char_pos_first(spec_rhs(s), '@');
    let rhs = spec_rhs(s);
    let a = first_index_of(rhs, '@');
    assert(rhs =~= rhs.subrange(0, a) + seq![rhs[a]] + rhs.subrange(a + 1, rhs.len() as int));
}

/// A well-formed remapping string splits as alias, `=`, versioned path, and
/// nothing else.
pub proof fn lemma_remapping_round_trip(s: Seq<char>)
    requires
        spec_well_formed_remapping(s),
    ensures
        s == spec_lhs(s) + seq!['='] + spec_rhs(s),
{
    lemma_count_char_pos_first(s, '=');
    let e = first_index_of(s, '=');
    assert(s =~= s.subrange(0, e) + seq![s[e]] + s.subrange(e + 1, s.len() as int));
}

/// The parser round-trip, in general form: any structured input
/// `alias=org/repo@version`, with a non-empty alias that holds no `=` and
/// organization, repository and version parts that hold none of the three
/// delimiters, is well-formed and parses to (alias, repo, org/repo@version)
/// exactly, the versioned library path reproducing the right-hand side of
/// the input. The alias must hold no `=`: with one, the input holds two `=`
/// and is rejected as malformed.
pub proof fn lemma_parser_round_trip(
    s: Seq<char>,
    alias: Seq<char>,
    org: Seq<char>,
    repo: Seq<char>,
    version: Seq<char>,
)
    requires
        s == alias + seq!['='] + org + seq!['/'] + repo + seq!['@'] + version,
        alias.len() > 0,
        count_char(alias, '=') == 0,
        count_char(org, '=') == 0,
        count_char(org, '/') == 0,
        count_char(org, '@') == 0,
        count_char(repo, '=') == 0,
        count_char(repo, '/') == 0,
        count_char(repo, '@') == 0,
        count_char(version, '=') == 0,
        count_char(version, '/') == 0,
        count_char(version, '@') == 0,
    ensures
        spec_well_formed_remapping(s),
        spec_lhs(s) == alias,
        spec_repo_name(s) == repo,
        spec_rhs(s) == org + seq!['/'] + repo + seq!['@'] + version,
{
    let org_repo = org + seq!['/'] + repo;
    let rhs = org_repo + seq!['@'] + version;
    assert(s =~= alias + seq!['='] + rhs);

    lemma_count_char_singleton('=', '=');
    lemma_count_char_singleton('/', '=');
    lemma_count_char_singleton('@', '=');
    lemma_count_char_singleton('@', '@');
    lemma_count_char_singleton('/', '@');
    lemma_count_char_singleton('/', '/');
    lemma_count_char_singleton('@', '/');

    lemma_count_char_concat(org, seq!['/'], '=');
    lemma_count_char_concat(org + seq!['/'], repo, '=');
    lemma_count_char_concat(org_repo, seq!['@'], '=');
    lemma_count_char_concat(org_repo + seq!['@'], version, '=');
    lemma_count_char_concat(alias, seq!['='], '=');
    lemma_count_char_concat(alias + seq!['='], rhs, '=');
    assert(count_char(s, '=') == 1);

    lemma_count_char_concat(org, seq!['/'], '@');
    lemma_count_char_concat(org + seq!['/'], repo, '@');
    lemma_count_char_concat(org_repo, seq!['@'], '@');
    lemma_count_char_concat(org_repo + seq!['@'], version, '@');
    assert(count_char(rhs, '@') == 1);

    lemma_count_char_concat(org, seq!['/'], '/');
    lemma_count_char_concat(org + seq!['/'], repo, '/');
    assert(count_char(org_repo, '/') == 1);

    let eq_i = alias.len() as int;
    lemma_count_char_zero(alias, '=');
    assert(is_first_index_of(s, '=', eq_i)) by {
        assert(s[eq_i] == '=');
        assert forall|j: int| 0 <= j < eq_i implies s[j] != '=' by {
            assert(s[j] == alias[j]);
        }
    }
    lemma_first_index_agrees(s, '=', eq_i);
    assert(spec_lhs(s) =~= alias);
    assert(spec_rhs(s) =~= rhs);

    let at_i = org_repo.len() as int;
    lemma_count_char_zero(org, '@');
    lemma_count_char_zero(repo, '@');
    assert(is_first_index_of(rhs, '@', at_i)) by {
        assert(rhs[at_i] == '@');
        assert forall|j: int| 0 <= j < at_i implies rhs[j] != '@' by {
            assert(rhs[j] == org_repo[j]);
            if j < org.len() {
                assert(org_repo[j] == org[j]);
            } else if j == org.len() {
                assert(org_repo[j] == '/');
            } else {
                assert(org_repo[j] == repo[j - org.len() - 1]);
            }
        }
    }
    lemma_first_index_agrees(rhs, '@', at_i);
    assert(spec_org_repo(s) =~= org_repo);

    let slash_i = org.len() as int;
    lemma_count_char_zero(org, '/');
    assert(is_first_index_of(org_repo, '/', slash_i)) by {
        assert(org_repo[slash_i] == '/');
        assert forall|j: int| 0 <= j < slash_i implies org_repo[j] != '/' by {
            assert(org_repo[j] == org[j]);
        }
    }
    lemma_first_index_agrees(org_repo, '/', slash_i);
    assert(spec_repo_name(s) =~= repo);
}

/// Parses one legacy remapping entry `alias=org/repo@version` into the
/// triple (import alias, library short name, versioned library path). The
/// versioned library path is the whole right-hand side, `org/repo@version`.
/// Any other shape is rejected as malformed; nothing is guessed or
/// truncated.
pub fn parse_brownie_remapping(brownie_remapping: &str) -> (r: Result<
    (String, String, String),
    EthliftError,
>)
    ensures
        r is Ok <==> spec_well_formed_remapping(brownie_remapping@),
        r matches Ok(t) ==> {
            &&& t.0@ == spec_lhs(brownie_remapping@)
            &&& t.1@ == spec_repo_name(brownie_remapping@)
            &&& t.2@ == spec_rhs(brownie_remapping@)
        },
        r matches Err(e) ==> e == EthliftError::MalformedRemapping,
{
    let s = brownie_remapping;
    let n = s.unicode_len();
    let (eq_count, eq_first) = count_and_first(s, '=');
    if eq_count != 1 {
        return Err(EthliftError::MalformedRemapping);
    }
    let eq = eq_first.unwrap();
    proof {
        lemma_first_index_agrees(s@, '=', eq as int);
    }
    let lhs = s.substring_char(0, eq);
    let rhs = s.substring_char(eq + 1, n);
    assert(lhs@ == spec_lhs(s@));
    assert(rhs@ == spec_rhs(s@));

    let (at_count, at_first) = count_and_first(rhs, '@');
    if at_count != 1 {
        return Err(EthliftError::MalformedRemapping);
    }
    let at = at_first.unwrap();
    proof {
        lemma_first_index_agrees(rhs@, '@', at as int);
    }
    let org_repo = rhs.substring_char(0, at);
    assert(org_repo@ == spec_org_repo(s@));

    let (slash_count, slash_first) = count_and_first(org_repo, '/');
    if slash_count != 1 {
        return Err(EthliftError::MalformedRemapping);
    }
    let slash = slash_first.unwrap();
    proof {
        lemma_first_index_agrees(org_repo@, '/', slash as int);
    }
    let on = org_repo.unicode_len();
    let repo_name = org_repo.substring_char(slash + 1, on);
    assert(repo_name@ == spec_repo_name(s@));

    Ok((lhs.to_owned(), repo_name.to_owned(), rhs.to_owned()))
}

/// Where a legacy-managed dependency lives on disk: the versioned library
/// path under the fixed cache directory of the given home directory.
pub open spec fn spec_target_path(home: Seq<char>, versioned: Seq<char>) -> Seq<char> {
    home + "/.brownie/packages/"@ + versioned
}

/// Builds the on-disk location of a legacy-managed dependency from the home
/// directory and the versioned library path.
pub fn brownie_target_path(home: &str, versioned: &str) -> (r: String)
    ensures
        r@ == spec_target_path(home@, versioned@),
{
    let mut p = home.to_owned();
    p.append("/.brownie/packages/");
    p.append(versioned);
    p
}

/// Translates a set of legacy remapping strings into alias/path entries
/// anchored under the given home directory. Order is kept and duplicates are
/// not removed; one malformed entry fails the whole translation, with no
/// partial list.
pub fn convert_brownie_remappings_with_home(remappings: &Vec<String>, home: &str) -> (r: Result<
    Vec<RemappingEntry>,
    EthliftError,
>)
    ensures
        r is Ok <==> (forall|i: int|
            0 <= i < remappings@.len() ==> spec_well_formed_remapping(remappings@[i]@)),
        r matches Ok(entries) ==> {
            &&& entries@.len() == remappings@.len()
            &&& forall|i: int|
                0 <= i < remappings@.len() ==> (#[trigger] entries@[i]).alias@ == spec_lhs(
                    remappings@[i]@,
                )
            &&& forall|i: int|
                0 <= i < remappings@.len() ==> (#[trigger] entries@[i]).target_path@
                    == spec_target_path(home@, spec_rhs(remappings@[i]@))
        },
        r matches Err(e) ==> e == EthliftError::MalformedRemapping,
{
    let mut entries: Vec<RemappingEntry> = Vec::new();
    let mut i: usize = 0;
    while i < remappings.len()
        invariant
            i <= remappings@.len(),
            entries@.len() == i,
            forall|j: int| 0 <= j < i ==> spec_well_formed_remapping(remappings@[j]@),
            forall|j: int|
                0 <= j < i ==> (#[trigger] entries@[j]).alias@ == spec_lhs(remappings@[j]@),
            forall|j: int|
                0 <= j < i ==> (#[trigger] entries@[j]).target_path@ == spec_target_path(
                    home@,
                    spec_rhs(remappings@[j]@),
                ),
        decreases remappings@.len() - i,
    {
        let (alias, _lib_name, versioned) = match parse_brownie_remapping(
            remappings[i].as_str(),
        ) {
            Ok(t) => t,
            Err(_) => {
                return Err(EthliftError::MalformedRemapping);
            },
        };
        let target_path = brownie_target_path(home, versioned.as_str());
        entries.push(RemappingEntry { alias, target_path });
        i = i + 1;
    }
    Ok(entries)
}

/// Every entry's target path is the translation of the matching remapping
/// string's versioned library path, anchored under the home directory
/// `home`.
pub open spec fn entries_anchored_under(
    entries: Seq<RemappingEntry>,
    remappings: Seq<String>,
    home: Seq<char>,
) -> bool {
    forall|i: int|
        0 <= i < remappings.len() ==> (#[trigger] entries[i]).target_path@ == spec_target_path(
            home,
            spec_rhs(remappings[i]@),
        )
}

/// Relies on `directories::UserDirs`: `new` resolves the current user's home
/// directory from the environment, and `home_dir` hands it back. The outcome
/// depends on the environment, so nothing is promised of the value.
#[verifier::external_body]
fn home_directory() -> Option<String> {
    match directories::UserDirs::new() {
        Some(dirs) => dirs.home_dir().to_str().map(str::to_owned),
        None => None,
    }
}

/// Translates a set of legacy remapping strings into alias/path entries
/// anchored under the current user's home directory. Malformed entries are
/// rejected before the home directory is looked up; with no home directory
/// no path can be built, which is fatal for the whole translation.
pub fn convert_brownie_to_forge_remappings(remappings: &Vec<String>) -> (r: Result<
    Vec<RemappingEntry>,
    EthliftError,
>)
    ensures
        r matches Err(e) ==> (e == EthliftError::MalformedRemapping || e
            == EthliftError::HomeDirectoryNotFound),
        (exists|i: int|
            0 <= i < remappings@.len() && !spec_well_formed_remapping(remappings@[i]@)) <==> r
            == Err::<Vec<RemappingEntry>, EthliftError>(EthliftError::MalformedRemapping),
        r matches Ok(entries) ==> {
            &&& entries@.len() == remappings@.len()
            &&& forall|i: int|
                0 <= i < remappings@.len() ==> (#[trigger] entries@[i]).alias@ == spec_lhs(
                    remappings@[i]@,
                )
            &&& exists|home: Seq<char>| entries_anchored_under(entries@, remappings@, home)
        },
{
    let mut i: usize = 0;
    while i < remappings.len()
        invariant
            i <= remappings@.len(),
            forall|j: int| 0 <= j < i ==> spec_well_formed_remapping(remappings@[j]@),
        decreases remappings@.len() - i,
    {
        match parse_brownie_remapping(remappings[i].as_str()) {
            Ok(_) => {},
            Err(_) => {
                return Err(EthliftError::MalformedRemapping);
            },
        }
        i = i + 1;
    }
    let home = match home_directory() {
        Some(h) => h,
        None => {
            return Err(EthliftError::HomeDirectoryNotFound);
        },
    };
    let r = convert_brownie_remappings_with_home(remappings, home.as_str());
    proof {
        if r is Ok {
            let entries = r->Ok_0;
            assert(entries_anchored_under(entries@, remappings@, home@));
        }
    }
    r
}

} // verus!
