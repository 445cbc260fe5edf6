//! Profiles: several identities on one machine, each with a database of its own.

use vstd::prelude::*;

use vstd::string::StringExecFns;
use vstd::string::StrSliceExecFns;

verus! {

/// The argument names a profile, and the profile's name follows it.
pub open spec fn names_profile(args: Seq<String>, i: int) -> bool {
    &&& 0 <= i
    &&& i + 1 < args.len()
    &&& args[i]@ == "--profile"@ || args[i]@ == "-p"@
}

/// The profile that the arguments of the program ask for. If several are asked
/// for, the last one counts.
pub fn profile_of_args(args: &Vec<String>) -> (profile: Option<String>)
    ensures
        match profile {
            Some(name) => exists|i: int|
                #[trigger] names_profile(args@, i) && name@ == args@[i + 1]@ && forall|j: int|
                    i < j ==> !#[trigger] names_profile(args@, j),
            None => forall|i: int| !#[trigger] names_profile(args@, i),
        },
{
    let long = "--profile".to_owned();
    let short = "-p".to_owned();
    let mut profile: Option<String> = None;
    let ghost mut at: int = 0;
    let mut i: usize = 0;
    while i < args.len()
        invariant
            i <= args@.len(),
            long@ == "--profile"@,
            short@ == "-p"@,
            match profile {
                Some(name) => {
                    &&& names_profile(args@, at)
                    &&& name@ == args@[at + 1]@
                    &&& forall|j: int| at < j < i ==> !#[trigger] names_profile(args@, j)
                },
                None => forall|j: int| j < i ==> !#[trigger] names_profile(args@, j),
            },
        decreases args@.len() - i,
    {
        if (args[i] == long || args[i] == short) && args.len() - i > 1 {
            profile = Some(args[i + 1].clone());
            proof {
                at = i as int;
            }
        }
        i = i + 1;
    }
    profile
}

/// A character of a file name: letters and digits of ASCII stay, anything else
/// becomes an underscore.
pub open spec fn file_char(c: char) -> char {
    if '0' <= c <= '9' || 'A' <= c <= 'Z' || 'a' <= c <= 'z' {
        c
    } else {
        '_'
    }
}

/// The file name of the database of a profile.
pub open spec fn db_filename(profile: Option<String>) -> Seq<char> {
    match profile {
        Some(name) => "loom_"@ + name@.map_values(|c: char| file_char(c)) + ".db"@,
        None => "loom.db"@,
    }
}

/// The file name of the database of a profile.
pub fn db_filename_of(profile: &Option<String>) -> (name: String)
    ensures
        name@ == db_filename(*profile),
{
    match profile {
        Some(profile) => {
            let text = profile.as_str();
            let length: usize = text.unicode_len();
            let mut name = "loom_".to_owned();
            let mut i: usize = 0;
            assert(name@ =~= "loom_"@ + text@.take(0).map_values(|c: char| file_char(c)));
            while i < length
                invariant
                    i <= length,
                    length == text@.len(),
                    name@ == "loom_"@ + text@.take(i as int).map_values(|c: char| file_char(c)),
                decreases length - i,
            {
                let c: char = text.get_char(i);
                let ghost before = name@;
                if ('0' <= c && c <= '9') || ('A' <= c && c <= 'Z') || ('a' <= c && c <= 'z') {
                    name.push(c);
                } else {
                    name.push('_');
                }
                proof {
                    assert(name@ == before.push(file_char(c)));
                    assert(text@.take(i + 1).map_values(|c: char| file_char(c)) =~= text@.take(
                        i as int,
                    ).map_values(|c: char| file_char(c)).push(file_char(c)));
                    assert(name@ =~= "loom_"@ + text@.take(i + 1).map_values(
                        |c: char| file_char(c),
                    ));
                }
                i = i + 1;
            }
            assert(text@.take(text@.len() as int) =~= text@);
            name.concat(".db")
        },
        None => "loom.db".to_owned(),
    }
}

/// The file name of a profile's database has no separator or dot in the profile's
/// part: it names a file in the directory of the application.
pub proof fn law_profile_stays_in_its_directory(name: String, i: int)
    requires
        0 <= i < db_filename(Some(name)).len() - 3,
    ensures
        db_filename(Some(name))[i] != '/',
        db_filename(Some(name))[i] != '\\',
        db_filename(Some(name))[i] != '.',
{
    reveal_strlit("loom_");
    reveal_strlit(".db");
}

} // verus!
