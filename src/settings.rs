use vstd::prelude::*;

verus! {

/// `/.notes/`, the notes directory under the home directory.
pub open spec fn notes_subdir() -> Seq<char> {
    seq!['/', '.', 'n', 'o', 't', 'e', 's', '/']
}

/// The notes directory: the override where one is set, else
/// `<home>/.notes/`; `home` is empty where no home directory is known.
pub fn get_notes_dir(env_override: Option<String>, home: String) -> (r: String)
    ensures
        match env_override {
            Some(d) => r@ == d@,
            None => r@ == home@ + notes_subdir(),
        },
{
    match env_override {
        Some(d) => d,
        None => {
            let mut dir = home;
            dir.append("/.notes/");
            proof {
                reveal_strlit("/.notes/");
                assert("/.notes/"@ =~= notes_subdir());
            }
            dir
        },
    }
}

} // verus!
