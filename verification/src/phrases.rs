//! The names of the pre-recorded phrases found in a droid's directory.
use std::path::PathBuf;
use vstd::prelude::*;

verus! {

/// The stem of a path's file name (the name without its last extension) as
/// `Path::file_stem` finds it, as text; `None` where there is no file name
/// or it is not valid text.
pub uninterp spec fn path_stem(p: PathBuf) -> Option<Seq<char>>;

/// `Path::file_stem` followed by `OsStr::to_str`: the stem of the path's
/// file name as text, named [`path_stem`].
#[verifier::external_body]
fn stem_of(p: &PathBuf) -> (r: Option<String>)
    ensures
        path_stem(*p) == match r {
            Some(s) => Some(s@),
            None => None,
        },
{
    match p.file_stem() {
        Some(s) => s.to_str().map(String::from),
        None => None,
    }
}

/// The stems of the files, in order, leaving out files without one.
pub open spec fn stems_of(files: Seq<PathBuf>) -> Seq<Seq<char>>
    decreases files.len(),
{
    if files.len() == 0 {
        Seq::empty()
    } else {
        stems_of(files.drop_last()) + match path_stem(files.last()) {
            Some(s) => seq![s],
            None => Seq::empty(),
        }
    }
}

/// The phrase names of files: the stem of each file name, in order; files
/// whose name has no stem as text are left out.
pub fn phrase_names(files: &Vec<PathBuf>) -> (r: Vec<String>)
    ensures
        r@.map_values(|s: String| s@) == stems_of(files@),
{
    let mut out: Vec<String> = Vec::new();
    let mut i: usize = 0;
    while i < files.len()
        invariant
            i <= files.len(),
            out@.map_values(|s: String| s@) == stems_of(files@.take(i as int)),
        decreases files.len() - i,
    {
        assert(files@.take(i + 1).drop_last() =~= files@.take(i as int));
        assert(files@.take(i + 1).last() == files@[i as int]);
        match stem_of(&files[i]) {
            Some(s) => {
                let ghost before = out@;
                out.push(s);
                assert(out@.map_values(|s: String| s@) =~= before.map_values(|s: String| s@).push(out@.last()@));
            },
            None => {},
        }
        i = i + 1;
    }
    assert(files@.take(files.len() as int) =~= files@);
    out
}

} // verus!
