//! Deriving where a finished package is saved.
//!
//! The caller hands in the destination directory it resolved (or none, for
//! the current directory); the file name comes from the package itself. The
//! write to disk is the caller's: it takes the path and the bytes from the
//! record built here.

use vstd::prelude::*;
use vstd::string::StringExecFns;

use crate::buf::Buf;
use crate::pack::Nupkg;

verus! {

/// Everything a single write of the package needs: the full destination
/// path and the archive bytes.
pub struct NugetSaveArgs<'a> {
    pub path: String,
    pub nupkg: &'a Buf,
}

impl<'a> NugetSaveArgs<'a> {
    /// Build the writer's arguments: the destination is the given directory
    /// (the current one when none is given) joined with the package's file
    /// name; the bytes are the package's archive, unchanged.
    pub fn from_parts(dir: Option<&str>, nupkg: &'a Nupkg) -> (r: NugetSaveArgs<'a>)
        ensures
            dir matches Some(d) ==> r.path@ == d@ + "/"@ + nupkg.name@,
            dir is None ==> r.path@ == "./"@ + nupkg.name@,
            r.nupkg@ == nupkg.buf@,
    {
        let mut path = match dir {
            Some(d) => String::from_str(d),
            None => String::from_str("."),
        };
        path.append("/");
        path.append(nupkg.name.as_str());
        proof {
            if dir is None {
                reveal_strlit(".");
                reveal_strlit("/");
                reveal_strlit("./");
                assert(path@ =~= "./"@ + nupkg.name@);
            }
        }
        NugetSaveArgs { path, nupkg: &nupkg.buf }
    }
}

} // verus!
