//! Assembling a `.nupkg` archive from a rendered specification and the
//! compiled binaries, one per target.
//!
//! Build outputs are de-duplicated by target before anything is written:
//! when two outputs share a target, the later one wins ([`dedup_libs`]).
//! Assembly is all-or-nothing: if any binary's bytes are missing the
//! assembler fails with an I/O error naming the first missing path, and no
//! package is produced.

use vstd::prelude::*;
use vstd::string::StringExecFns;

use crate::archive::{archive_entries, zip_bytes, ArchiveBuilder};
use crate::buf::Buf;
use crate::error::NugetError;
use crate::nuspec::Nuspec;

verus! {

/// One compiled binary: the target triple it was built for and the path the
/// build left it at. Produced by the build collaborator; read-only input.
pub struct CargoBuildOutput {
    pub target: String,
    pub path: String,
}

/// A build output together with the bytes read from its path, or `None`
/// where the read failed.
pub struct NugetLib {
    pub target: String,
    pub path: String,
    pub bytes: Option<Buf>,
}

/// Everything the assembler needs: the id and version carried forward from
/// the specification, the rendered document, and the binaries keyed by
/// target (already de-duplicated by [`NugetPackArgs::from_parts`]).
pub struct NugetPackArgs {
    pub id: String,
    pub version: String,
    pub spec: Buf,
    pub cargo_libs: Vec<NugetLib>,
}

/// A finished package: its id and version (copied forward, never
/// re-derived), the file name it is saved under, and the archive bytes.
pub struct Nupkg {
    pub id: String,
    pub version: String,
    pub name: String,
    pub buf: Buf,
}

/// The first index whose entry's target reads `target`, or `-1`.
pub open spec fn index_of_target(libs: Seq<NugetLib>, target: Seq<char>) -> int
    decreases libs.len(),
{
    if libs.len() == 0 {
        -1
    } else if libs[0].target@ == target {
        0
    } else {
        let r = index_of_target(libs.drop_first(), target);
        if r < 0 {
            -1
        } else {
            r + 1
        }
    }
}

/// How one entry lands in a list that is being de-duplicated: it overwrites
/// the entry already holding its target, or is appended when its target is
/// new.
pub open spec fn dedup_step(acc: Seq<NugetLib>, lib: NugetLib) -> Seq<NugetLib> {
    let i = index_of_target(acc, lib.target@);
    if i >= 0 {
        acc.update(i, lib)
    } else {
        acc.push(lib)
    }
}

/// The build outputs de-duplicated by target, in order of first appearance,
/// each target keeping the last entry given for it.
pub open spec fn dedup_libs(libs: Seq<NugetLib>) -> Seq<NugetLib>
    decreases libs.len(),
{
    if libs.len() == 0 {
        Seq::empty()
    } else {
        dedup_step(dedup_libs(libs.drop_last()), libs.last())
    }
}

/// The first index whose entry has no bytes, or `-1` when every entry has
/// some.
pub open spec fn first_missing(libs: Seq<NugetLib>) -> int
    decreases libs.len(),
{
    if libs.len() == 0 {
        -1
    } else if libs[0].bytes is None {
        0
    } else {
        let r = first_missing(libs.drop_first());
        if r < 0 {
            -1
        } else {
            r + 1
        }
    }
}

/// The archive-internal path of the binary for a target: it contains the
/// target triple, so a consumer can find the binary for its platform.
pub open spec fn lib_entry_name(id: Seq<char>, target: Seq<char>) -> Seq<char> {
    "lib/"@ + target + "/"@ + id
}

/// The entries of the finished archive, in writing order: the rendered
/// specification at its fixed well-known path, then one binary per
/// de-duplicated target.
pub open spec fn pack_entries(args: NugetPackArgs) -> Seq<(Seq<char>, Seq<u8>)> {
    seq![("package.nuspec"@, args.spec@)] + Seq::new(
        args.cargo_libs@.len(),
        |i: int|
            (
                lib_entry_name(args.id@, args.cargo_libs@[i].target@),
                args.cargo_libs@[i].bytes->0@,
            ),
    )
}

impl NugetLib {
    /// Pair a build output with the bytes read from its path, or `None`
    /// where the read failed.
    pub fn from_build(build: &CargoBuildOutput, bytes: Option<Buf>) -> (r: NugetLib)
        ensures
            r.target@ == build.target@,
            r.path@ == build.path@,
            r.bytes == bytes,
    {
        NugetLib { target: build.target.clone(), path: build.path.clone(), bytes }
    }
}

proof fn lemma_index_of_target_first(libs: Seq<NugetLib>, t: Seq<char>, j: int)
    requires
        0 <= j < libs.len(),
        libs[j].target@ == t,
        forall|m: int| 0 <= m < j ==> libs[m].target@ != t,
    ensures
        index_of_target(libs, t) == j,
    decreases libs.len(),
{
    if j > 0 {
        let rest = libs.drop_first();
        assert(rest[j - 1] == libs[j]);
        assert forall|m: int| 0 <= m < j - 1 implies rest[m].target@ != t by {
            assert(rest[m] == libs[m + 1]);
        }
        lemma_index_of_target_first(rest, t, j - 1);
    }
}

proof fn lemma_index_of_target_none(libs: Seq<NugetLib>, t: Seq<char>)
    requires
        forall|m: int| 0 <= m < libs.len() ==> libs[m].target@ != t,
    ensures
        index_of_target(libs, t) == -1,
    decreases libs.len(),
{
    if libs.len() > 0 {
        let rest = libs.drop_first();
        assert forall|m: int| 0 <= m < rest.len() implies rest[m].target@ != t by {
            assert(rest[m] == libs[m + 1]);
        }
        lemma_index_of_target_none(rest, t);
    }
}

proof fn lemma_index_of_target_props(libs: Seq<NugetLib>, t: Seq<char>)
    ensures
        index_of_target(libs, t) >= 0 ==> {
            let i = index_of_target(libs, t);
            &&& 0 <= i < libs.len()
            &&& libs[i].target@ == t
            &&& forall|m: int| 0 <= m < i ==> libs[m].target@ != t
        },
        index_of_target(libs, t) < 0 ==> forall|m: int|
            0 <= m < libs.len() ==> libs[m].target@ != t,
    decreases libs.len(),
{
    if libs.len() > 0 && libs[0].target@ != t {
        let rest = libs.drop_first();
        lemma_index_of_target_props(rest, t);
        let r = index_of_target(rest, t);
        if r < 0 {
            assert forall|m: int| 0 <= m < libs.len() implies libs[m].target@ != t by {
                if m > 0 {
                    assert(libs[m] == rest[m - 1]);
                }
            }
        } else {
            assert(libs[r + 1] == rest[r]);
            assert forall|m: int| 0 <= m < r + 1 implies libs[m].target@ != t by {
                if m > 0 {
                    assert(libs[m] == rest[m - 1]);
                }
            }
        }
    }
}

/// De-duplication keeps at most one entry per target.
pub proof fn lemma_dedup_unique(libs: Seq<NugetLib>)
    ensures
        forall|i: int, j: int|
            0 <= i < j < dedup_libs(libs).len() ==> dedup_libs(libs)[i].target@ != dedup_libs(
                libs,
            )[j].target@,
    decreases libs.len(),
{
    if libs.len() > 0 {
        lemma_dedup_unique(libs.drop_last());
        let acc = dedup_libs(libs.drop_last());
        let lib = libs.last();
        let d = dedup_libs(libs);
        let i = index_of_target(acc, lib.target@);
        lemma_index_of_target_props(acc, lib.target@);
        if i >= 0 {
            assert forall|a: int, b: int| 0 <= a < b < d.len() implies d[a].target@
                != d[b].target@ by {
                assert(a == i || d[a] == acc[a]);
                assert(b == i || d[b] == acc[b]);
                assert(d[i].target@ == acc[i].target@);
            }
        } else {
            assert forall|a: int, b: int| 0 <= a < b < d.len() implies d[a].target@
                != d[b].target@ by {
                assert(d[a] == acc[a]);
                if b == d.len() - 1 {
                    assert(d[b] == lib);
                } else {
                    assert(d[b] == acc[b]);
                }
            }
        }
    }
}

/// The entry that survives de-duplication for a target is the last one
/// given for it.
pub proof fn lemma_dedup_last_wins(libs: Seq<NugetLib>, k: int)
    requires
        0 <= k < libs.len(),
        forall|m: int| k < m < libs.len() ==> libs[m].target@ != libs[k].target@,
    ensures
        exists|i: int| 0 <= i < dedup_libs(libs).len() && dedup_libs(libs)[i] == libs[k],
    decreases libs.len(),
{
    let prefix = libs.drop_last();
    let acc = dedup_libs(prefix);
    let lib = libs.last();
    let i = index_of_target(acc, lib.target@);
    let d = dedup_libs(libs);
    lemma_index_of_target_props(acc, lib.target@);
    if k == libs.len() - 1 {
        if i >= 0 {
            assert(d[i] == libs[k]);
        } else {
            assert(d[acc.len() as int] == libs[k]);
        }
    } else {
        assert(prefix[k] == libs[k]);
        assert forall|m: int| k < m < prefix.len() implies prefix[m].target@
            != prefix[k].target@ by {
            assert(prefix[m] == libs[m]);
        }
        lemma_dedup_last_wins(prefix, k);
        let i0 = choose|i0: int| 0 <= i0 < acc.len() && acc[i0] == libs[k];
        // The last entry's target differs from `libs[k]`'s, so the step
        // leaves position `i0` alone, whether it updates or appends.
        assert(libs[k].target@ != lib.target@);
        if i >= 0 {
            assert(acc[i].target@ == lib.target@);
            assert(i0 != i);
            assert(d[i0] == acc[i0]);
        } else {
            assert(d[i0] == acc[i0]);
        }
        assert(d[i0] == libs[k]);
    }
}

/// Putting several build outputs for one target triple into a package keeps
/// exactly one entry for that triple: the later one. `k` is the position of
/// the last output given for its target.
pub proof fn lemma_target_dedup(libs: Seq<NugetLib>, k: int)
    requires
        0 <= k < libs.len(),
        forall|m: int| k < m < libs.len() ==> libs[m].target@ != libs[k].target@,
    ensures
        exists|i: int| 0 <= i < dedup_libs(libs).len() && dedup_libs(libs)[i] == libs[k],
        forall|i: int, j: int|
            0 <= i < j < dedup_libs(libs).len() ==> dedup_libs(libs)[i].target@ != dedup_libs(
                libs,
            )[j].target@,
{
    lemma_dedup_unique(libs);
    lemma_dedup_last_wins(libs, k);
}

/// In a package assembled from build outputs with pairwise distinct targets,
/// each archive entry has a name of its own: the specification's fixed path
/// and one path per target triple, so each triple names exactly one binary.
pub proof fn lemma_pack_entry_names_unique(args: NugetPackArgs)
    requires
        forall|a: int, b: int|
            0 <= a < b < args.cargo_libs@.len() ==> args.cargo_libs@[a].target@
                != args.cargo_libs@[b].target@,
    ensures
        forall|a: int, b: int|
            0 <= a < b < pack_entries(args).len() ==> pack_entries(args)[a].0 != pack_entries(
                args,
            )[b].0,
{
    let e = pack_entries(args);
    reveal_strlit("package.nuspec");
    reveal_strlit("lib/");
    reveal_strlit("/");
    assert forall|a: int, b: int| 0 <= a < b < e.len() implies e[a].0 != e[b].0 by {
        if a == 0 {
            // The specification entry's name starts with 'p', a binary's with 'l'.
            let tb = args.cargo_libs@[b - 1].target@;
            assert(e[b].0 == lib_entry_name(args.id@, tb));
            assert(e[b].0[0] == 'l');
            assert(e[a].0[0] == 'p');
        } else {
            let ta = args.cargo_libs@[a - 1].target@;
            let tb = args.cargo_libs@[b - 1].target@;
            assert(e[a].0 == lib_entry_name(args.id@, ta));
            assert(e[b].0 == lib_entry_name(args.id@, tb));
            if e[a].0 == e[b].0 {
                // Equal names force equal target lengths, then equal targets.
                assert(ta.len() == tb.len());
                assert(ta =~= tb) by {
                    assert forall|m: int| 0 <= m < ta.len() implies ta[m] == tb[m] by {
                        assert(lib_entry_name(args.id@, ta)[4 + m] == ta[m]);
                        assert(lib_entry_name(args.id@, tb)[4 + m] == tb[m]);
                    }
                }
                assert(false);
            }
        }
    }
}

proof fn lemma_first_missing_at(libs: Seq<NugetLib>, j: int)
    requires
        0 <= j < libs.len(),
        libs[j].bytes is None,
        forall|m: int| 0 <= m < j ==> libs[m].bytes is Some,
    ensures
        first_missing(libs) == j,
    decreases libs.len(),
{
    if j > 0 {
        let rest = libs.drop_first();
        assert(rest[j - 1] == libs[j]);
        assert forall|m: int| 0 <= m < j - 1 implies rest[m].bytes is Some by {
            assert(rest[m] == libs[m + 1]);
        }
        lemma_first_missing_at(rest, j - 1);
    }
}

proof fn lemma_first_missing_none(libs: Seq<NugetLib>)
    requires
        forall|m: int| 0 <= m < libs.len() ==> libs[m].bytes is Some,
    ensures
        first_missing(libs) == -1,
    decreases libs.len(),
{
    if libs.len() > 0 {
        let rest = libs.drop_first();
        assert forall|m: int| 0 <= m < rest.len() implies rest[m].bytes is Some by {
            assert(rest[m] == libs[m + 1]);
        }
        lemma_first_missing_none(rest);
    }
}

impl NugetPackArgs {
    /// Build the assembler's arguments: the id, version and rendered bytes
    /// come over from the rendered specification unchanged, and the build
    /// outputs are de-duplicated by target, the later entry winning.
    pub fn from_parts(nuspec: &Nuspec, builds: Vec<NugetLib>) -> (r: NugetPackArgs)
        ensures
            r.id@ == nuspec.id@,
            r.version@ == nuspec.version@,
            r.spec@ == nuspec.xml@,
            r.cargo_libs@ == dedup_libs(builds@),
    {
        let ghost orig = builds@;
        let mut rest = builds;
        let mut libs: Vec<NugetLib> = Vec::new();
        let ghost mut k: int = 0;
        while rest.len() > 0
            invariant
                0 <= k <= orig.len(),
                rest@ == orig.subrange(k, orig.len() as int),
                libs@ == dedup_libs(orig.subrange(0, k)),
            decreases rest.len(),
        {
            let lib = rest.remove(0);
            let ghost libv = lib;
            proof {
                assert(lib == orig[k]);
            }
            let mut idx: usize = 0;
            let mut found = false;
            let mut j: usize = 0;
            while j < libs.len()
                invariant
                    j <= libs.len(),
                    found ==> idx < j <= libs.len() && libs@[idx as int].target@ == lib.target@
                        && forall|m: int| 0 <= m < idx ==> libs@[m].target@ != lib.target@,
                    !found ==> forall|m: int| 0 <= m < j ==> libs@[m].target@ != lib.target@,
                decreases libs.len() - j,
            {
                if !found && libs[j].target == lib.target {
                    idx = j;
                    found = true;
                }
                j += 1;
            }
            let ghost libs_before = libs@;
            if found {
                proof {
                    lemma_index_of_target_first(libs@, libv.target@, idx as int);
                }
                libs[idx] = lib;
            } else {
                proof {
                    lemma_index_of_target_none(libs@, libv.target@);
                }
                libs.push(lib);
            }
            proof {
                assert(libs@ == dedup_step(libs_before, libv));
                assert(orig.subrange(0, k + 1).drop_last() =~= orig.subrange(0, k));
                assert(orig.subrange(0, k + 1).last() == orig[k]);
                assert(rest@ =~= orig.subrange(k + 1, orig.len() as int));
                k = k + 1;
            }
        }
        proof {
            assert(orig.subrange(0, k) =~= orig);
        }
        let spec_bytes = vstd::slice::slice_to_vec(nuspec.xml.as_slice());
        let ghost spec_snapshot = spec_bytes;
        let spec_buf = Buf::from(spec_bytes);
        proof {
            crate::buf::lemma_buf_from_view(spec_snapshot);
        }
        NugetPackArgs {
            id: nuspec.id.clone(),
            version: nuspec.version.clone(),
            spec: spec_buf,
            cargo_libs: libs,
        }
    }
}

/// Assemble the package archive: the rendered specification at its fixed
/// path, then one binary per entry, each at a path containing its target
/// triple. All-or-nothing: a missing binary fails with an I/O error naming
/// the first missing path before anything is written, and an archive that
/// cannot be built or finalized fails with an archive error; no package is
/// returned on failure.
pub fn pack_nupkg(args: &NugetPackArgs) -> (r: Result<Nupkg, NugetError>)
    ensures
        r matches Ok(p) ==> {
            &&& p.id@ == args.id@
            &&& p.version@ == args.version@
            &&& p.name@ == args.id@ + ".nupkg"@
            &&& p.buf@ == zip_bytes(pack_entries(*args))
            &&& first_missing(args.cargo_libs@) < 0
        },
        first_missing(args.cargo_libs@) >= 0 ==> (r matches Err(NugetError::Io(path)) && path@
            == args.cargo_libs@[first_missing(args.cargo_libs@)].path@),
        r matches Err(NugetError::Io(path)) ==> first_missing(args.cargo_libs@) >= 0 && path@
            == args.cargo_libs@[first_missing(args.cargo_libs@)].path@,
        first_missing(args.cargo_libs@) < 0 ==> r is Ok || r matches Err(NugetError::Archive),
{
    // All-or-nothing: check every binary before any entry is written.
    let mut i: usize = 0;
    while i < args.cargo_libs.len()
        invariant
            i <= args.cargo_libs.len(),
            forall|m: int| 0 <= m < i ==> args.cargo_libs@[m].bytes is Some,
        decreases args.cargo_libs.len() - i,
    {
        if args.cargo_libs[i].bytes.is_none() {
            proof {
                lemma_first_missing_at(args.cargo_libs@, i as int);
            }
            return Err(NugetError::Io(args.cargo_libs[i].path.clone()));
        }
        i += 1;
    }
    proof {
        lemma_first_missing_none(args.cargo_libs@);
    }
    let mut w = ArchiveBuilder::new();
    match w.add("package.nuspec", args.spec.as_slice()) {
        Ok(_) => {},
        Err(_) => {
            return Err(NugetError::Archive);
        },
    }
    proof {
        assert(archive_entries(w) =~= pack_entries(*args).subrange(0, 1));
    }
    let mut i: usize = 0;
    while i < args.cargo_libs.len()
        invariant
            i <= args.cargo_libs.len(),
            forall|m: int| 0 <= m < args.cargo_libs@.len() ==> args.cargo_libs@[m].bytes
                is Some,
            first_missing(args.cargo_libs@) < 0,
            archive_entries(w) == pack_entries(*args).subrange(0, 1 + i as int),
        decreases args.cargo_libs.len() - i,
    {
        let lib = &args.cargo_libs[i];
        let mut entry = String::from_str("lib/");
        entry.append(lib.target.as_str());
        entry.append("/");
        entry.append(args.id.as_str());
        proof {
            assert(entry@ =~= lib_entry_name(args.id@, lib.target@));
        }
        match &lib.bytes {
            Some(b) => {
                match w.add(entry.as_str(), b.as_slice()) {
                    Ok(_) => {},
                    Err(_) => {
                        return Err(NugetError::Archive);
                    },
                }
                proof {
                    assert(pack_entries(*args)[1 + i as int] == (entry@, b@));
                    assert(archive_entries(w) =~= pack_entries(*args).subrange(
                        0,
                        1 + (i + 1) as int,
                    ));
                }
            },
            None => {
                // Unreachable: every binary was checked above.
                proof {
                    assert(false);
                }
                return Err(NugetError::Archive);
            },
        }
        i += 1;
    }
    proof {
        assert(pack_entries(*args).subrange(0, 1 + args.cargo_libs@.len() as int)
            =~= pack_entries(*args));
    }
    match w.finish() {
        Ok(bytes) => {
            let ghost bytes_snapshot = bytes;
            let buf = Buf::from(bytes);
            proof {
                crate::buf::lemma_buf_from_view(bytes_snapshot);
            }
            let mut name = args.id.clone();
            name.append(".nupkg");
            Ok(Nupkg { id: args.id.clone(), version: args.version.clone(), name, buf })
        },
        Err(_) => Err(NugetError::Archive),
    }
}

/// The derived file name is stable and collides only when two packages share
/// the same id: equal names force equal ids.
pub proof fn lemma_file_name_collision(a: Nupkg, b: Nupkg)
    requires
        a.name@ == a.id@ + ".nupkg"@,
        b.name@ == b.id@ + ".nupkg"@,
        a.name@ == b.name@,
    ensures
        a.id@ == b.id@,
{
    assert(a.name@.len() == a.id@.len() + ".nupkg"@.len());
    assert(b.name@.len() == b.id@.len() + ".nupkg"@.len());
    assert(a.id@.len() == b.id@.len());
    assert(a.id@ =~= b.id@) by {
        assert forall|m: int| 0 <= m < a.id@.len() implies a.id@[m] == b.id@[m] by {
            assert(a.name@[m] == a.id@[m]);
            assert(b.name@[m] == b.id@[m]);
        }
    }
}

/// The id and version on the final package equal those of the specification
/// record it was built from: every stage copies them forward, none
/// re-derives them.
pub proof fn lemma_id_version_round_trip(
    args: crate::nuspec::NugetSpecArgs,
    nuspec: Nuspec,
    pack: NugetPackArgs,
    pkg: Nupkg,
)
    requires
        nuspec.id@ == args.id@,
        nuspec.version@ == args.version@,
        pack.id@ == nuspec.id@,
        pack.version@ == nuspec.version@,
        pkg.id@ == pack.id@,
        pkg.version@ == pack.version@,
    ensures
        pkg.id@ == args.id@,
        pkg.version@ == args.version@,
{
}

} // verus!
