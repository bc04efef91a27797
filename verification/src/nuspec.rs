//! Building a package specification from project metadata and rendering it
//! to a `.nuspec` markup document.
//!
//! The document a given argument record renders to is pinned down, character
//! for character, by [`nuspec_chars`]; [`format_nuspec`] produces exactly the
//! UTF-8 encoding of that sequence, which makes rendering deterministic.

use vstd::prelude::*;
use vstd::string::StringExecFns;
use vstd::utf8::encode_utf8;

use crate::buf::Buf;

verus! {

/// A project's metadata, read from its build descriptor by the caller.
pub struct CargoConfig {
    pub name: String,
    pub version: String,
    pub authors: Vec<String>,
    pub description: String,
    pub homepage: String,
    pub license: String,
}

/// One dependency of the package: a package id and a version constraint.
pub struct NugetDependency {
    pub id: String,
    pub version: String,
}

/// The ordered dependency list of a specification; may be empty.
pub struct NugetDependencies {
    pub deps: Vec<NugetDependency>,
}

impl Default for NugetDependencies {
    /// An empty dependency list.
    fn default() -> (r: Self)
        ensures
            r.deps@ == Seq::<NugetDependency>::empty(),
    {
        NugetDependencies { deps: Vec::new() }
    }
}

/// The specification record a `.nuspec` document is rendered from.
///
/// Derived once from a [`CargoConfig`]; never mutated after creation.
pub struct NugetSpecArgs {
    pub id: String,
    pub version: String,
    /// All authors joined into one comma-separated string.
    pub authors: String,
    pub description: String,
    #[allow(non_snake_case)]
    pub projectUrl: String,
    pub license: String,
    pub dependencies: NugetDependencies,
}

/// A rendered specification: the markup bytes plus the id and version they
/// were rendered from, carried along so later stages need not re-parse them.
pub struct Nuspec {
    pub id: String,
    pub version: String,
    pub xml: Buf,
}

/// The authors of a project joined with `", "` between neighbours; an empty
/// list joins to the empty string.
pub open spec fn join_authors(authors: Seq<Seq<char>>) -> Seq<char>
    decreases authors.len(),
{
    if authors.len() == 0 {
        Seq::empty()
    } else if authors.len() == 1 {
        authors[0]
    } else {
        join_authors(authors.drop_last()) + ", "@ + authors.last()
    }
}

/// The markup for one dependency entry.
pub open spec fn dependency_chars(d: NugetDependency) -> Seq<char> {
    "<dependency id=\""@ + d.id@ + "\" version=\""@ + d.version@ + "\"/>"@
}

/// The markup for the body of the dependencies section, one entry per
/// dependency, in list order.
pub open spec fn dependencies_chars(deps: Seq<NugetDependency>) -> Seq<char>
    decreases deps.len(),
{
    if deps.len() == 0 {
        Seq::empty()
    } else {
        dependencies_chars(deps.drop_last()) + dependency_chars(deps.last())
    }
}

/// The whole `.nuspec` document for an argument record: a fixed schema with
/// the record's fields spliced in, in fixed order.
pub open spec fn nuspec_chars(args: NugetSpecArgs) -> Seq<char> {
    "<?xml version=\"1.0\"?><package><metadata><id>"@ + args.id@ + "</id><version>"@
        + args.version@ + "</version><authors>"@ + args.authors@ + "</authors><description>"@
        + args.description@ + "</description><projectUrl>"@ + args.projectUrl@
        + "</projectUrl><license>"@ + args.license@ + "</license><dependencies>"@
        + dependencies_chars(args.dependencies.deps@) + "</dependencies></metadata></package>"@
}

impl NugetSpecArgs {
    /// Build the specification record for a project: the id, version and the
    /// other fields are taken over unchanged, the authors are joined into one
    /// string, and the dependency list starts out empty. A total mapping:
    /// metadata with a non-empty name and version always yields a record.
    pub fn from_cargo(cargo: &CargoConfig) -> (r: NugetSpecArgs)
        requires
            cargo.name@.len() > 0,
            cargo.version@.len() > 0,
        ensures
            r.id@ == cargo.name@,
            r.version@ == cargo.version@,
            r.authors@ == join_authors(cargo.authors.deep_view()),
            r.description@ == cargo.description@,
            r.projectUrl@ == cargo.homepage@,
            r.license@ == cargo.license@,
            r.dependencies.deps@ == Seq::<NugetDependency>::empty(),
    {
        let mut joined = String::new();
        let n = cargo.authors.len();
        let mut i: usize = 0;
        while i < n
            invariant
                i <= n,
                n == cargo.authors.len(),
                joined@ == join_authors(cargo.authors.deep_view().subrange(0, i as int)),
            decreases n - i,
        {
            if i > 0 {
                joined.append(", ");
            }
            joined.append(cargo.authors[i].as_str());
            proof {
                let all = cargo.authors.deep_view();
                assert(all.subrange(0, (i + 1) as int).drop_last() =~= all.subrange(0, i as int));
                assert(all.subrange(0, (i + 1) as int).last() == all[i as int]);
                if i == 0 {
                    assert(joined@ =~= join_authors(all.subrange(0, 1)));
                } else {
                    assert(joined@ =~= join_authors(all.subrange(0, (i + 1) as int)));
                }
            }
            i += 1;
        }
        proof {
            assert(cargo.authors.deep_view().subrange(0, n as int) =~= cargo.authors.deep_view());
        }
        NugetSpecArgs {
            id: cargo.name.clone(),
            version: cargo.version.clone(),
            authors: joined,
            description: cargo.description.clone(),
            projectUrl: cargo.homepage.clone(),
            license: cargo.license.clone(),
            dependencies: Default::default(),
        }
    }
}

/// Render an argument record to its `.nuspec` document.
///
/// The returned bytes are exactly the UTF-8 encoding of [`nuspec_chars`] of
/// the record, and the id and version are copied over unchanged.
pub fn format_nuspec(args: &NugetSpecArgs) -> (r: Nuspec)
    ensures
        r.id@ == args.id@,
        r.version@ == args.version@,
        r.xml@ == encode_utf8(nuspec_chars(*args)),
{
    let mut xml = String::from_str("<?xml version=\"1.0\"?><package><metadata><id>");
    xml.append(args.id.as_str());
    xml.append("</id><version>");
    xml.append(args.version.as_str());
    xml.append("</version><authors>");
    xml.append(args.authors.as_str());
    xml.append("</authors><description>");
    xml.append(args.description.as_str());
    xml.append("</description><projectUrl>");
    xml.append(args.projectUrl.as_str());
    xml.append("</projectUrl><license>");
    xml.append(args.license.as_str());
    xml.append("</license><dependencies>");
    let ghost head = xml@;
    let deps = &args.dependencies.deps;
    let mut i: usize = 0;
    while i < deps.len()
        invariant
            i <= deps.len(),
            xml@ == head + dependencies_chars(deps@.subrange(0, i as int)),
        decreases deps.len() - i,
    {
        xml.append("<dependency id=\"");
        xml.append(deps[i].id.as_str());
        xml.append("\" version=\"");
        xml.append(deps[i].version.as_str());
        xml.append("\"/>");
        proof {
            assert(deps@.subrange(0, (i + 1) as int).drop_last() =~= deps@.subrange(0, i as int));
            assert(deps@.subrange(0, (i + 1) as int).last() == deps@[i as int]);
            assert(xml@ =~= head + dependencies_chars(deps@.subrange(0, (i + 1) as int)));
        }
        i += 1;
    }
    xml.append("</dependencies></metadata></package>");
    proof {
        assert(deps@.subrange(0, deps@.len() as int) =~= deps@);
        assert(xml@ =~= nuspec_chars(*args));
    }
    let bytes = xml.as_str().as_bytes_vec();
    let ghost bytes_snapshot = bytes;
    let buf = Buf::from(bytes);
    proof {
        crate::buf::lemma_buf_from_view(bytes_snapshot);
    }
    Nuspec { id: args.id.clone(), version: args.version.clone(), xml: buf }
}

/// An empty author list joins to the empty string.
pub proof fn lemma_join_authors_empty()
    ensures
        join_authors(Seq::<Seq<char>>::empty()) == Seq::<char>::empty(),
{
}

/// The dependency markup depends only on what the dependencies' fields hold,
/// not on which record holds them.
proof fn lemma_dependencies_chars_congruent(a: Seq<NugetDependency>, b: Seq<NugetDependency>)
    requires
        a.len() == b.len(),
        forall|i: int|
            0 <= i < a.len() ==> a[i].id@ == b[i].id@ && a[i].version@ == b[i].version@,
    ensures
        dependencies_chars(a) == dependencies_chars(b),
    decreases a.len(),
{
    if a.len() > 0 {
        lemma_dependencies_chars_congruent(a.drop_last(), b.drop_last());
        assert(dependency_chars(a.last()) == dependency_chars(b.last()));
    }
}

/// Rendering is deterministic: two argument records whose fields read the
/// same, render to the same document, so the same metadata always renders to
/// byte-identical output.
pub proof fn lemma_render_deterministic(a: NugetSpecArgs, b: NugetSpecArgs)
    requires
        a.id@ == b.id@,
        a.version@ == b.version@,
        a.authors@ == b.authors@,
        a.description@ == b.description@,
        a.projectUrl@ == b.projectUrl@,
        a.license@ == b.license@,
        a.dependencies.deps@.len() == b.dependencies.deps@.len(),
        forall|i: int|
            0 <= i < a.dependencies.deps@.len()
                ==> a.dependencies.deps@[i].id@ == b.dependencies.deps@[i].id@
                && a.dependencies.deps@[i].version@ == b.dependencies.deps@[i].version@,
    ensures
        nuspec_chars(a) == nuspec_chars(b),
        encode_utf8(nuspec_chars(a)) == encode_utf8(nuspec_chars(b)),
{
    lemma_dependencies_chars_congruent(a.dependencies.deps@, b.dependencies.deps@);
}

/// A specification without dependencies renders a dependencies section with
/// zero entries, and it renders the same document as one whose dependency
/// list was emptied explicitly.
pub proof fn lemma_empty_dependencies(a: NugetSpecArgs, b: NugetSpecArgs)
    requires
        a.id@ == b.id@,
        a.version@ == b.version@,
        a.authors@ == b.authors@,
        a.description@ == b.description@,
        a.projectUrl@ == b.projectUrl@,
        a.license@ == b.license@,
        a.dependencies.deps@.len() == 0,
        b.dependencies.deps@.len() == 0,
    ensures
        dependencies_chars(a.dependencies.deps@) == Seq::<char>::empty(),
        nuspec_chars(a) == nuspec_chars(b),
{
    lemma_render_deterministic(a, b);
}

} // verus!
