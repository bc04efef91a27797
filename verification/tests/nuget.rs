use std::io::Cursor;
use std::io::Read;

use cargo_nuget::{
    format_nuspec, pack_nupkg, Buf, CargoBuildOutput, CargoConfig, NugetDependencies,
    NugetDependency, NugetError, NugetLib, NugetPackArgs, NugetSaveArgs, NugetSpecArgs,
};

fn sample_config() -> CargoConfig {
    CargoConfig {
        name: String::from("mylib"),
        version: String::from("1.0.0"),
        authors: vec![String::from("Alice")],
        description: String::from("desc"),
        homepage: String::from("http://x"),
        license: String::from("MIT"),
    }
}

fn archive_names(buf: &Buf) -> Vec<String> {
    let archive = zip::ZipArchive::new(Cursor::new(buf.as_slice().to_vec())).unwrap();
    archive.file_names().map(String::from).collect()
}

fn archive_entry(buf: &Buf, name: &str) -> Vec<u8> {
    let mut archive = zip::ZipArchive::new(Cursor::new(buf.as_slice().to_vec())).unwrap();
    let mut file = archive.by_name(name).unwrap();
    let mut bytes = Vec::new();
    file.read_to_end(&mut bytes).unwrap();
    bytes
}

#[test]
fn rendering_is_deterministic() {
    let once = format_nuspec(&NugetSpecArgs::from_cargo(&sample_config()));
    let twice = format_nuspec(&NugetSpecArgs::from_cargo(&sample_config()));
    assert_eq!(once.xml.as_slice(), twice.xml.as_slice());
}

#[test]
fn authors_join_with_comma_and_space() {
    let mut config = sample_config();
    config.authors = vec![String::from("Alice"), String::from("Bob")];
    let args = NugetSpecArgs::from_cargo(&config);
    assert_eq!(args.authors, "Alice, Bob");
}

#[test]
fn empty_authors_join_to_empty_string() {
    let mut config = sample_config();
    config.authors = Vec::new();
    let args = NugetSpecArgs::from_cargo(&config);
    assert_eq!(args.authors, "");
}

#[test]
fn rendered_document_has_fixed_schema() {
    let nuspec = format_nuspec(&NugetSpecArgs::from_cargo(&sample_config()));
    let text = String::from_utf8(nuspec.xml.as_slice().to_vec()).unwrap();
    assert_eq!(
        text,
        "<?xml version=\"1.0\"?><package><metadata><id>mylib</id>\
         <version>1.0.0</version><authors>Alice</authors>\
         <description>desc</description><projectUrl>http://x</projectUrl>\
         <license>MIT</license><dependencies></dependencies>\
         </metadata></package>"
    );
}

#[test]
fn dependencies_render_one_entry_each() {
    let mut args = NugetSpecArgs::from_cargo(&sample_config());
    args.dependencies = NugetDependencies {
        deps: vec![
            NugetDependency { id: String::from("serde"), version: String::from("1.0") },
            NugetDependency { id: String::from("log"), version: String::from("0.4") },
        ],
    };
    let nuspec = format_nuspec(&args);
    let text = String::from_utf8(nuspec.xml.as_slice().to_vec()).unwrap();
    assert!(text.contains(
        "<dependencies><dependency id=\"serde\" version=\"1.0\"/>\
         <dependency id=\"log\" version=\"0.4\"/></dependencies>"
    ));
}

#[test]
fn empty_dependencies_render_like_explicitly_empty_ones() {
    let defaulted = format_nuspec(&NugetSpecArgs::from_cargo(&sample_config()));
    let mut explicit_args = NugetSpecArgs::from_cargo(&sample_config());
    explicit_args.dependencies = NugetDependencies { deps: Vec::new() };
    let explicit = format_nuspec(&explicit_args);
    assert_eq!(defaulted.xml.as_slice(), explicit.xml.as_slice());
    let text = String::from_utf8(defaulted.xml.as_slice().to_vec()).unwrap();
    assert!(text.contains("<dependencies></dependencies>"));
}

#[test]
fn id_and_version_round_trip_to_package() {
    let args = NugetSpecArgs::from_cargo(&sample_config());
    let nuspec = format_nuspec(&args);
    let pack = NugetPackArgs::from_parts(&nuspec, Vec::new());
    let pkg = pack_nupkg(&pack).unwrap();
    assert_eq!(pkg.id, args.id);
    assert_eq!(pkg.version, args.version);
}

#[test]
fn duplicate_targets_keep_only_the_later_entry() {
    let nuspec = format_nuspec(&NugetSpecArgs::from_cargo(&sample_config()));
    let builds = vec![
        NugetLib {
            target: String::from("x86_64-pc-windows-msvc"),
            path: String::from("./out/a.dll"),
            bytes: Some(Buf::from(vec![1, 2, 3])),
        },
        NugetLib {
            target: String::from("x86_64-pc-windows-msvc"),
            path: String::from("./out/b.dll"),
            bytes: Some(Buf::from(vec![4, 5, 6])),
        },
    ];
    let pack = NugetPackArgs::from_parts(&nuspec, builds);
    let pkg = pack_nupkg(&pack).unwrap();
    let names = archive_names(&pkg.buf);
    let matching: Vec<&String> =
        names.iter().filter(|n| n.contains("x86_64-pc-windows-msvc")).collect();
    assert_eq!(matching.len(), 1);
    let entry = archive_entry(&pkg.buf, "lib/x86_64-pc-windows-msvc/mylib");
    assert_eq!(entry, vec![4, 5, 6]);
}

#[test]
fn end_to_end_scenario() {
    let dll_bytes: Vec<u8> = vec![77, 90, 144, 0, 3];
    let config = sample_config();
    let args = NugetSpecArgs::from_cargo(&config);
    let nuspec = format_nuspec(&args);
    let build = CargoBuildOutput {
        target: String::from("x86_64-pc-windows-msvc"),
        path: String::from("./out/mylib.dll"),
    };
    let lib = NugetLib::from_build(&build, Some(Buf::from(dll_bytes.clone())));
    let pack = NugetPackArgs::from_parts(&nuspec, vec![lib]);
    let pkg = pack_nupkg(&pack).unwrap();
    assert_eq!(pkg.name, "mylib.nupkg");

    let spec_doc = String::from_utf8(archive_entry(&pkg.buf, "package.nuspec")).unwrap();
    assert!(spec_doc.contains("<id>mylib</id><version>1.0.0</version>"));

    let names = archive_names(&pkg.buf);
    assert!(names.iter().any(|n| n.contains("x86_64-pc-windows-msvc")));
    let binary = archive_entry(&pkg.buf, "lib/x86_64-pc-windows-msvc/mylib");
    assert_eq!(binary, dll_bytes);

    let save = NugetSaveArgs::from_parts(Some("./dist"), &pkg);
    assert_eq!(save.path, "./dist/mylib.nupkg");
    assert_eq!(save.nupkg.as_slice(), pkg.buf.as_slice());
}

#[test]
fn save_path_defaults_to_current_directory() {
    let nuspec = format_nuspec(&NugetSpecArgs::from_cargo(&sample_config()));
    let pack = NugetPackArgs::from_parts(&nuspec, Vec::new());
    let pkg = pack_nupkg(&pack).unwrap();
    let save = NugetSaveArgs::from_parts(None, &pkg);
    assert_eq!(save.path, "./mylib.nupkg");
}

#[test]
fn missing_binary_fails_with_io_error_and_no_package() {
    let nuspec = format_nuspec(&NugetSpecArgs::from_cargo(&sample_config()));
    let builds = vec![NugetLib {
        target: String::from("x86_64-unknown-linux-gnu"),
        path: String::from("./out/missing.so"),
        bytes: None,
    }];
    let pack = NugetPackArgs::from_parts(&nuspec, builds);
    let result = pack_nupkg(&pack);
    match result {
        Err(NugetError::Io(path)) => assert_eq!(path, "./out/missing.so"),
        _ => panic!("expected an I/O error for the missing binary"),
    }
}

#[test]
fn io_error_names_the_first_missing_path() {
    let nuspec = format_nuspec(&NugetSpecArgs::from_cargo(&sample_config()));
    let builds = vec![
        NugetLib {
            target: String::from("a"),
            path: String::from("./out/a.so"),
            bytes: Some(Buf::from(vec![1])),
        },
        NugetLib {
            target: String::from("b"),
            path: String::from("./out/b.so"),
            bytes: None,
        },
        NugetLib {
            target: String::from("c"),
            path: String::from("./out/c.so"),
            bytes: None,
        },
    ];
    let pack = NugetPackArgs::from_parts(&nuspec, builds);
    match pack_nupkg(&pack) {
        Err(NugetError::Io(path)) => assert_eq!(path, "./out/b.so"),
        _ => panic!("expected an I/O error for the first missing binary"),
    }
}

#[test]
fn dedup_keeps_first_appearance_order_and_later_values() {
    let nuspec = format_nuspec(&NugetSpecArgs::from_cargo(&sample_config()));
    let builds = vec![
        NugetLib {
            target: String::from("a"),
            path: String::from("./out/a1.so"),
            bytes: Some(Buf::from(vec![1])),
        },
        NugetLib {
            target: String::from("b"),
            path: String::from("./out/b1.so"),
            bytes: Some(Buf::from(vec![2])),
        },
        NugetLib {
            target: String::from("a"),
            path: String::from("./out/a2.so"),
            bytes: Some(Buf::from(vec![3])),
        },
    ];
    let pack = NugetPackArgs::from_parts(&nuspec, builds);
    assert_eq!(pack.cargo_libs.len(), 2);
    assert_eq!(pack.cargo_libs[0].target, "a");
    assert_eq!(pack.cargo_libs[0].path, "./out/a2.so");
    assert_eq!(pack.cargo_libs[1].target, "b");
    assert_eq!(pack.cargo_libs[1].path, "./out/b1.so");
}

#[test]
fn skipping_dedup_fails_with_an_archive_error() {
    // Handing the assembler two entries for one target directly, without
    // `from_parts`, makes it try to write one archive path twice, which the
    // archive refuses.
    let nuspec = format_nuspec(&NugetSpecArgs::from_cargo(&sample_config()));
    let pack = NugetPackArgs {
        id: nuspec.id.clone(),
        version: nuspec.version.clone(),
        spec: Buf::from(nuspec.xml.as_slice().to_vec()),
        cargo_libs: vec![
            NugetLib {
                target: String::from("a"),
                path: String::from("./out/a1.so"),
                bytes: Some(Buf::from(vec![1])),
            },
            NugetLib {
                target: String::from("a"),
                path: String::from("./out/a2.so"),
                bytes: Some(Buf::from(vec![2])),
            },
        ],
    };
    assert!(matches!(pack_nupkg(&pack), Err(NugetError::Archive)));
}

#[test]
fn error_descriptions_name_the_failure() {
    let io = NugetError::Io(String::from("./out/a.so"));
    assert_eq!(io.describe(), "could not read binary at ./out/a.so");
    assert_eq!(NugetError::Archive.describe(), "could not build the package archive");
}

#[test]
fn buf_compares_by_contents_and_hides_them() {
    let a = Buf::from(vec![1, 2, 3]);
    let b = Buf::from(vec![1, 2, 3]);
    let c = Buf::from(vec![9]);
    assert!(a == b);
    assert!(!(a == c));
    assert_eq!(a.len(), 3);
    assert_eq!(a.as_slice(), &[1, 2, 3]);
    assert_eq!(a.describe(), "Buf");
}

#[test]
fn lib_from_build_carries_target_path_and_bytes() {
    let build = CargoBuildOutput {
        target: String::from("aarch64-apple-darwin"),
        path: String::from("./out/mylib.dylib"),
    };
    let lib = NugetLib::from_build(&build, Some(Buf::from(vec![7])));
    assert_eq!(lib.target, "aarch64-apple-darwin");
    assert_eq!(lib.path, "./out/mylib.dylib");
    assert!(lib.bytes.is_some());
}

#[test]
fn spec_args_from_cargo_copies_fields() {
    let args = NugetSpecArgs::from_cargo(&sample_config());
    assert_eq!(args.id, "mylib");
    assert_eq!(args.version, "1.0.0");
    assert_eq!(args.authors, "Alice");
    assert_eq!(args.description, "desc");
    assert_eq!(args.projectUrl, "http://x");
    assert_eq!(args.license, "MIT");
    assert_eq!(args.dependencies.deps.len(), 0);
}
