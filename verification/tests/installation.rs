use susm::bundle::{
    belongs_to_bundle, digest_text, native_target, required_file, split_directory, valid_digest,
    version_directory, Manifest, ManifestFile, Selection, MAX_FILE_BYTES, MAX_PAYLOAD_BYTES,
    MAX_ZIP_BYTES,
};
use susm::installer::{
    bundle_kind, check_payload, check_size, installation_root, judge_bundle, manifest_text,
    temporary_path, validate_and_install, validate_installed_directory, validate_manifest,
    validate_source_root, BundleEntry, BundleKind, FileFacts, InstallError, InstallPlan,
    InstallStep, ZipCheck, ZipEntry, ZipPath,
};
use susm::packaging::{
    build_arguments, bundle_names, check_package, package_manifest, write_manifest, BuiltFile,
};
use susm::versions::{
    collect, count_pins, current_selection, garbage_collect, is_version, judge_selection,
    list_versions, needs_pins, rollback, uninstall_user, Collection, VersionEntry,
};

const TARGET: &str = "x86_64-pc-windows-msvc";

fn digest(i: usize) -> String {
    digest_text(required_file(i).as_bytes())
}

fn manifest() -> Manifest {
    Manifest {
        bundle_format: 1,
        version: "1.2.3".to_string(),
        target: TARGET.to_string(),
        protocol_major: 1,
        controller_schema_read_min: 1,
        controller_schema_read_max: 2,
        controller_schema_write: 2,
        supervisor_runtime_formats: vec![1],
        files: (0..3)
            .map(|i| ManifestFile {
                path: required_file(i).to_string(),
                size: 10,
                sha256: digest(i),
            })
            .collect(),
    }
}

fn facts() -> Vec<FileFacts> {
    (0..3)
        .map(|i| FileFacts::Present { is_file: true, size: 10, digest: Ok(digest(i)) })
        .collect()
}

fn entries() -> Vec<BundleEntry> {
    ["manifest.toml", "susm.exe", "susmd.exe", "susm-supervisor.exe"]
        .iter()
        .map(|name| BundleEntry {
            path: format!("C:\\b\\{name}"),
            regular: true,
            name: Some(name.to_string()),
        })
        .collect()
}

fn reason<T: std::fmt::Debug>(result: Result<T, InstallError>) -> String {
    result.unwrap_err().message()
}

fn install() -> InstallPlan {
    validate_and_install(
        "C:\\b",
        &entries(),
        &b"text".to_vec(),
        &Ok(manifest()),
        &facts(),
        "x86_64",
        Some("C:\\i"),
    )
    .unwrap()
}

#[test]
fn bundles_are_known_by_their_names() {
    assert_eq!(required_file(0), "susm.exe");
    assert!(belongs_to_bundle("manifest.toml") && !belongs_to_bundle("Manifest.toml"));
    assert_eq!(native_target("aarch64"), Some("aarch64-pc-windows-msvc"));
    assert_eq!(native_target("mips"), None);
    assert!(valid_digest(&digest(0)));
    assert!(!valid_digest(&digest(0).to_uppercase()) && !valid_digest("ab"));
    assert_eq!(
        digest_text(b"abc"),
        "ba7816bf8f01cfea414140de5dae2223b00361a396177a9cb410ff61f20015ad"
    );
    assert_eq!(version_directory("1.0.0-rc", "ab"), "1.0.0-rc-ab");
    assert_eq!(
        split_directory("1.0.0-rc-ab"),
        Some(("1.0.0-rc".to_string(), "ab".to_string()))
    );
    assert_eq!(split_directory("x"), None);
}

#[test]
fn sources_are_directories_or_archives() {
    assert_eq!(bundle_kind("b", false, true, 0).unwrap(), BundleKind::Directory);
    assert_eq!(bundle_kind("b.ZIP", false, false, MAX_ZIP_BYTES).unwrap(), BundleKind::Zip);
    assert_eq!(
        reason(bundle_kind("b.zip", false, false, MAX_ZIP_BYTES + 1)),
        "unsupported bundle: ZIP exceeds 1 GiB"
    );
    assert_eq!(
        reason(bundle_kind("b.tar", false, false, 1)),
        "unsupported bundle: bundle must be a directory or .zip file"
    );
    assert_eq!(
        reason(bundle_kind("b", true, true, 0)),
        "unsupported bundle: bundle source must not be a symbolic link or junction"
    );
    assert!(check_size("x", 5, 5).is_ok());
    assert_eq!(
        reason(check_size("x", 6, 5)),
        "unsupported bundle: x exceeds its size limit"
    );
    assert_eq!(installation_root(Some("C:\\l")).unwrap(), "C:\\l\\Programs\\susm");
    assert_eq!(
        reason(installation_root(None)),
        "unsupported bundle: LOCALAPPDATA is missing"
    );
}

#[test]
fn archives_hold_flat_known_files() {
    let file = |path: ZipPath, size: u64| ZipEntry { is_directory: false, path, size };
    let text = |name: &str| ZipPath::Text(name.to_string());
    let mut check = ZipCheck::new();
    let directory = ZipEntry { is_directory: true, path: ZipPath::Unsafe, size: 0 };
    assert!(matches!(check.entry(&directory), Ok(None)));
    assert_eq!(
        check.entry(&file(text("susm.exe"), 1)).unwrap(),
        Some("susm.exe".to_string())
    );
    assert_eq!(
        reason(check.entry(&file(text("susm.exe"), 1))),
        "unsupported bundle: ZIP contains duplicate path susm.exe"
    );
    assert_eq!(
        reason(check.entry(&file(text("x\\susm.exe"), 1))),
        "unsupported bundle: ZIP paths must be flat"
    );
    assert_eq!(
        reason(check.entry(&file(text("other.exe"), 1))),
        "unsupported bundle: ZIP contains undeclared file other.exe"
    );
    assert_eq!(
        reason(check.entry(&file(ZipPath::Unsafe, 1))),
        "unsupported bundle: ZIP contains an unsafe path"
    );
    assert_eq!(
        reason(check.entry(&file(ZipPath::Opaque { flat: true }, 1))),
        "unsupported bundle: ZIP filename is not Unicode"
    );
    assert_eq!(
        reason(check.entry(&file(text("susmd.exe"), MAX_PAYLOAD_BYTES + 65_536))),
        "unsupported bundle: ZIP payload is too large"
    );
    let mut overflowing = ZipCheck::new();
    overflowing.entry(&file(text("susm.exe"), 5)).unwrap();
    assert_eq!(
        reason(overflowing.entry(&file(text("susmd.exe"), u64::MAX))),
        "unsupported bundle: ZIP payload size overflowed"
    );
}

#[test]
fn source_directories_hold_exactly_the_bundle() {
    assert!(validate_source_root(&entries()).is_ok());
    let mut fewer = entries();
    fewer.pop();
    assert_eq!(
        reason(validate_source_root(&fewer)),
        "unsupported bundle: bundle must contain exactly the manifest and three executables"
    );
    let mut more = entries();
    more.push(BundleEntry {
        path: "x".to_string(),
        regular: true,
        name: Some("x".to_string()),
    });
    assert_eq!(
        reason(validate_source_root(&more)),
        "unsupported bundle: bundle contains unexpected file x"
    );
    let mut linked = entries();
    linked[0].regular = false;
    assert_eq!(
        reason(validate_source_root(&linked)),
        "unsupported bundle: bundle entry C:\\b\\manifest.toml is not a regular file"
    );
    let mut unnamed = entries();
    unnamed[0].name = None;
    assert_eq!(
        reason(validate_source_root(&unnamed)),
        "unsupported bundle: bundle filename is not Unicode"
    );
}

#[test]
fn manifests_are_validated() {
    assert!(validate_manifest(&manifest(), "x86_64").is_ok());
    let refused = |change: fn(&mut Manifest)| {
        let mut changed = manifest();
        change(&mut changed);
        reason(validate_manifest(&changed, "x86_64"))
    };
    assert_eq!(
        refused(|manifest| manifest.protocol_major = 2),
        "unsupported bundle: bundle_format and protocol_major must be 1"
    );
    assert_eq!(
        refused(|manifest| manifest.controller_schema_write = 3),
        "unsupported bundle: controller schema compatibility range is invalid"
    );
    assert_eq!(
        refused(|manifest| manifest.supervisor_runtime_formats = vec![2]),
        "unsupported bundle: supervisor runtime format 1 is required"
    );
    assert_eq!(
        refused(|manifest| manifest.target = "x".to_string()),
        "unsupported bundle: bundle target x does not match x86_64-pc-windows-msvc"
    );
    assert_eq!(
        refused(|manifest| {
            manifest.files.pop();
        }),
        "unsupported bundle: manifest must declare exactly the three SUSM executables"
    );
    assert_eq!(
        refused(|manifest| manifest.files[1].path = "susm.exe".to_string()),
        "unsupported bundle: manifest contains an unexpected file set"
    );
    assert_eq!(
        refused(|manifest| manifest.files[1].sha256 = "x".to_string()),
        "unsupported bundle: susmd.exe has an invalid SHA-256"
    );
    assert_eq!(
        reason(validate_manifest(&manifest(), "mips")),
        "unsupported bundle: unsupported native architecture mips"
    );
}

#[test]
fn payloads_match_their_manifest() {
    assert!(check_payload("C:\\b", &manifest(), &facts()).is_ok());
    let mut short = facts();
    short[1] = FileFacts::Present { is_file: true, size: 9, digest: Ok(digest(1)) };
    assert_eq!(
        reason(check_payload("C:\\b", &manifest(), &short)),
        "unsupported bundle: susmd.exe size is 9, expected 10"
    );
    let mut altered = facts();
    altered[2] = FileFacts::Present { is_file: true, size: 10, digest: Ok(digest(1)) };
    assert_eq!(
        reason(check_payload("C:\\b", &manifest(), &altered)),
        "unsupported bundle: susm-supervisor.exe SHA-256 does not match"
    );
    let mut absent = facts();
    absent[0] = FileFacts::Unreadable("gone".to_string());
    assert_eq!(
        reason(check_payload("C:\\b", &manifest(), &absent)),
        "cannot access C:\\b\\susm.exe: gone"
    );
    let mut large = manifest();
    large.files[0].size = MAX_FILE_BYTES + 1;
    assert_eq!(
        reason(check_payload("C:\\b", &large, &facts())),
        "unsupported bundle: susm.exe exceeds 256 MiB"
    );
}

#[test]
fn versions_stand_before_they_are_selected() {
    let plan = install();
    let identity = digest_text(b"text");
    assert_eq!(plan.identity, identity);
    assert_eq!(plan.directory, format!("C:\\i\\Programs\\susm\\versions\\1.2.3-{identity}"));
    let steps = plan.steps("C:\\b", &b"text".to_vec(), false, "u");
    assert_eq!(steps.len(), 10);
    assert!(matches!(&steps[0], InstallStep::CreateDirectories(path) if path == "C:\\i\\Programs\\susm\\versions"));
    assert!(matches!(
        &steps[1],
        InstallStep::CreateDirectory(path) if path == "C:\\i\\Programs\\susm\\versions\\.staging-u"
    ));
    assert!(matches!(&steps[6], InstallStep::Rename { to, .. } if *to == plan.directory));
    match &steps[7] {
        InstallStep::Replace { path, bytes } => {
            assert_eq!(path, "C:\\i\\Programs\\susm\\current.susm-install");
            assert_eq!(
                String::from_utf8(bytes.clone()).unwrap(),
                format!(
                    "bundle_format = 1\nversion = \"1.2.3\"\nmanifest_sha256 = \"{identity}\"\n"
                )
            );
        }
        other => panic!("{other:?}"),
    }
    assert!(matches!(
        &steps[9],
        InstallStep::ReplaceWithCopy { to, .. } if to == "C:\\i\\Programs\\susm\\bin\\susm.exe"
    ));
    let again = plan.steps("C:\\b", &b"text".to_vec(), true, "u");
    assert!(matches!(&again[1], InstallStep::CheckInstalled(path) if *path == plan.directory));
    assert_eq!(
        temporary_path("C:\\i\\current.susm-install", "u").unwrap(),
        ("C:\\i".to_string(), "C:\\i\\.current.susm-install.u.tmp".to_string())
    );
    assert_eq!(
        reason(temporary_path("", "u")),
        "unsupported bundle: installation path has no parent"
    );
}

#[test]
fn versions_carry_no_build_metadata() {
    let with_version = |version: &str| {
        let mut changed = manifest();
        changed.version = version.to_string();
        validate_and_install(
            "C:\\b",
            &entries(),
            &b"text".to_vec(),
            &Ok(changed),
            &facts(),
            "x86_64",
            Some("C:\\i"),
        )
    };
    assert!(with_version("1.0.0-rc.1").is_ok());
    assert_eq!(
        reason(with_version("1.0.0+x")),
        "unsupported bundle: bundle version must not contain build metadata"
    );
    assert!(matches!(with_version("1.0"), Err(InstallError::Version(_))));
    let judged = judge_bundle(
        "C:\\b",
        &entries(),
        &b"text".to_vec(),
        &Ok(manifest()),
        &Ok("x".to_string()),
        &facts(),
        "x86_64",
        Some("C:\\i"),
    );
    assert_eq!(
        reason(judged),
        "unsupported bundle: bundle version must not contain build metadata"
    );
    assert_eq!(
        reason(validate_and_install(
            "C:\\b",
            &entries(),
            &b"text".to_vec(),
            &Ok(manifest()),
            &facts(),
            "x86_64",
            None,
        )),
        "unsupported bundle: LOCALAPPDATA is missing"
    );
    assert_eq!(
        reason(judge_bundle(
            "C:\\b",
            &entries(),
            &b"text".to_vec(),
            &Ok(manifest()),
            &Ok("x".to_string()),
            &facts(),
            "x86_64",
            Some(""),
        )),
        "unsupported bundle: bundle version must not contain build metadata"
    );
    assert_eq!(
        reason(manifest_text(vec![0xff])),
        "unsupported bundle: manifest is not UTF-8"
    );
    assert_eq!(manifest_text(b"ok".to_vec()).unwrap(), "ok");
    assert_eq!(
        InstallError::Zip("x".to_string()).message(),
        "cannot open ZIP bundle: x"
    );
    assert_eq!(
        InstallError::Windows("x".to_string()).message(),
        "atomic selection replacement failed: x"
    );
    assert_eq!(
        InstallError::Manifest("x".to_string()).message(),
        "invalid bundle manifest: x"
    );
}

#[test]
fn installed_bundles_pass() {
    let bytes = b"text".to_vec();
    let name = version_directory("1.2.3", &digest_text(b"text"));
    let check = |name: Option<&str>, facts: Vec<FileFacts>| {
        validate_installed_directory("C:\\v", name, &bytes, &Ok(manifest()), &facts, "x86_64")
    };
    assert!(check(Some(&name), facts()).is_ok());
    assert_eq!(
        reason(check(None, facts())),
        "unsupported bundle: installed directory name is invalid"
    );
    assert_eq!(
        reason(check(Some("x"), facts())),
        "unsupported bundle: installed directory has no manifest identity"
    );
    assert_eq!(
        reason(check(Some("1-x"), facts())),
        "unsupported bundle: installed manifest identity does not match 1-x"
    );
    let mut odd = facts();
    odd[0] = FileFacts::Present { is_file: false, size: 10, digest: Ok(digest(0)) };
    assert_eq!(
        reason(check(Some(&name), odd)),
        "unsupported bundle: installed susm.exe does not match its manifest"
    );
}

fn version(name: &str, pin_count: usize) -> VersionEntry {
    VersionEntry {
        name: name.to_string(),
        path: format!("C:\\i\\versions\\{name}"),
        is_directory: true,
        is_link: false,
        pin_count,
    }
}

#[test]
fn selections_name_their_version() {
    let selection = |version: &str, digest: &str| Selection {
        bundle_format: 1,
        version: version.to_string(),
        manifest_sha256: digest.to_string(),
    };
    let identity = digest_text(b"text");
    assert_eq!(
        current_selection(&Vec::new(), &Ok(selection("1.2.3", &identity))).unwrap(),
        format!("1.2.3-{identity}")
    );
    assert_eq!(
        reason(current_selection(&Vec::new(), &Ok(selection("x", &identity)))),
        "unsupported bundle: current selection is invalid"
    );
    assert_eq!(
        reason(current_selection(&vec![0xff], &Ok(selection("1.2.3", &identity)))),
        "unsupported bundle: selection is not UTF-8"
    );
    assert!(judge_selection(
        &Vec::new(),
        &Ok(selection("1.2.3", "ab")),
        &Ok(String::new())
    )
    .is_err());
    assert!(matches!(
        judge_selection(&Vec::new(), &Err("odd".to_string()), &Ok(String::new())),
        Err(InstallError::Manifest(text)) if text == "odd"
    ));
}

#[test]
fn versions_are_listed_in_order() {
    let mut file = version("notes", 0);
    file.is_directory = false;
    let entries = vec![version("2.0.0-bb", 1), file, version("1.0.0-aa", 0), version("odd", 0)];
    let listed = list_versions(&entries, &Some("2.0.0-bb".to_string()));
    assert_eq!(listed.len(), 2);
    assert_eq!(listed[0].version, "1.0.0");
    assert_eq!(listed[0].identity, "aa");
    assert!(!listed[0].current && listed[1].current);
    assert_eq!(listed[1].pin_count, 1);

    let mut entries = entries;
    entries.insert(0, version(".staging-019f-cc", 0));
    assert_eq!(list_versions(&entries, &Some("2.0.0-bb".to_string())).len(), 2);
    assert!(is_version("2.0.0-bb", true) && !is_version("2.0.0-bb", false));
    assert!(!is_version(".staging-019f-cc", true) && !is_version("odd", true));
    assert_eq!(
        reason(rollback(&list_versions(&vec![version(".staging-a-b", 0)], &None), ".staging-a")),
        "unsupported bundle: no installed version matches .staging-a"
    );

    assert_eq!(rollback(&listed, "1.0.0").unwrap(), 0);
    assert_eq!(rollback(&listed, "b").unwrap(), 1);
    assert_eq!(
        reason(rollback(&listed, "c")),
        "unsupported bundle: no installed version matches c"
    );
    assert_eq!(
        reason(rollback(&listed, "")),
        "unsupported bundle: installed version prefix  is ambiguous"
    );
}

#[test]
fn versions_in_use_are_kept() {
    let current = Some("2.0.0-bb".to_string());
    assert_eq!(collect(&version("2.0.0-bb", 0), &current), Collection::Keep);
    assert_eq!(collect(&version("1.0.0-aa", 1), &current), Collection::Keep);
    assert_eq!(collect(&version("1.0.0-aa", 0), &current), Collection::RemoveChecked);
    assert_eq!(collect(&version(".staging-x", 0), &current), Collection::RemoveAbandoned);
    let mut link = version("1.0.0-aa", 0);
    link.is_link = true;
    assert_eq!(collect(&link, &current), Collection::Keep);
    assert!(needs_pins("1.0.0-aa", true, false, &current));
    assert!(!needs_pins("2.0.0-bb", true, false, &current));
    assert!(!needs_pins(".staging-x", true, false, &current));
    assert!(!needs_pins("1.0.0-aa", true, true, &current));
    assert!(!needs_pins("1.0.0-aa", false, false, &current));
    let gone = garbage_collect(
        &vec![version("2.0.0-bb", 0), version(".staging-x", 0), version("1.0.0-aa", 0)],
        &current,
    );
    assert_eq!(gone, vec![(1, false), (2, true)]);
    assert_eq!(count_pins("p", false, false, false, 9).unwrap(), 0);
    assert_eq!(count_pins("p", true, true, false, 9).unwrap(), 9);
    assert_eq!(
        reason(count_pins("p", true, true, true, 9)),
        "unsupported bundle: pin path p is not a regular directory"
    );
    assert_eq!(uninstall_user("C:\\bin")[0], "C:\\bin\\susm.exe");
}

#[test]
fn packaged_bundles_are_accepted() {
    assert_eq!(check_package("1.0.0", "1.0.0", None, "x86_64"), Ok(TARGET.to_string()));
    assert_eq!(
        check_package("1.0.0", "1.0.1", None, "x86_64"),
        Err("package version 1.0.0 does not match workspace version 1.0.1".to_string())
    );
    assert_eq!(
        check_package("1.0.0", "1.0.0", Some("x"), "x86_64"),
        Err("unsupported target: x".to_string())
    );
    assert_eq!(
        check_package("1.0.0", "1.0.0", None, "mips"),
        Err("unsupported architecture: mips".to_string())
    );
    assert_eq!(build_arguments(TARGET)[0..4].to_vec(), vec!["build", "--release", "--target", TARGET]);
    assert_eq!(
        bundle_names("1.0.0", TARGET, 7),
        (format!("susm-1.0.0-{TARGET}"), format!(".susm-1.0.0-{TARGET}.7.tmp"))
    );
    let built: Vec<BuiltFile> =
        (0..3).map(|i| BuiltFile { size: 10, sha256: digest(i) }).collect();
    let manifest = package_manifest("1.0.0", TARGET, &built);
    assert!(validate_manifest(&manifest, "x86_64").is_ok());
    let text = write_manifest("1.0.0", TARGET, &built);
    assert!(text.starts_with(
        "bundle_format = 1\nversion = \"1.0.0\"\ntarget = \"x86_64-pc-windows-msvc\"\n\
         protocol_major = 1\ncontroller_schema_read_min = 1\ncontroller_schema_read_max = 2\n\
         controller_schema_write = 2\nsupervisor_runtime_formats = [1]\n\n[[files]]\n\
         path = \"susm.exe\"\nsize = 10\nsha256 = \""
    ));
}
