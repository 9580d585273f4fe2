use master::manifest::{
    kind_from_str, kind_to_str, manifest_files, manifest_modloader, modloader_from_str,
    recommended_settings, total_size, ArtifactKind, FileSide, ManifestFileRow, Modloader,
    assemble_manifest, kinds_by_path, BaseBuildInfo, BuildInfo, ManifestError,
};

const KINDS: [ArtifactKind; 10] = [
    ArtifactKind::ClientJar,
    ArtifactKind::Library,
    ArtifactKind::Runtime,
    ArtifactKind::Native,
    ArtifactKind::Asset,
    ArtifactKind::AssetIndex,
    ArtifactKind::Java,
    ArtifactKind::Mod,
    ArtifactKind::Config,
    ArtifactKind::Other,
];

#[test]
fn every_kind_reads_back_from_its_name() {
    for k in KINDS {
        assert_eq!(kind_from_str(kind_to_str(k)), k);
    }
    assert_eq!(kind_to_str(ArtifactKind::AssetIndex), "asset_index");
    assert_eq!(kind_from_str("shader"), ArtifactKind::Other);
    assert_eq!(kind_from_str("Mod"), ArtifactKind::Other);
}

#[test]
fn every_loader_reads_back_from_its_name() {
    for m in [Modloader::Vanilla, Modloader::Forge, Modloader::NeoForge, Modloader::Fabric, Modloader::Quilt] {
        assert_eq!(modloader_from_str(m.as_str()), Some(m));
    }
    assert_eq!(modloader_from_str("paper"), None);
    assert_eq!(manifest_modloader("fabric"), Modloader::Fabric);
    assert_eq!(manifest_modloader("paper"), Modloader::Vanilla);
}

fn file(path: &str, kind: &str, side: &str, platform: Option<&str>) -> ManifestFileRow {
    ManifestFileRow {
        path: path.into(),
        sha1: "aaf4c61ddcc5e8a2dabede0f3b482cd9aea9434d".into(),
        size: 5,
        side: side.into(),
        kind: kind.into(),
        platform: platform.map(|p| p.to_string()),
    }
}

#[test]
fn base_files_come_first_and_keep_their_platform() {
    let base = vec![
        file("runtime/bin/java", "java", "client", Some("linux-x86_64")),
        file("runtime/bin/java.dll", "java", "both", Some("windows-x86_64")),
        file("libraries/a.jar", "library", "server", None),
    ];
    let build = vec![file("mods/x.jar", "mod", "client", Some("ignored"))];
    let (files, kinds) = manifest_files(&base, &build, "https://master.example/files/");
    assert_eq!(files.len(), 4);
    assert!(files[0].executable);
    assert!(!files[1].executable);
    assert!(!files[2].executable);
    assert_eq!(files[0].side, FileSide::Client);
    assert_eq!(files[1].side, FileSide::Both);
    assert_eq!(files[2].side, FileSide::Server);
    assert_eq!(files[0].platform.as_deref(), Some("linux-x86_64"));
    assert_eq!(files[3].platform, None);
    assert_eq!(files[3].url, "https://master.example/files/aaf4c61ddcc5e8a2dabede0f3b482cd9aea9434d");
    assert_eq!(files[3].size, 5);
    assert_eq!(kinds[3], ("mods/x.jar".to_string(), ArtifactKind::Mod));
    assert_eq!(kinds[0].1, ArtifactKind::Java);
    assert_eq!(total_size(&files), 20);
}

#[test]
fn only_java_kind_binaries_are_executable() {
    let base = vec![file("bin/javaw", "java", "client", None), file("bin/java", "library", "client", None), file("bin/java.exe", "java", "client", None)];
    let (files, _) = manifest_files(&base, &[], "");
    assert!(files[0].executable);
    assert!(!files[1].executable);
    assert!(files[2].executable);
}

#[test]
fn recommended_memory_never_drops_below_the_floor() {
    let flags = String::from("-XX:+UseG1GC");
    let s = recommended_settings(256, 128, &flags, true);
    assert_eq!((s.memory_min_mb, s.memory_max_mb), (512, 512));
    let s = recommended_settings(2048, 1024, &flags, false);
    assert_eq!((s.memory_min_mb, s.memory_max_mb), (2048, 2048));
    let s = recommended_settings(1024, 4096, &flags, false);
    assert_eq!((s.memory_min_mb, s.memory_max_mb), (1024, 4096));
    let s = recommended_settings(-5, 300, &flags, true);
    assert_eq!((s.memory_min_mb, s.memory_max_mb), (512, 512));
    assert_eq!(s.jvm_flags, "-XX:+UseG1GC");
    assert!(s.show_console_on_launch);
}

fn build_info(modloader: &str, min: i32, max: i32) -> BuildInfo {
    BuildInfo {
        id: 7,
        server_id: 3,
        version: "1.2.0".into(),
        mc_version: "1.20.1".into(),
        modloader: modloader.into(),
        modloader_version: Some("47.2.0".into()),
        recommended_memory_min_mb: min,
        recommended_memory_max_mb: max,
        recommended_jvm_flags: "-Xss2m".into(),
        recommended_show_console_on_launch: false,
        optional_mods: r#"[{"id":"jei"}]"#.into(),
    }
}

#[test]
fn a_build_without_a_base_build_has_no_manifest() {
    let r = assemble_manifest(&build_info("forge", 1024, 4096), &None, &[], &[], "", vec![], vec![]);
    assert_eq!(r.err(), Some(ManifestError::MissingBaseBuild));
}

#[test]
fn the_manifest_carries_the_build_and_its_base() {
    let base = Some(BaseBuildInfo {
        main_class: "cpw.mods.bootstraplauncher.BootstrapLauncher".into(),
        assets_index_name: "5".into(),
        jvm_args: r#"["-Xss1M"]"#.into(),
        game_args: r#"["--launchTarget","forgeclient"]"#.into(),
    });
    let base_files = vec![file("libraries/a.jar", "library", "both", Some("linux-x86_64"))];
    let build_files = vec![file("mods/x.jar", "mod", "client", None), file("config/x.toml", "config", "both", None)];
    let m = assemble_manifest(
        &build_info("forge", 256, 128),
        &base,
        &base_files,
        &build_files,
        "https://master.example/files/",
        vec!["screenshots".into()],
        vec!["options.txt".into()],
    )
    .unwrap();
    assert_eq!((m.build_id, m.server_id), (7, 3));
    assert_eq!(m.version, "1.2.0");
    assert_eq!(m.mc_version, "1.20.1");
    assert_eq!(m.modloader, Modloader::Forge);
    assert_eq!(m.modloader_version.as_deref(), Some("47.2.0"));
    assert_eq!(m.main_class, "cpw.mods.bootstraplauncher.BootstrapLauncher");
    assert_eq!(m.assets_index_name, "5");
    assert_eq!(m.jvm_args, r#"["-Xss1M"]"#);
    assert_eq!(m.game_args, r#"["--launchTarget","forgeclient"]"#);
    assert_eq!(m.optional_mods, r#"[{"id":"jei"}]"#);
    assert_eq!(m.verified_files.len(), 3);
    assert_eq!(m.verified_files[0].path, "libraries/a.jar");
    assert_eq!(m.verified_files[2].path, "config/x.toml");
    assert_eq!(m.artifact_kinds.len(), 3);
    assert_eq!(m.artifact_kinds[1], ("mods/x.jar".to_string(), ArtifactKind::Mod));
    assert_eq!(m.unmanaged_paths, vec!["screenshots".to_string()]);
    assert_eq!(m.user_managed_paths, vec!["options.txt".to_string()]);
    assert_eq!((m.recommended_client_settings.memory_min_mb, m.recommended_client_settings.memory_max_mb), (512, 512));
    assert_eq!(m.recommended_client_settings.jvm_flags, "-Xss2m");
    assert!(m.signature.is_empty());
}

#[test]
fn an_unknown_loader_makes_a_vanilla_manifest() {
    let base = Some(BaseBuildInfo {
        main_class: "net.minecraft.client.main.Main".into(),
        assets_index_name: "17".into(),
        jvm_args: "[]".into(),
        game_args: "[]".into(),
    });
    let m = assemble_manifest(&build_info("paper", 2048, 8192), &base, &[], &[], "", vec![], vec![]).unwrap();
    assert_eq!(m.modloader, Modloader::Vanilla);
    assert!(m.verified_files.is_empty());
    assert_eq!((m.recommended_client_settings.memory_min_mb, m.recommended_client_settings.memory_max_mb), (2048, 8192));
}

#[test]
fn a_path_listed_twice_keeps_its_last_kind() {
    let base = Some(BaseBuildInfo {
        main_class: "Main".into(),
        assets_index_name: "17".into(),
        jvm_args: "[]".into(),
        game_args: "[]".into(),
    });
    let base_files = vec![file("config/a.toml", "other", "both", None), file("libraries/b.jar", "library", "both", None)];
    let build_files = vec![file("config/a.toml", "config", "both", None)];
    let m = assemble_manifest(&build_info("fabric", 1024, 2048), &base, &base_files, &build_files, "", vec![], vec![]).unwrap();
    assert_eq!(m.verified_files.len(), 3);
    assert_eq!(
        m.artifact_kinds,
        vec![("libraries/b.jar".to_string(), ArtifactKind::Library), ("config/a.toml".to_string(), ArtifactKind::Config)]
    );
}

#[test]
fn kinds_by_path_keeps_each_path_once() {
    let k = |p: &str, kind| (p.to_string(), kind);
    let kinds = vec![k("a", ArtifactKind::Mod), k("b", ArtifactKind::Asset), k("a", ArtifactKind::Config), k("c", ArtifactKind::Java), k("b", ArtifactKind::Other)];
    assert_eq!(kinds_by_path(&kinds), vec![k("a", ArtifactKind::Config), k("c", ArtifactKind::Java), k("b", ArtifactKind::Other)]);
    assert!(kinds_by_path(&[]).is_empty());
}
