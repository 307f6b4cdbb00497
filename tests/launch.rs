use quantum_launcher_backend::classpath::{get_class_path, library_candidates};
use quantum_launcher_backend::error::LaunchError;
use quantum_launcher_backend::launch::{
    compose_java_arguments, compose_launch, get_arguments, java_runtime, setup_fabric,
    setup_logging, uses_fabric, validate_username, JavaRuntime,
};
use quantum_launcher_backend::layout::{assets_dir, get_instance_dir, jar_path, join_path, InstanceLayout};
use quantum_launcher_backend::model::{
    decimal_string, FabricJSON, GameArgument, InstanceConfigJson, Library, LibraryDownloads,
    VersionDetails,
};
use quantum_launcher_backend::text::{
    expand, maven_path, replace_var, same_text, split_fields, split_words,
};

const LAUNCHER: &str = "/home/u/.config/QuantumLauncher";

fn s(x: &str) -> String {
    x.to_owned()
}

fn normal(path: &str) -> Library {
    Library { downloads: Some(LibraryDownloads::Normal { artifact_path: s(path) }) }
}

fn version(libraries: Vec<Library>) -> VersionDetails {
    VersionDetails {
        id: s("1.20"),
        main_class: s("net.minecraft.client.main.Main"),
        version_type: s("release"),
        asset_index_id: s("5"),
        libraries,
        minecraft_arguments: None,
        game_arguments: Some(vec![
            GameArgument::Plain(s("--username")),
            GameArgument::Plain(s("${auth_player_name}")),
            GameArgument::Conditional,
            GameArgument::Plain(s("--gameDir")),
            GameArgument::Plain(s("${game_directory}")),
        ]),
        logging_file_id: None,
        java_version: Some(17),
    }
}

fn config(mod_type: &str) -> InstanceConfigJson {
    InstanceConfigJson { mod_type: s(mod_type), java_override: None, ram_in_mb: 2048 }
}

fn fabric() -> FabricJSON {
    FabricJSON {
        jvm_arguments: vec![s("-DFabricMcEmu= net.minecraft.client.main.Main ")],
        libraries: vec![s("net/fabricmc/loader/0.15/loader-0.15.jar")],
        main_class: s("net.fabricmc.loader.impl.launch.knot.KnotClient"),
    }
}

fn layout() -> InstanceLayout {
    let dir = get_instance_dir(LAUNCHER, "Test1.20", '/').ok().unwrap();
    InstanceLayout::new(&dir, '/')
}

#[test]
fn replace_var_replaces_every_occurrence() {
    let mut a = s("${x}-${x}-${y}");
    replace_var(&mut a, "x", "1");
    assert_eq!(a, "1-1-${y}");
}

#[test]
fn replace_var_does_not_rescan_values() {
    let mut a = s("${x}");
    replace_var(&mut a, "x", "${x}");
    assert_eq!(a, "${x}");
}

#[test]
fn expand_leaves_unknown_and_unclosed_placeholders() {
    let names = vec![s("a"), s("b")];
    let values = vec![s("A"), s("")];
    assert_eq!(expand("$a ${a} ${b}${c} ${a", &names, &values), "$a A ${c} ${a");
}

#[test]
fn split_words_drops_runs_of_space() {
    assert_eq!(split_words("  --a  b\tc "), vec![s("--a"), s("b"), s("c")]);
    assert!(split_words("").is_empty());
}

#[test]
fn same_text_compares_characters() {
    assert!(same_text("Fabric", "Fabric"));
    assert!(!same_text("Fabric", "fabric"));
    assert!(!same_text("Fabric", "Fabri"));
}

#[test]
fn username_rules() {
    assert!(validate_username("Steve").is_ok());
    assert!(matches!(validate_username(""), Err(LaunchError::InvalidUsername(u)) if u.is_empty()));
    assert!(matches!(validate_username("St eve"), Err(LaunchError::InvalidUsername(u)) if u == "St eve"));
    assert!(matches!(validate_username("St\teve"), Err(LaunchError::InvalidUsername(_))));
}

#[test]
fn instance_dir_needs_a_name() {
    assert!(matches!(get_instance_dir(LAUNCHER, "", '/'), Err(LaunchError::InstanceNotFound)));
    assert_eq!(
        get_instance_dir(LAUNCHER, "Test1.20", '/').ok().unwrap(),
        "/home/u/.config/QuantumLauncher/instances/Test1.20"
    );
}

#[test]
fn join_path_adds_one_separator() {
    assert_eq!(join_path("a", "b", '/'), "a/b");
    assert_eq!(join_path("a/", "b", '/'), "a/b");
    assert_eq!(join_path("", "b", '/'), "b");
    assert_eq!(join_path("C:\\x", "y", '\\'), "C:\\x\\y");
}

#[test]
fn layout_paths() {
    let l = layout();
    assert_eq!(l.minecraft_dir, "/home/u/.config/QuantumLauncher/instances/Test1.20/.minecraft");
    assert_eq!(l.natives_dir, "/home/u/.config/QuantumLauncher/instances/Test1.20/libraries/natives");
    assert_eq!(
        jar_path(&l.minecraft_dir, "1.20", '/'),
        "/home/u/.config/QuantumLauncher/instances/Test1.20/.minecraft/versions/1.20/1.20.jar"
    );
    assert_eq!(assets_dir(LAUNCHER, "5", '/'), "/home/u/.config/QuantumLauncher/assets/5");
    assert_eq!(l.file("details.json", '/'), "/home/u/.config/QuantumLauncher/instances/Test1.20/details.json");
}

#[test]
fn ram_argument_is_decimal() {
    assert_eq!(config("").get_ram_argument(), "-Xmx2048M");
    assert_eq!(decimal_string(0), "0");
    assert_eq!(decimal_string(10), "10");
    assert_eq!(decimal_string(usize::MAX), usize::MAX.to_string());
}

#[test]
fn structured_arguments_are_templated() {
    let l = layout();
    let v = version(vec![]);
    let args = get_arguments(&v, "Steve", &l.minecraft_dir, "/assets/5").ok().unwrap();
    assert_eq!(args, vec![s("--username"), s("Steve"), s("--gameDir"), l.minecraft_dir.clone()]);
}

#[test]
fn legacy_arguments_fill_every_known_placeholder() {
    let mut v = version(vec![]);
    v.minecraft_arguments = Some(s(
        "--username ${auth_player_name} --version ${version_name} --gameDir ${game_directory} \
         --assetsDir ${assets_root} ${game_assets} --assetIndex ${assets_index_name} \
         --uuid ${auth_uuid} --accessToken ${auth_access_token} ${auth_xuid} ${clientid} \
         --userType ${user_type} --versionType ${version_type} --userProperties ${user_properties} ${other}",
    ));
    let args = get_arguments(&v, "Steve", "/g", "/a").ok().unwrap();
    let expected: Vec<String> = [
        "--username", "Steve", "--version", "1.20", "--gameDir", "/g", "--assetsDir", "/a", "/a",
        "--assetIndex", "5", "--uuid", "00000000-0000-0000-0000-000000000000", "--accessToken",
        "0", "0", "0", "--userType", "legacy", "--versionType", "release", "--userProperties",
        "{}", "${other}",
    ]
    .iter()
    .map(|x| s(x))
    .collect();
    assert_eq!(args, expected);
}

#[test]
fn version_without_arguments_is_refused() {
    let mut v = version(vec![]);
    v.game_arguments = None;
    assert!(matches!(
        get_arguments(&v, "Steve", "/g", "/a"),
        Err(LaunchError::MissingArgumentsField(id)) if id == "1.20"
    ));
}

#[test]
fn classpath_keeps_present_library_and_main_jar() {
    let l = layout();
    let v = version(vec![normal("a/present.jar"), normal("b/missing.jar")]);
    let cands = library_candidates(&v, &l.libraries_dir, '/');
    assert_eq!(cands.len(), 2);
    let cp = get_class_path(&v, &l, &None, &vec![true, false], '/', ':');
    assert_eq!(
        cp,
        "/home/u/.config/QuantumLauncher/instances/Test1.20/libraries/a/present.jar:\
         /home/u/.config/QuantumLauncher/instances/Test1.20/.minecraft/versions/1.20/1.20.jar"
    );
}

#[test]
fn classpath_skips_native_libraries() {
    let l = layout();
    let v = version(vec![Library { downloads: Some(LibraryDownloads::Native) }, Library { downloads: None }, normal("x.jar")]);
    let cands = library_candidates(&v, &l.libraries_dir, '/');
    assert_eq!(cands, vec![format!("{}/x.jar", l.libraries_dir)]);
}

#[test]
fn classpath_with_nothing_present_is_the_jar() {
    let l = layout();
    let v = version(vec![normal("a.jar"), normal("b.jar")]);
    let cp = get_class_path(&v, &l, &None, &vec![false, false], '/', ';');
    assert_eq!(cp, jar_path(&l.minecraft_dir, "1.20", '/'));
}

#[test]
fn classpath_is_repeatable_and_ordered() {
    let l = layout();
    let v = version(vec![normal("b.jar"), normal("a.jar")]);
    let f = Some(fabric());
    let first = get_class_path(&v, &l, &f, &vec![true, true], '/', ':');
    let second = get_class_path(&v, &l, &f, &vec![true, true], '/', ':');
    assert_eq!(first, second);
    let lib = &l.libraries_dir;
    assert_eq!(
        first,
        format!(
            "{lib}/b.jar:{lib}/a.jar:{lib}/net/fabricmc/loader/0.15/loader-0.15.jar:{}",
            jar_path(&l.minecraft_dir, "1.20", '/')
        )
    );
}

#[test]
fn legacy_types_get_the_proxy_flag() {
    let l = layout();
    let flag = s("-Dhttp.proxyHost=betacraft.uk");
    for (t, expected) in [("old_beta", true), ("old_alpha", true), ("release", false), ("snapshot", false)] {
        let mut v = version(vec![]);
        v.version_type = s(t);
        let args = compose_java_arguments(&config(""), &v, &l, None, &vec![], '/', ':');
        assert_eq!(args.contains(&flag), expected, "{t}");
    }
}

#[test]
fn java_arguments_in_order() {
    let l = layout();
    let v = version(vec![]);
    let args = compose_java_arguments(&config(""), &v, &l, None, &vec![], '/', ':');
    assert_eq!(
        args,
        vec![
            s("-Xss1M"),
            s("-Dminecraft.launcher.brand=minecraft-launcher"),
            s("-Dminecraft.launcher.version=2.1.1349"),
            format!("-Djava.library.path={}", l.natives_dir),
            s("-Xmx2048M"),
            s("-cp"),
            jar_path(&l.minecraft_dir, "1.20", '/'),
            s("net.minecraft.client.main.Main"),
        ]
    );
}

#[test]
fn fabric_overlay_takes_precedence() {
    let l = layout();
    let v = version(vec![]);
    let args = compose_java_arguments(&config("Fabric"), &v, &l, Some(fabric()), &vec![], '/', ':');
    assert_eq!(args.last().unwrap(), "net.fabricmc.loader.impl.launch.knot.KnotClient");
    let jvm = args.iter().position(|a| a.starts_with("-DFabricMcEmu")).unwrap();
    let cp = args.iter().position(|a| a == "-cp").unwrap();
    assert!(jvm < cp);
}

#[test]
fn fabric_overlay_needs_fabric_mod_type() {
    let mut args = vec![s("x")];
    assert!(setup_fabric(&config("Vanilla"), Some(fabric()), &mut args).is_none());
    assert_eq!(args, vec![s("x")]);
    assert!(uses_fabric(&config("Fabric")));
    assert!(!uses_fabric(&config("")));
    let r = setup_fabric(&config("Fabric"), Some(fabric()), &mut args);
    assert!(r.is_some());
    assert_eq!(args.len(), 2);
}

#[test]
fn logging_flag_quotes_the_path() {
    let mut v = version(vec![]);
    let mut args = vec![];
    setup_logging(&v, "/i", &mut args, '/');
    assert!(args.is_empty());
    v.logging_file_id = Some(s("client-1.12.xml"));
    setup_logging(&v, "/i", &mut args, '/');
    assert_eq!(args, vec![s("-Dlog4j.configurationFile=\"/i/logging-client-1.12.xml\"")]);
}

#[test]
fn java_runtime_choice() {
    let mut v = version(vec![]);
    assert!(matches!(java_runtime(&config(""), &v), JavaRuntime::Major(17)));
    v.java_version = None;
    assert!(matches!(java_runtime(&config(""), &v), JavaRuntime::Major(8)));
    let mut c = config("");
    c.java_override = Some(s("/usr/bin/java"));
    assert!(matches!(java_runtime(&c, &v), JavaRuntime::Override(p) if p == "/usr/bin/java"));
}

#[test]
fn end_to_end_test_instance() {
    let l = layout();
    let v = version(vec![normal("org/lib/1/lib-1.jar"), normal("org/gone/1/gone-1.jar")]);
    let cmd = compose_launch("Steve", &config(""), &v, None, &l, "/a/5", &vec![true, false], '/', ':')
        .ok()
        .unwrap();
    let cp_at = cmd.java_arguments.iter().position(|a| a == "-cp").unwrap();
    assert_eq!(
        cmd.java_arguments[cp_at + 1],
        format!("{}/org/lib/1/lib-1.jar:{}", l.libraries_dir, jar_path(&l.minecraft_dir, "1.20", '/'))
    );
    assert_eq!(cmd.game_arguments[1], "Steve");
    assert!(cmd.game_arguments.iter().all(|a| !a.contains("${")));
}

#[test]
fn launch_refuses_bad_username_first() {
    let l = layout();
    let mut v = version(vec![]);
    v.game_arguments = None;
    assert!(matches!(
        compose_launch("a b", &config(""), &v, None, &l, "/a", &vec![], '/', ':'),
        Err(LaunchError::InvalidUsername(_))
    ));
    assert!(matches!(
        compose_launch("ab", &config(""), &v, None, &l, "/a", &vec![], '/', ':'),
        Err(LaunchError::MissingArgumentsField(_))
    ));
}

#[test]
fn split_fields_keeps_empty_fields() {
    assert_eq!(split_fields("a::b", ':'), vec![s("a"), s(""), s("b")]);
    assert_eq!(split_fields("", ':'), vec![s("")]);
}

#[test]
fn maven_coordinates_become_paths() {
    assert_eq!(
        maven_path("net.fabricmc:fabric-loader:0.15.11").unwrap(),
        "net/fabricmc/fabric-loader/0.15.11/fabric-loader-0.15.11.jar"
    );
    assert!(maven_path("net.fabricmc:fabric-loader").is_none());
}

#[test]
fn errors_have_messages() {
    assert_eq!(LaunchError::InvalidUsername(s("a b")).message(), "invalid username: a b");
    assert_eq!(LaunchError::InstanceNotFound.message(), "instance not found");
    assert_eq!(
        LaunchError::IoFailure { path: s("/x"), message: s("denied") }.message(),
        "I/O error at /x: denied"
    );
    assert_eq!(
        LaunchError::MissingArgumentsField(s("1.20")).message(),
        "version declares no arguments: 1.20"
    );
}
