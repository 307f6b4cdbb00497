use vstd::prelude::*;
use crate::classpath::{candidates, class_path_spec, get_class_path};
use crate::error::LaunchError;
use crate::layout::{join, InstanceLayout};
use crate::model::{ram_argument, FabricJSON, GameArgument, InstanceConfigJson, VersionDetails};
use crate::text::{
    contains_space, dollars_begin_placeholders, expand, expand_spec, is_space, lacks,
    lemma_expansion_leaves_no_placeholder, placeholder_at, same_text, split_words, views, words,
};

verus! {

/// A username is accepted when it is non-empty and holds no white space.
pub open spec fn username_ok(u: Seq<char>) -> bool {
    u.len() > 0 && forall|k: int| 0 <= k < u.len() ==> !is_space(#[trigger] u[k])
}

/// Rejects a username that is empty or holds white space.
pub fn validate_username(username: &str) -> (r: Result<(), LaunchError>)
    ensures
        r is Ok <==> username_ok(username@),
        r is Err ==> (r->Err_0 is InvalidUsername && r->Err_0->InvalidUsername_0@ == username@),
{
    if username.unicode_len() == 0 || contains_space(username) {
        return Err(LaunchError::InvalidUsername(String::from_str(username)));
    }
    Ok(())
}


/// The plain string entries of a structured argument list, in order.
pub open spec fn plain_arguments(g: Seq<GameArgument>) -> Seq<Seq<char>>
    decreases g.len(),
{
    if g.len() == 0 {
        Seq::empty()
    } else {
        match g.last() {
            GameArgument::Plain(a) => plain_arguments(g.drop_last()).push(a@),
            GameArgument::Conditional => plain_arguments(g.drop_last()),
        }
    }
}

/// The game-argument template of a version: the words of the legacy form
/// when it is there, else the plain entries of the structured form.
pub open spec fn raw_game_arguments(v: VersionDetails) -> Option<Seq<Seq<char>>> {
    match v.minecraft_arguments {
        Some(a) => Some(words(a@)),
        None => match v.game_arguments {
            Some(g) => Some(plain_arguments(g@)),
            None => None,
        },
    }
}

/// The placeholder names that the templater knows.
pub open spec fn placeholder_names() -> Seq<Seq<char>> {
    seq![
        "auth_player_name"@,
        "version_name"@,
        "game_directory"@,
        "assets_root"@,
        "game_assets"@,
        "auth_xuid"@,
        "auth_uuid"@,
        "auth_access_token"@,
        "clientid"@,
        "user_type"@,
        "version_type"@,
        "assets_index_name"@,
        "user_properties"@,
    ]
}

/// The value of each of `placeholder_names`, in the same order.
pub open spec fn placeholder_values(
    username: Seq<char>,
    version_id: Seq<char>,
    game_dir: Seq<char>,
    assets_dir: Seq<char>,
    index_id: Seq<char>,
) -> Seq<Seq<char>> {
    seq![
        username,
        version_id,
        game_dir,
        assets_dir,
        assets_dir,
        "0"@,
        "00000000-0000-0000-0000-000000000000"@,
        "0"@,
        "0"@,
        "legacy"@,
        "release"@,
        index_id,
        "{}"@,
    ]
}

/// Each argument of `raw` with its placeholders expanded.
pub open spec fn templated(raw: Seq<Seq<char>>, values: Seq<Seq<char>>) -> Seq<Seq<char>> {
    raw.map_values(|a: Seq<char>| expand_spec(a, placeholder_names(), values))
}

/// The plain string entries of `g`, in order.
pub fn plain_game_arguments(g: &Vec<GameArgument>) -> (r: Vec<String>)
    ensures
        views(r@) == plain_arguments(g@),
{
    let mut r: Vec<String> = Vec::new();
    let mut i: usize = 0;
    while i < g.len()
        invariant
            i <= g.len(),
            views(r@) == plain_arguments(g@.take(i as int)),
        decreases g.len() - i,
    {
        let ghost before = views(r@);
        assert(g@.take(i + 1).drop_last() =~= g@.take(i as int));
        assert(g@.take(i + 1).last() == g@[i as int]);
        match &g[i] {
            GameArgument::Plain(a) => {
                r.push(a.clone());
                assert(views(r@) =~= before.push(a@));
            },
            GameArgument::Conditional => {},
        }
        i = i + 1;
    }
    assert(g@.take(i as int) =~= g@);
    r
}

/// The game arguments of `version_json`, with every known placeholder
/// filled in: the player's name, the version, the game directory, the
/// asset store and index, and fixed offline stand-ins for the rest.
/// Unknown placeholders are kept as they are.
pub fn get_arguments(
    version_json: &VersionDetails,
    username: &str,
    minecraft_dir: &str,
    assets_dir: &str,
) -> (r: Result<Vec<String>, LaunchError>)
    ensures
        raw_game_arguments(*version_json) is None <==> r is Err,
        r is Err ==> r->Err_0 is MissingArgumentsField,
        r is Ok ==> views(r->Ok_0@) == templated(
            raw_game_arguments(*version_json)->Some_0,
            placeholder_values(
                username@,
                version_json.id@,
                minecraft_dir@,
                assets_dir@,
                version_json.asset_index_id@,
            ),
        ),
{
    let raw = match &version_json.minecraft_arguments {
        Some(a) => split_words(a.as_str()),
        None => match &version_json.game_arguments {
            Some(g) => plain_game_arguments(g),
            None => {
                return Err(LaunchError::MissingArgumentsField(version_json.id.clone()));
            },
        },
    };
    let names = vec![
        "auth_player_name".to_owned(),
        "version_name".to_owned(),
        "game_directory".to_owned(),
        "assets_root".to_owned(),
        "game_assets".to_owned(),
        "auth_xuid".to_owned(),
        "auth_uuid".to_owned(),
        "auth_access_token".to_owned(),
        "clientid".to_owned(),
        "user_type".to_owned(),
        "version_type".to_owned(),
        "assets_index_name".to_owned(),
        "user_properties".to_owned(),
    ];
    let values = vec![
        username.to_owned(),
        version_json.id.clone(),
        minecraft_dir.to_owned(),
        assets_dir.to_owned(),
        assets_dir.to_owned(),
        "0".to_owned(),
        "00000000-0000-0000-0000-000000000000".to_owned(),
        "0".to_owned(),
        "0".to_owned(),
        "legacy".to_owned(),
        "release".to_owned(),
        version_json.asset_index_id.clone(),
        "{}".to_owned(),
    ];
    let ghost vals = placeholder_values(
        username@,
        version_json.id@,
        minecraft_dir@,
        assets_dir@,
        version_json.asset_index_id@,
    );
    assert(views(names@) =~= placeholder_names());
    assert(views(values@) =~= vals);
    let mut out: Vec<String> = Vec::new();
    let mut i: usize = 0;
    while i < raw.len()
        invariant
            i <= raw.len(),
            names.len() == values.len(),
            views(names@) == placeholder_names(),
            views(values@) == vals,
            views(out@) == templated(views(raw@).take(i as int), vals),
        decreases raw.len() - i,
    {
        let a = expand(raw[i].as_str(), &names, &values);
        let ghost before = views(out@);
        out.push(a);
        assert(views(raw@)[i as int] == raw@[i as int]@);
        assert(views(raw@).take(i + 1) =~= views(raw@).take(i as int).push(raw@[i as int]@));
        assert(views(out@) =~= before.push(a@));
        assert(views(out@) =~= templated(views(raw@).take(i + 1), vals));
        i = i + 1;
    }
    assert(views(raw@).take(i as int) =~= views(raw@));
    Ok(out)
}


/// The flag that old versions need to reach their legacy services.
pub open spec fn legacy_proxy_flag() -> Seq<char> {
    "-Dhttp.proxyHost=betacraft.uk"@
}

/// Whether a version type marks one of the two legacy version families.
pub open spec fn is_legacy_type(t: Seq<char>) -> bool {
    t == "old_beta"@ || t == "old_alpha"@
}

/// The mod-loader overlay in effect: the loaded one when the instance is
/// set up for Fabric, else none.
pub open spec fn active_overlay(config: InstanceConfigJson, loaded: Option<FabricJSON>) -> Option<
    FabricJSON,
> {
    if config.mod_type@ == "Fabric"@ {
        loaded
    } else {
        None
    }
}

/// The JVM arguments a mod-loader overlay adds.
pub open spec fn overlay_jvm(f: Option<FabricJSON>) -> Seq<Seq<char>> {
    match f {
        Some(f) => views(f.jvm_arguments@),
        None => Seq::empty(),
    }
}

/// The logging flag for the log configuration `id` in `instance_dir`.
pub open spec fn logging_flag(instance_dir: Seq<char>, id: Seq<char>, sep: char) -> Seq<char> {
    "-Dlog4j.configurationFile=\""@ + join(instance_dir, "logging-"@ + id, sep) + "\""@
}

/// The logging flags of a version: one when it declares a log configuration.
pub open spec fn logging_flags(v: VersionDetails, instance_dir: Seq<char>, sep: char) -> Seq<
    Seq<char>,
> {
    match v.logging_file_id {
        Some(id) => seq![logging_flag(instance_dir, id@, sep)],
        None => Seq::empty(),
    }
}

/// The main class: the overlay's when there is one, else the version's.
pub open spec fn main_class_spec(v: VersionDetails, f: Option<FabricJSON>) -> Seq<char> {
    match f {
        Some(f) => f.main_class@,
        None => v.main_class@,
    }
}

/// The flags that every launch starts with.
pub open spec fn base_flags(natives_dir: Seq<char>, ram_in_mb: nat) -> Seq<Seq<char>> {
    seq![
        "-Xss1M"@,
        "-Dminecraft.launcher.brand=minecraft-launcher"@,
        "-Dminecraft.launcher.version=2.1.1349"@,
        "-Djava.library.path="@ + natives_dir,
        ram_argument(ram_in_mb),
    ]
}

/// The legacy proxy flag, for the legacy version types only.
pub open spec fn legacy_flags(t: Seq<char>) -> Seq<Seq<char>> {
    if is_legacy_type(t) {
        seq![legacy_proxy_flag()]
    } else {
        Seq::empty()
    }
}

/// The whole JVM argument list, main class last.
pub open spec fn java_arguments_spec(
    config: InstanceConfigJson,
    v: VersionDetails,
    layout: InstanceLayout,
    loaded: Option<FabricJSON>,
    present: Seq<bool>,
    path_sep: char,
    cp_sep: char,
) -> Seq<Seq<char>> {
    let f = active_overlay(config, loaded);
    base_flags(layout.natives_dir@, config.ram_in_mb as nat) + legacy_flags(v.version_type@)
        + overlay_jvm(f) + logging_flags(v, layout.instance_dir@, path_sep) + seq![
        "-cp"@,
        class_path_spec(v, layout, f, present, path_sep, cp_sep),
        main_class_spec(v, f),
    ]
}

/// Whether the instance is set up for the Fabric mod loader, whose
/// metadata must then be loaded.
pub fn uses_fabric(config_json: &InstanceConfigJson) -> (r: bool)
    ensures
        r == (config_json.mod_type@ == "Fabric"@),
{
    same_text(config_json.mod_type.as_str(), "Fabric")
}

/// Puts the mod-loader overlay in effect and appends its JVM arguments.
/// `loaded` is the Fabric metadata of the instance, when it was loaded.
pub fn setup_fabric(
    config_json: &InstanceConfigJson,
    loaded: Option<FabricJSON>,
    java_arguments: &mut Vec<String>,
) -> (r: Option<FabricJSON>)
    ensures
        r == active_overlay(*config_json, loaded),
        views(final(java_arguments)@) == views(old(java_arguments)@) + overlay_jvm(r),
{
    let fabric_json = if uses_fabric(config_json) {
        loaded
    } else {
        None
    };
    let ghost start = views(java_arguments@);
    if let Some(ref f) = fabric_json {
        let mut k: usize = 0;
        while k < f.jvm_arguments.len()
            invariant
                k <= f.jvm_arguments.len(),
                views(java_arguments@) == start + views(f.jvm_arguments@).take(k as int),
            decreases f.jvm_arguments.len() - k,
        {
            let ghost before = views(java_arguments@);
            java_arguments.push(f.jvm_arguments[k].clone());
            assert(views(java_arguments@) =~= before.push(f.jvm_arguments@[k as int]@));
            assert(views(f.jvm_arguments@).take(k + 1) =~= views(f.jvm_arguments@).take(
                k as int,
            ).push(f.jvm_arguments@[k as int]@));
            assert(views(java_arguments@) =~= start + views(f.jvm_arguments@).take(k + 1));
            k = k + 1;
        }
        assert(views(f.jvm_arguments@).take(k as int) =~= views(f.jvm_arguments@));
    } else {
        assert(start + overlay_jvm(fabric_json) =~= start);
    }
    fabric_json
}

/// Appends the logging flag when the version declares a log configuration.
pub fn setup_logging(
    version_json: &VersionDetails,
    instance_dir: &str,
    java_arguments: &mut Vec<String>,
    sep: char,
)
    ensures
        views(final(java_arguments)@) == views(old(java_arguments)@) + logging_flags(
            *version_json,
            instance_dir@,
            sep,
        ),
{
    let ghost start = views(java_arguments@);
    if let Some(ref id) = version_json.logging_file_id {
        let mut name = String::from_str("logging-");
        name.append(id.as_str());
        let path = crate::layout::join_path(instance_dir, name.as_str(), sep);
        let mut flag = String::from_str("-Dlog4j.configurationFile=\"");
        flag.append(path.as_str());
        flag.append("\"");
        java_arguments.push(flag);
        assert(views(java_arguments@) =~= start.push(flag@));
    } else {
        assert(views(java_arguments@) =~= start);
    }
}

/// Appends the classpath flag, the classpath and the main class.
pub fn setup_classpath_and_mainclass(
    java_arguments: &mut Vec<String>,
    version_json: &VersionDetails,
    layout: &InstanceLayout,
    fabric_json: &Option<FabricJSON>,
    present: &Vec<bool>,
    path_sep: char,
    cp_sep: char,
)
    requires
        present.len() == candidates(version_json.libraries@, layout.libraries_dir@, path_sep).len(),
    ensures
        views(final(java_arguments)@) == views(old(java_arguments)@) + seq![
            "-cp"@,
            class_path_spec(*version_json, *layout, *fabric_json, present@, path_sep, cp_sep),
            main_class_spec(*version_json, *fabric_json),
        ],
{
    let ghost start = views(java_arguments@);
    java_arguments.push("-cp".to_owned());
    let cp = get_class_path(version_json, layout, fabric_json, present, path_sep, cp_sep);
    java_arguments.push(cp);
    let main = match fabric_json {
        Some(f) => f.main_class.clone(),
        None => version_json.main_class.clone(),
    };
    java_arguments.push(main);
    assert(views(java_arguments@) =~= start + seq![
        "-cp"@,
        class_path_spec(*version_json, *layout, *fabric_json, present@, path_sep, cp_sep),
        main_class_spec(*version_json, *fabric_json),
    ]);
}

/// The JVM argument list of a launch, in its fixed order: stack size,
/// launcher identification, native library path, memory, the legacy proxy
/// flag, the mod loader's arguments, the logging flag, the classpath and
/// the main class.
pub fn compose_java_arguments(
    config_json: &InstanceConfigJson,
    version_json: &VersionDetails,
    layout: &InstanceLayout,
    loaded_fabric: Option<FabricJSON>,
    present: &Vec<bool>,
    path_sep: char,
    cp_sep: char,
) -> (r: Vec<String>)
    requires
        present.len() == candidates(version_json.libraries@, layout.libraries_dir@, path_sep).len(),
    ensures
        views(r@) == java_arguments_spec(
            *config_json,
            *version_json,
            *layout,
            loaded_fabric,
            present@,
            path_sep,
            cp_sep,
        ),
{
    let mut natives = String::from_str("-Djava.library.path=");
    natives.append(layout.natives_dir.as_str());
    let mut java_arguments = vec![
        "-Xss1M".to_owned(),
        "-Dminecraft.launcher.brand=minecraft-launcher".to_owned(),
        "-Dminecraft.launcher.version=2.1.1349".to_owned(),
        natives,
        config_json.get_ram_argument(),
    ];
    assert(views(java_arguments@) =~= base_flags(layout.natives_dir@, config_json.ram_in_mb as nat));
    let t = version_json.version_type.as_str();
    if same_text(t, "old_beta") || same_text(t, "old_alpha") {
        java_arguments.push("-Dhttp.proxyHost=betacraft.uk".to_owned());
    }
    assert(views(java_arguments@) =~= base_flags(layout.natives_dir@, config_json.ram_in_mb as nat)
        + legacy_flags(version_json.version_type@));
    let fabric_json = setup_fabric(config_json, loaded_fabric, &mut java_arguments);
    setup_logging(version_json, layout.instance_dir.as_str(), &mut java_arguments, path_sep);
    setup_classpath_and_mainclass(
        &mut java_arguments,
        version_json,
        layout,
        &fabric_json,
        present,
        path_sep,
        cp_sep,
    );
    java_arguments
}


/// The Java runtime a launch runs on.
pub enum JavaRuntime {
    /// An executable that the instance names; used as it is.
    Override(String),
    /// The installed runtime of this Java major version.
    Major(u64),
}

/// The major version used when a version declares none.
pub const DEFAULT_JAVA_MAJOR: u64 = 8;

/// The runtime of a launch: the instance's override when it has one, else
/// the version's Java major version, or the oldest one when it declares none.
pub open spec fn java_runtime_spec(config: InstanceConfigJson, v: VersionDetails) -> JavaRuntime {
    match config.java_override {
        Some(o) => JavaRuntime::Override(o),
        None => JavaRuntime::Major(
            match v.java_version {
                Some(m) => m,
                None => DEFAULT_JAVA_MAJOR,
            },
        ),
    }
}

/// The Java runtime to launch with.
pub fn java_runtime(config_json: &InstanceConfigJson, version_json: &VersionDetails) -> (r:
    JavaRuntime)
    ensures
        r == java_runtime_spec(*config_json, *version_json),
{
    match &config_json.java_override {
        Some(o) => JavaRuntime::Override(o.clone()),
        None => JavaRuntime::Major(
            match version_json.java_version {
                Some(m) => m,
                None => DEFAULT_JAVA_MAJOR,
            },
        ),
    }
}

/// Everything needed to start the game: the runtime, and the JVM and game
/// arguments in the order they are passed.
pub struct LaunchCommand {
    pub java: JavaRuntime,
    pub java_arguments: Vec<String>,
    pub game_arguments: Vec<String>,
}

/// Composes the launch of an instance from its settings, its version's
/// metadata, the Fabric metadata when it was loaded, its directories, the
/// shared asset store and which library files exist. The username is
/// checked first; a version without arguments is refused.
pub fn compose_launch(
    username: &str,
    config_json: &InstanceConfigJson,
    version_json: &VersionDetails,
    loaded_fabric: Option<FabricJSON>,
    layout: &InstanceLayout,
    assets_dir: &str,
    present: &Vec<bool>,
    path_sep: char,
    cp_sep: char,
) -> (r: Result<LaunchCommand, LaunchError>)
    requires
        present.len() == candidates(version_json.libraries@, layout.libraries_dir@, path_sep).len(),
    ensures
        !username_ok(username@) ==> r is Err && r->Err_0 is InvalidUsername,
        username_ok(username@) && raw_game_arguments(*version_json) is None ==> r is Err
            && r->Err_0 is MissingArgumentsField,
        username_ok(username@) && raw_game_arguments(*version_json) is Some <==> r is Ok,
        r is Ok ==> {
            let c = r->Ok_0;
            &&& c.java == java_runtime_spec(*config_json, *version_json)
            &&& views(c.java_arguments@) == java_arguments_spec(
                *config_json,
                *version_json,
                *layout,
                loaded_fabric,
                present@,
                path_sep,
                cp_sep,
            )
            &&& views(c.game_arguments@) == templated(
                raw_game_arguments(*version_json)->Some_0,
                placeholder_values(
                    username@,
                    version_json.id@,
                    layout.minecraft_dir@,
                    assets_dir@,
                    version_json.asset_index_id@,
                ),
            )
        },
{
    validate_username(username)?;
    let game_arguments = get_arguments(
        version_json,
        username,
        layout.minecraft_dir.as_str(),
        assets_dir,
    )?;
    let java_arguments = compose_java_arguments(
        config_json,
        version_json,
        layout,
        loaded_fabric,
        present,
        path_sep,
        cp_sep,
    );
    Ok(LaunchCommand { java: java_runtime(config_json, version_json), java_arguments, game_arguments })
}

/// A username that is empty or holds a space is refused.
pub proof fn lemma_spaced_username_refused(u: Seq<char>)
    requires
        u.len() == 0 || exists|k: int| 0 <= k < u.len() && u[k] == ' ',
    ensures
        !username_ok(u),
{
    if u.len() > 0 {
        let k = choose|k: int| 0 <= k < u.len() && u[k] == ' ';
        assert(is_space(u[k]));
    }
}


/// Old versions get the legacy proxy flag and no others do, so long as
/// nothing else on the command line (the mod loader's arguments, the
/// classpath, the main class) happens to be that very flag.
pub proof fn lemma_legacy_flag_only_for_legacy_types(
    config: InstanceConfigJson,
    v: VersionDetails,
    layout: InstanceLayout,
    loaded: Option<FabricJSON>,
    present: Seq<bool>,
    path_sep: char,
    cp_sep: char,
)
    requires
        !overlay_jvm(active_overlay(config, loaded)).contains(legacy_proxy_flag()),
        class_path_spec(v, layout, active_overlay(config, loaded), present, path_sep, cp_sep)
            != legacy_proxy_flag(),
        main_class_spec(v, active_overlay(config, loaded)) != legacy_proxy_flag(),
    ensures
        java_arguments_spec(config, v, layout, loaded, present, path_sep, cp_sep).contains(
            legacy_proxy_flag(),
        ) <==> is_legacy_type(v.version_type@),
{
    let f = active_overlay(config, loaded);
    let p = legacy_proxy_flag();
    let a = base_flags(layout.natives_dir@, config.ram_in_mb as nat);
    let l = legacy_flags(v.version_type@);
    let o = overlay_jvm(f);
    let g = logging_flags(v, layout.instance_dir@, path_sep);
    let t = seq!["-cp"@, class_path_spec(v, layout, f, present, path_sep, cp_sep), main_class_spec(v, f)];
    let args = java_arguments_spec(config, v, layout, loaded, present, path_sep, cp_sep);
    assert(args == a + l + o + g + t);
    reveal_strlit("-Dhttp.proxyHost=betacraft.uk");
    reveal_strlit("-Xss1M");
    reveal_strlit("-Dminecraft.launcher.brand=minecraft-launcher");
    reveal_strlit("-Dminecraft.launcher.version=2.1.1349");
    reveal_strlit("-Djava.library.path=");
    reveal_strlit("-Xmx");
    reveal_strlit("-Dlog4j.configurationFile=\"");
    reveal_strlit("-cp");
    assert(a[0][1] != p[1]);
    assert(a[1][2] != p[2]);
    assert(a[2][2] != p[2]);
    assert(a[3][2] != p[2]);
    assert(a[4][1] != p[1]);
    assert(forall|i: int| 0 <= i < 5 ==> #[trigger] a[i] != p);
    assert(t[0][1] != p[1]);
    assert(forall|i: int| 0 <= i < 3 ==> #[trigger] t[i] != p);
    assert(forall|i: int| 0 <= i < g.len() ==> #[trigger] g[i][2] != p[2]);
    assert(forall|i: int| 0 <= i < o.len() ==> #[trigger] o[i] != p);
    if is_legacy_type(v.version_type@) {
        assert(args[5] == p);
    }
    if args.contains(p) {
        let i = choose|i: int| 0 <= i < args.len() && args[i] == p;
        if i < 5 {
            assert(args[i] == a[i]);
        } else if i < 5 + l.len() {
            assert(l.len() > 0);
        } else if i < 5 + l.len() + o.len() {
            assert(args[i] == o[i - 5 - l.len()]);
        } else if i < 5 + l.len() + o.len() + g.len() {
            assert(args[i] == g[i - 5 - l.len() - o.len()]);
        } else {
            assert(args[i] == t[i - 5 - l.len() - o.len() - g.len()]);
        }
    }
}

/// With the Fabric overlay in effect, the main class is the overlay's, and
/// each of its JVM arguments comes, in order, before the classpath flag.
pub proof fn lemma_overlay_takes_precedence(
    config: InstanceConfigJson,
    v: VersionDetails,
    layout: InstanceLayout,
    f: FabricJSON,
    present: Seq<bool>,
    path_sep: char,
    cp_sep: char,
)
    requires
        config.mod_type@ == "Fabric"@,
    ensures
        ({
            let args = java_arguments_spec(config, v, layout, Some(f), present, path_sep, cp_sep);
            let start = 5 + legacy_flags(v.version_type@).len();
            &&& args.last() == f.main_class@
            &&& args[args.len() - 3] == "-cp"@
            &&& forall|k: int|
                0 <= k < f.jvm_arguments.len() ==> start + k < args.len() - 3 && #[trigger] args[start
                    + k] == f.jvm_arguments@[k]@
        }),
{
    let args = java_arguments_spec(config, v, layout, Some(f), present, path_sep, cp_sep);
    let a = base_flags(layout.natives_dir@, config.ram_in_mb as nat);
    let l = legacy_flags(v.version_type@);
    let o = overlay_jvm(Some(f));
    let g = logging_flags(v, layout.instance_dir@, path_sep);
    let t = seq![
        "-cp"@,
        class_path_spec(v, layout, Some(f), present, path_sep, cp_sep),
        main_class_spec(v, Some(f)),
    ];
    assert(args == a + l + o + g + t);
    assert forall|k: int| 0 <= k < f.jvm_arguments.len() implies 5 + l.len() + k < args.len() - 3
        && #[trigger] args[5 + l.len() + k] == f.jvm_arguments@[k]@ by {
        assert(args[5 + l.len() + k] == o[k]);
    }
}

/// When every `$` of the argument template begins a known placeholder and
/// none of the values that come from outside holds a `$`, no known
/// placeholder is left in any templated game argument.
pub proof fn lemma_arguments_leave_no_placeholder(
    v: VersionDetails,
    username: Seq<char>,
    game_dir: Seq<char>,
    assets_dir: Seq<char>,
)
    requires
        raw_game_arguments(v) is Some,
        forall|i: int|
            0 <= i < raw_game_arguments(v)->Some_0.len() ==> dollars_begin_placeholders(
                #[trigger] raw_game_arguments(v)->Some_0[i],
                placeholder_names(),
            ),
        lacks(username, '$'),
        lacks(v.id@, '$'),
        lacks(game_dir, '$'),
        lacks(assets_dir, '$'),
        lacks(v.asset_index_id@, '$'),
    ensures
        ({
            let out = templated(
                raw_game_arguments(v)->Some_0,
                placeholder_values(username, v.id@, game_dir, assets_dir, v.asset_index_id@),
            );
            forall|i: int, k: int, j: int|
                0 <= i < out.len() && 0 <= j < placeholder_names().len() ==> !#[trigger] placeholder_at(
                    out[i],
                    k,
                    placeholder_names()[j],
                )
        }),
{
    let raw = raw_game_arguments(v)->Some_0;
    let vals = placeholder_values(username, v.id@, game_dir, assets_dir, v.asset_index_id@);
    reveal_strlit("0");
    reveal_strlit("00000000-0000-0000-0000-000000000000");
    reveal_strlit("legacy");
    reveal_strlit("release");
    reveal_strlit("{}");
    assert(forall|j: int| 0 <= j < vals.len() ==> lacks(#[trigger] vals[j], '$'));
    let out = templated(raw, vals);
    assert forall|i: int, k: int, j: int|
        0 <= i < out.len() && 0 <= j < placeholder_names().len() implies !#[trigger] placeholder_at(
        out[i],
        k,
        placeholder_names()[j],
    ) by {
        lemma_expansion_leaves_no_placeholder(raw[i], placeholder_names(), vals);
    }
}

} // verus!
