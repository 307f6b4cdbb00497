use vstd::prelude::*;

verus! {

/// Per-instance launch settings.
pub struct InstanceConfigJson {
    /// The mod loader in use: `"Fabric"`, or anything else for none.
    pub mod_type: String,
    /// A Java executable to run instead of an installed runtime.
    pub java_override: Option<String>,
    /// The memory given to the game, in megabytes.
    pub ram_in_mb: usize,
}

/// How a library is downloaded.
pub enum LibraryDownloads {
    /// An ordinary jar, at this path under the libraries directory.
    Normal { artifact_path: String },
    /// Native code only; never a classpath member.
    Native,
}

/// A library that a version declares.
pub struct Library {
    pub downloads: Option<LibraryDownloads>,
}

/// One entry of a structured game-argument list.
pub enum GameArgument {
    /// A plain string argument.
    Plain(String),
    /// A rule-guarded argument; these are not passed on.
    Conditional,
}

/// Metadata of one base game version.
pub struct VersionDetails {
    pub id: String,
    pub main_class: String,
    /// `"release"`, `"snapshot"`, `"old_beta"`, `"old_alpha"`, ...
    pub version_type: String,
    pub asset_index_id: String,
    pub libraries: Vec<Library>,
    /// The legacy single-string argument form.
    pub minecraft_arguments: Option<String>,
    /// The structured game-argument list.
    pub game_arguments: Option<Vec<GameArgument>>,
    /// The id of the logging configuration file, when one is declared.
    pub logging_file_id: Option<String>,
    /// The Java major version the game needs, when declared.
    pub java_version: Option<u64>,
}

/// The overlay that the Fabric mod loader puts over a version.
pub struct FabricJSON {
    /// Extra JVM arguments, in their declared order.
    pub jvm_arguments: Vec<String>,
    /// Extra libraries, as paths relative to the libraries directory (see
    /// `text::maven_path` for those given as Maven coordinates).
    pub libraries: Vec<String>,
    /// The main class that replaces the version's.
    pub main_class: String,
}

/// The mod list screen of one instance.
pub struct MenuEditMods {
    pub selected_instance: String,
    pub config: InstanceConfigJson,
}

/// The confirmation screen for deleting an instance.
pub struct MenuDeleteInstance {
    pub selected_instance: String,
}

/// The Fabric installation screen of one instance.
pub struct MenuInstallFabric {
    pub selected_instance: String,
    pub fabric_version: Option<String>,
    pub fabric_versions: Vec<String>,
}

/// The decimal digit for `d`, which is under ten.
pub open spec fn digit(d: nat) -> char {
    if d == 0 { '0' }
    else if d == 1 { '1' }
    else if d == 2 { '2' }
    else if d == 3 { '3' }
    else if d == 4 { '4' }
    else if d == 5 { '5' }
    else if d == 6 { '6' }
    else if d == 7 { '7' }
    else if d == 8 { '8' }
    else { '9' }
}

/// The decimal notation of `n`, without leading zeros.
pub open spec fn decimal(n: nat) -> Seq<char>
    decreases n,
{
    if n < 10 {
        seq![digit(n)]
    } else {
        decimal(n / 10).push(digit(n % 10))
    }
}

/// Relies on `char::to_string`: the string of that one character.
#[verifier::external_body]
pub(crate) fn char_string(c: char) -> (r: String)
    ensures
        r@ == seq![c],
{
    c.to_string()
}

fn digit_char(d: usize) -> (r: char)
    requires
        d < 10,
    ensures
        r == digit(d as nat),
{
    if d == 0 { '0' }
    else if d == 1 { '1' }
    else if d == 2 { '2' }
    else if d == 3 { '3' }
    else if d == 4 { '4' }
    else if d == 5 { '5' }
    else if d == 6 { '6' }
    else if d == 7 { '7' }
    else if d == 8 { '8' }
    else { '9' }
}

/// The decimal notation of `n`.
pub fn decimal_string(n: usize) -> (r: String)
    ensures
        r@ == decimal(n as nat),
    decreases n,
{
    if n < 10 {
        char_string(digit_char(n))
    } else {
        let mut r = decimal_string(n / 10);
        let d = char_string(digit_char(n % 10));
        r.append(d.as_str());
        r
    }
}

/// The JVM memory flag for `mb` megabytes.
pub open spec fn ram_argument(mb: nat) -> Seq<char> {
    "-Xmx"@ + decimal(mb) + "M"@
}

impl InstanceConfigJson {
    /// The JVM flag that gives the game its memory.
    pub fn get_ram_argument(&self) -> (r: String)
        ensures
            r@ == ram_argument(self.ram_in_mb as nat),
    {
        let mut r = String::from_str("-Xmx");
        let d = decimal_string(self.ram_in_mb);
        r.append(d.as_str());
        r.append("M");
        r
    }
}

} // verus!
