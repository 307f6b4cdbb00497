use vstd::prelude::*;
use crate::error::LaunchError;
use crate::model::char_string;

verus! {

/// `part` placed under the directory `base`.
pub open spec fn join(base: Seq<char>, part: Seq<char>, sep: char) -> Seq<char> {
    if base.len() == 0 {
        part
    } else if base.last() == sep {
        base + part
    } else {
        base.push(sep) + part
    }
}

/// `part` placed under the directory `base`, with `sep` between them
/// unless `base` is empty or already ends with it.
pub fn join_path(base: &str, part: &str, sep: char) -> (r: String)
    ensures
        r@ == join(base@, part@, sep),
{
    let n = base.unicode_len();
    if n == 0 {
        return String::from_str(part);
    }
    let mut r = String::from_str(base);
    if base.get_char(n - 1) != sep {
        let s = char_string(sep);
        r.append(s.as_str());
    }
    r.append(part);
    r
}

/// The directory of the instance `name` under the launcher directory.
pub open spec fn instance_dir_spec(launcher_dir: Seq<char>, name: Seq<char>, sep: char) -> Seq<
    char,
> {
    join(join(launcher_dir, "instances"@, sep), name, sep)
}

/// The directory of the instance `instance_name`. An empty name names no
/// instance; whether the directory exists is for the caller to check.
pub fn get_instance_dir(launcher_dir: &str, instance_name: &str, sep: char) -> (r: Result<
    String,
    LaunchError,
>)
    ensures
        instance_name@.len() == 0 <==> r is Err,
        r is Err ==> r->Err_0 is InstanceNotFound,
        r is Ok ==> r->Ok_0@ == instance_dir_spec(launcher_dir@, instance_name@, sep),
{
    if instance_name.unicode_len() == 0 {
        return Err(LaunchError::InstanceNotFound);
    }
    let instances = join_path(launcher_dir, "instances", sep);
    Ok(join_path(instances.as_str(), instance_name, sep))
}

/// The directories of one instance.
pub struct InstanceLayout {
    /// The instance's own directory.
    pub instance_dir: String,
    /// Its game-data directory.
    pub minecraft_dir: String,
    /// Where its libraries lie.
    pub libraries_dir: String,
    /// Where its native libraries lie.
    pub natives_dir: String,
}

impl InstanceLayout {
    /// Whether the directories are those of the instance directory `dir`.
    pub open spec fn of(self, dir: Seq<char>, sep: char) -> bool {
        &&& self.instance_dir@ == dir
        &&& self.minecraft_dir@ == join(dir, ".minecraft"@, sep)
        &&& self.libraries_dir@ == join(dir, "libraries"@, sep)
        &&& self.natives_dir@ == join(join(dir, "libraries"@, sep), "natives"@, sep)
    }

    /// The directories of the instance directory `instance_dir`.
    pub fn new(instance_dir: &str, sep: char) -> (r: InstanceLayout)
        ensures
            r.of(instance_dir@, sep),
    {
        let libraries_dir = join_path(instance_dir, "libraries", sep);
        let natives_dir = join_path(libraries_dir.as_str(), "natives", sep);
        InstanceLayout {
            instance_dir: String::from_str(instance_dir),
            minecraft_dir: join_path(instance_dir, ".minecraft", sep),
            libraries_dir,
            natives_dir,
        }
    }

    /// The path of a file in the instance directory.
    pub fn file(&self, name: &str, sep: char) -> (r: String)
        ensures
            r@ == join(self.instance_dir@, name@, sep),
    {
        join_path(self.instance_dir.as_str(), name, sep)
    }
}

/// The main jar of version `id` under the game-data directory.
pub open spec fn jar_path_spec(minecraft_dir: Seq<char>, id: Seq<char>, sep: char) -> Seq<char> {
    join(join(join(minecraft_dir, "versions"@, sep), id, sep), id + ".jar"@, sep)
}

/// The main jar of version `id` under the game-data directory.
pub fn jar_path(minecraft_dir: &str, id: &str, sep: char) -> (r: String)
    ensures
        r@ == jar_path_spec(minecraft_dir@, id@, sep),
{
    let versions = join_path(minecraft_dir, "versions", sep);
    let dir = join_path(versions.as_str(), id, sep);
    let mut name = String::from_str(id);
    name.append(".jar");
    join_path(dir.as_str(), name.as_str(), sep)
}

/// The shared asset store of asset index `index_id`.
pub open spec fn assets_dir_spec(launcher_dir: Seq<char>, index_id: Seq<char>, sep: char) -> Seq<
    char,
> {
    join(join(launcher_dir, "assets"@, sep), index_id, sep)
}

/// The shared asset store of asset index `index_id`.
pub fn assets_dir(launcher_dir: &str, index_id: &str, sep: char) -> (r: String)
    ensures
        r@ == assets_dir_spec(launcher_dir@, index_id@, sep),
{
    let assets = join_path(launcher_dir, "assets", sep);
    join_path(assets.as_str(), index_id, sep)
}

} // verus!
