//! Layout of the application data directory. Every location is derived from
//! the data directory (`~/.astrbot_launcher`), which the caller resolves.

use vstd::prelude::*;
use vstd::string::*;

use crate::archive_path::strs_view;
use crate::lexical_path::{join_path, join_path_vec};
use crate::text::{chars_of, string_from_chars, str_to_string};

verus! {

/// `base.join(seg)`.
pub fn join(base: &str, seg: &str) -> (r: String)
    ensures
        r@ == join_path(base@, seg@),
{
    string_from_chars(join_path_vec(&chars_of(base), &chars_of(seg)).as_slice())
}

/// `base` extended by each segment in turn.
pub open spec fn join_all(base: Seq<char>, segs: Seq<Seq<char>>) -> Seq<char>
    decreases segs.len(),
{
    if segs.len() == 0 {
        base
    } else {
        join_path(join_all(base, segs.drop_last()), segs.last())
    }
}

pub fn join_segments(base: &str, segments: &Vec<String>) -> (r: String)
    ensures
        r@ == join_all(base@, strs_view(segments@)),
{
    let ghost sv = strs_view(segments@);
    let mut path = str_to_string(base);
    let mut k: usize = 0;
    while k < segments.len()
        invariant
            sv == strs_view(segments@),
            k <= segments@.len(),
            path@ == join_all(base@, sv.take(k as int)),
        decreases segments.len() - k,
    {
        assert(sv.take(k as int + 1).drop_last() =~= sv.take(k as int));
        assert(sv[k as int] == segments@[k as int]@);
        path = join(path.as_str(), segments[k].as_str());
        k = k + 1;
    }
    assert(sv.take(k as int) =~= sv);
    path
}

/// The segments used on this platform (Unix); the Windows ones are ignored.
pub fn platform_join(base: &str, windows_segments: &Vec<String>, unix_segments: &Vec<String>) -> (r:
    String)
    ensures
        r@ == join_all(base@, strs_view(unix_segments@)),
{
    join_segments(base, unix_segments)
}

fn join2(base: &str, a: &str, b: &str) -> (r: String)
    ensures
        r@ == join_path(join_path(base@, a@), b@),
{
    let x = join(base, a);
    join(x.as_str(), b)
}

pub fn data_db_path(data_dir: &str) -> (r: String)
    ensures
        r@ == join_path(data_dir@, "data.redb"@),
{
    join(data_dir, "data.redb")
}

pub fn config_path(data_dir: &str) -> (r: String)
    ensures
        r@ == join_path(data_dir@, "config.toml"@),
{
    join(data_dir, "config.toml")
}

pub fn manifest_path(data_dir: &str) -> (r: String)
    ensures
        r@ == join_path(data_dir@, "manifest.toml"@),
{
    join(data_dir, "manifest.toml")
}

pub fn version_list_cache_path(data_dir: &str) -> (r: String)
    ensures
        r@ == join_path(data_dir@, "version_list.json"@),
{
    join(data_dir, "version_list.json")
}

/// The directories that must exist under the data directory, itself first.
pub fn required_data_dirs(data_dir: &str) -> (r: Vec<String>)
    ensures
        strs_view(r@) == seq![
            data_dir@,
            join_path(data_dir@, "components"@),
            join_path(data_dir@, "versions"@),
            join_path(data_dir@, "instances"@),
            join_path(data_dir@, "backups"@),
        ],
{
    let mut v: Vec<String> = Vec::new();
    v.push(str_to_string(data_dir));
    v.push(join(data_dir, "components"));
    v.push(join(data_dir, "versions"));
    v.push(join(data_dir, "instances"));
    v.push(join(data_dir, "backups"));
    assert(strs_view(v@) =~= seq![
        data_dir@,
        join_path(data_dir@, "components"@),
        join_path(data_dir@, "versions"@),
        join_path(data_dir@, "instances"@),
        join_path(data_dir@, "backups"@),
    ]);
    v
}

pub open spec fn instance_dir_spec(data_dir: Seq<char>, id: Seq<char>) -> Seq<char> {
    join_path(join_path(data_dir, "instances"@), id)
}

pub fn get_instance_dir(data_dir: &str, instance_id: &str) -> (r: String)
    ensures
        r@ == instance_dir_spec(data_dir@, instance_id@),
{
    join2(data_dir, "instances", instance_id)
}

pub fn get_instance_core_dir(data_dir: &str, instance_id: &str) -> (r: String)
    ensures
        r@ == join_path(instance_dir_spec(data_dir@, instance_id@), "core"@),
{
    join(get_instance_dir(data_dir, instance_id).as_str(), "core")
}

pub fn get_instance_venv_dir(data_dir: &str, instance_id: &str) -> (r: String)
    ensures
        r@ == join_path(instance_dir_spec(data_dir@, instance_id@), "venv"@),
{
    join(get_instance_dir(data_dir, instance_id).as_str(), "venv")
}

pub fn get_versions_dir(data_dir: &str) -> (r: String)
    ensures
        r@ == join_path(data_dir@, "versions"@),
{
    join(data_dir, "versions")
}

/// `versions/<version>.zip`.
pub fn get_version_zip_path(data_dir: &str, version: &str) -> (r: String)
    ensures
        r@ == join_path(join_path(data_dir@, "versions"@), version@ + ".zip"@),
{
    let mut name = str_to_string(version);
    name.append(".zip");
    join(get_versions_dir(data_dir).as_str(), name.as_str())
}

pub fn get_backups_dir(data_dir: &str) -> (r: String)
    ensures
        r@ == join_path(data_dir@, "backups"@),
{
    join(data_dir, "backups")
}

pub fn get_components_dir(data_dir: &str) -> (r: String)
    ensures
        r@ == join_path(data_dir@, "components"@),
{
    join(data_dir, "components")
}

pub open spec fn component_dir_spec(data_dir: Seq<char>, dir_name: Seq<char>) -> Seq<char> {
    join_path(join_path(data_dir, "components"@), dir_name)
}

pub fn get_component_dir(data_dir: &str, dir_name: &str) -> (r: String)
    ensures
        r@ == component_dir_spec(data_dir@, dir_name@),
{
    join2(data_dir, "components", dir_name)
}

/// A Python runtime under the unified python component.
pub fn get_python_runtime_dir(data_dir: &str, runtime: &str) -> (r: String)
    ensures
        r@ == join_path(component_dir_spec(data_dir@, "python"@), runtime@),
{
    join(get_component_dir(data_dir, "python").as_str(), runtime)
}

pub fn get_python_exe_path(python_dir: &str) -> (r: String)
    ensures
        r@ == join_path(join_path(python_dir@, "bin"@), "python3"@),
{
    join2(python_dir, "bin", "python3")
}

pub fn get_node_exe_path(node_dir: &str) -> (r: String)
    ensures
        r@ == join_path(join_path(node_dir@, "bin"@), "node"@),
{
    join2(node_dir, "bin", "node")
}

pub fn get_npm_exe_path(node_dir: &str) -> (r: String)
    ensures
        r@ == join_path(join_path(node_dir@, "bin"@), "npm"@),
{
    join2(node_dir, "bin", "npm")
}

pub fn get_npx_exe_path(node_dir: &str) -> (r: String)
    ensures
        r@ == join_path(join_path(node_dir@, "bin"@), "npx"@),
{
    join2(node_dir, "bin", "npx")
}

pub fn get_node_bin_dir(node_dir: &str) -> (r: String)
    ensures
        r@ == join_path(node_dir@, "bin"@),
{
    join(node_dir, "bin")
}

/// The npm global prefix, shared by all instances.
pub fn get_nodejs_npm_prefix(data_dir: &str) -> (r: String)
    ensures
        r@ == component_dir_spec(data_dir@, "nodejs"@),
{
    get_component_dir(data_dir, "nodejs")
}

pub fn get_nodejs_npm_cache(data_dir: &str) -> (r: String)
    ensures
        r@ == join_path(component_dir_spec(data_dir@, "nodejs"@), ".npm_cache"@),
{
    join(get_component_dir(data_dir, "nodejs").as_str(), ".npm_cache")
}

pub fn get_nodejs_shim_dir(data_dir: &str) -> (r: String)
    ensures
        r@ == join_path(component_dir_spec(data_dir@, "nodejs"@), "shims"@),
{
    join(get_component_dir(data_dir, "nodejs").as_str(), "shims")
}

pub fn get_npm_prefix_bin_dir(npm_prefix: &str) -> (r: String)
    ensures
        r@ == join_path(npm_prefix@, "bin"@),
{
    join(npm_prefix, "bin")
}

pub fn get_npm_prefix_modules_dir(npm_prefix: &str) -> (r: String)
    ensures
        r@ == join_path(join_path(npm_prefix@, "lib"@), "node_modules"@),
{
    join2(npm_prefix, "lib", "node_modules")
}

pub fn get_venv_python(venv_dir: &str) -> (r: String)
    ensures
        r@ == join_path(join_path(venv_dir@, "bin"@), "python"@),
{
    join2(venv_dir, "bin", "python")
}

pub fn get_uv_exe_path(uv_dir: &str) -> (r: String)
    ensures
        r@ == join_path(uv_dir@, "uv"@),
{
    join(uv_dir, "uv")
}

pub fn get_uvx_exe_path(uv_dir: &str) -> (r: String)
    ensures
        r@ == join_path(uv_dir@, "uvx"@),
{
    join(uv_dir, "uvx")
}

/// The uv cache, shared by all instances.
pub fn get_uv_cache_dir(data_dir: &str) -> (r: String)
    ensures
        r@ == join_path(component_dir_spec(data_dir@, "uv"@), "cache"@),
{
    join(get_component_dir(data_dir, "uv").as_str(), "cache")
}

} // verus!
