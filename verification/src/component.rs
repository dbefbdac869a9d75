//! Managed runtime components (Python, Node.js, uv): identities, status
//! snapshots, runtime selection per AstrBot version, and the environment and
//! shim scripts that isolate Node.js.

use vstd::prelude::*;
use vstd::string::*;

use crate::archive_path::strs_view;
use crate::error::{detail_payload, AppError, ErrorKind};
use crate::lexical_path::{components_of, eq_segs, join_path, path_components, vecs_view};
use crate::text::{
    chars_of, ends_with, ends_with_vec, eq_vec, parse_u32, parse_u32_spec, replace_char,
    split_char, split_char_vec, starts_with, starts_with_vec, string_from_chars, str_to_string,
    subvec, trim, trim_end_char, trim_end_char_vec, trim_start_char, trim_start_char_vec, trim_vec,
};

verus! {

/// Identifies a managed component.
#[derive(Debug, Clone, Copy, PartialEq, Eq, Structural)]
pub enum ComponentId {
    Python,
    Nodejs,
    UV,
}

pub open spec fn dir_name_spec(id: ComponentId) -> Seq<char> {
    match id {
        ComponentId::Python => "python"@,
        ComponentId::Nodejs => "nodejs"@,
        ComponentId::UV => "uv"@,
    }
}

pub open spec fn display_name_spec(id: ComponentId) -> Seq<char> {
    match id {
        ComponentId::Python => "Python"@,
        ComponentId::Nodejs => "Node.js (LTS)"@,
        ComponentId::UV => "uv"@,
    }
}

pub open spec fn from_str_id_spec(s: Seq<char>) -> Option<ComponentId> {
    if s == "python"@ {
        Some(ComponentId::Python)
    } else if s == "nodejs"@ {
        Some(ComponentId::Nodejs)
    } else if s == "uv"@ {
        Some(ComponentId::UV)
    } else {
        None
    }
}

impl ComponentId {
    /// Directory name under `components/`.
    pub fn dir_name(self) -> (r: &'static str)
        ensures
            r@ == dir_name_spec(self),
    {
        match self {
            ComponentId::Python => "python",
            ComponentId::Nodejs => "nodejs",
            ComponentId::UV => "uv",
        }
    }

    /// Human-readable display name.
    pub fn display_name(self) -> (r: &'static str)
        ensures
            r@ == display_name_spec(self),
    {
        match self {
            ComponentId::Python => "Python",
            ComponentId::Nodejs => "Node.js (LTS)",
            ComponentId::UV => "uv",
        }
    }

    /// Parse a string id (e.g. from the frontend).
    pub fn from_str_id(s: &str) -> (r: Option<Self>)
        ensures
            r == from_str_id_spec(s@),
    {
        let cs = chars_of(s);
        if eq_vec(&cs, &chars_of("python")) {
            Some(ComponentId::Python)
        } else if eq_vec(&cs, &chars_of("nodejs")) {
            Some(ComponentId::Nodejs)
        } else if eq_vec(&cs, &chars_of("uv")) {
            Some(ComponentId::UV)
        } else {
            None
        }
    }
}

/// A component's id and description.
#[derive(Debug, Clone, Copy)]
pub struct ComponentDescriptor {
    pub id: ComponentId,
    pub description: &'static str,
}

pub open spec fn description_spec(id: ComponentId) -> Seq<char> {
    match id {
        ComponentId::Python => "Python 3.10 / 3.12 运行时"@,
        ComponentId::Nodejs => "Node.js 运行时"@,
        ComponentId::UV => "uv / uvx 包管理工具"@,
    }
}

/// The managed components, in display order.
pub fn component_descriptors() -> (r: Vec<ComponentDescriptor>)
    ensures
        r@.len() == 3,
        r@[0].id == ComponentId::Python,
        r@[1].id == ComponentId::Nodejs,
        r@[2].id == ComponentId::UV,
        forall|i: int| 0 <= i < 3 ==> (#[trigger] r@[i]).description@ == description_spec(r@[i].id),
{
    let mut v: Vec<ComponentDescriptor> = Vec::new();
    v.push(ComponentDescriptor { id: ComponentId::Python, description: "Python 3.10 / 3.12 运行时" });
    v.push(ComponentDescriptor { id: ComponentId::Nodejs, description: "Node.js 运行时" });
    v.push(ComponentDescriptor { id: ComponentId::UV, description: "uv / uvx 包管理工具" });
    v
}

/// Status of a single component.
#[derive(Debug)]
pub struct ComponentStatus {
    pub id: String,
    pub installed: bool,
    pub display_name: String,
    pub description: String,
}

/// Snapshot of all component statuses.
#[derive(Debug)]
pub struct ComponentsSnapshot {
    pub components: Vec<ComponentStatus>,
}

pub open spec fn status_matches(s: ComponentStatus, id: ComponentId, installed: bool) -> bool {
    &&& s.id@ == dir_name_spec(id)
    &&& s.installed == installed
    &&& s.display_name@ == display_name_spec(id)
    &&& s.description@ == description_spec(id)
}

/// The status of every component, given whether each is installed.
pub fn build_components_snapshot(
    python_installed: bool,
    nodejs_installed: bool,
    uv_installed: bool,
) -> (r: ComponentsSnapshot)
    ensures
        r.components@.len() == 3,
        status_matches(r.components@[0], ComponentId::Python, python_installed),
        status_matches(r.components@[1], ComponentId::Nodejs, nodejs_installed),
        status_matches(r.components@[2], ComponentId::UV, uv_installed),
{
    let descriptors = component_descriptors();
    let mut components: Vec<ComponentStatus> = Vec::new();
    let mut i: usize = 0;
    while i < descriptors.len()
        invariant
            descriptors@.len() == 3,
            descriptors@[0].id == ComponentId::Python,
            descriptors@[1].id == ComponentId::Nodejs,
            descriptors@[2].id == ComponentId::UV,
            forall|j: int| 0 <= j < 3 ==> (#[trigger] descriptors@[j]).description@ == description_spec(descriptors@[j].id),
            i <= 3,
            components@.len() == i,
            forall|j: int|
                0 <= j < i ==> status_matches(
                    #[trigger] components@[j],
                    descriptors@[j].id,
                    if j == 0 {
                        python_installed
                    } else if j == 1 {
                        nodejs_installed
                    } else {
                        uv_installed
                    },
                ),
        decreases 3 - i,
    {
        let d = descriptors[i];
        let installed = if i == 0 {
            python_installed
        } else if i == 1 {
            nodejs_installed
        } else {
            uv_installed
        };
        components.push(
            ComponentStatus {
                id: str_to_string(d.id.dir_name()),
                installed,
                display_name: str_to_string(d.id.display_name()),
                description: str_to_string(d.description),
            },
        );
        i = i + 1;
    }
    ComponentsSnapshot { components }
}

/// Python counts as installed only when both runtimes are.
pub fn is_component_installed(py310_installed: bool, py312_installed: bool) -> (b: bool)
    ensures
        b == (py310_installed && py312_installed),
{
    py310_installed && py312_installed
}

/// Node.js counts as installed when its executable exists.
pub fn is_nodejs_installed(node_exe_exists: bool) -> (b: bool)
    ensures
        b == node_exe_exists,
{
    node_exe_exists
}

/// uv counts as installed when both `uv` and `uvx` exist.
pub fn is_uv_installed(uv_exists: bool, uvx_exists: bool) -> (b: bool)
    ensures
        b == (uv_exists && uvx_exists),
{
    uv_exists && uvx_exists
}

/// The uv executable, when it exists.
pub fn get_uv_executable(uv_exe: &str, exists: bool) -> (r: Result<String, AppError>)
    ensures
        exists ==> (r matches Ok(p) && p@ == uv_exe@),
        !exists ==> (r matches Err(e) && e@.0 == ErrorKind::Other && e@.1 == detail_payload(
            "uv 组件未安装"@,
        )),
{
    if exists {
        Ok(str_to_string(uv_exe))
    } else {
        Err(AppError::other("uv 组件未安装"))
    }
}

/// The numeric parts of a version (`v` prefix dropped, `.`-separated parts
/// that are not numbers skipped).
pub open spec fn version_numbers(parts: Seq<Seq<char>>) -> Seq<u32>
    decreases parts.len(),
{
    if parts.len() == 0 {
        Seq::empty()
    } else {
        let r = version_numbers(parts.drop_last());
        match parse_u32_spec(parts.last()) {
            Ok(n) => r.push(n),
            Err(_) => r,
        }
    }
}

pub open spec fn strip_v(v: Seq<char>) -> Seq<char> {
    if v.len() > 0 && v[0] == 'v' {
        v.subrange(1, v.len() as int)
    } else {
        v
    }
}

/// Versions up to v4.14.6 run on Python 3.10, later ones on 3.12.
pub open spec fn requires_py310_spec(version: Seq<char>) -> bool {
    let n = version_numbers(split_char(strip_v(version), '.'));
    if n.len() >= 3 {
        n[0] < 4 || (n[0] == 4 && (n[1] < 14 || (n[1] == 14 && n[2] <= 6)))
    } else if n.len() == 2 {
        n[0] < 4 || (n[0] == 4 && n[1] <= 14)
    } else if n.len() == 1 {
        n[0] <= 4
    } else {
        false
    }
}

/// Lexicographic order on number sequences of the same length.
pub open spec fn numbers_le(a: Seq<u32>, b: Seq<u32>) -> bool
    decreases a.len(),
{
    if a.len() == 0 || b.len() == 0 {
        true
    } else if a[0] != b[0] {
        a[0] < b[0]
    } else {
        numbers_le(a.drop_first(), b.drop_first())
    }
}

/// The numbers of a version, after the `v` and split at `.`.
pub open spec fn version_parts(version: Seq<char>) -> Seq<u32> {
    version_numbers(split_char(strip_v(version), '.'))
}

/// Python 3.10 is needed exactly by the versions up to v4.14.6: the first
/// (up to) three numbers of the version compare, in lexicographic order, no
/// higher than 4, 14, 6 taken to the same length; a version with no number
/// takes Python 3.12.
pub proof fn lemma_py310_up_to_4_14_6(version: Seq<char>)
    ensures
        version_parts(version).len() >= 3 ==> (requires_py310_spec(version) <==> numbers_le(
            version_parts(version).take(3),
            seq![4u32, 14u32, 6u32],
        )),
        version_parts(version).len() == 2 ==> (requires_py310_spec(version) <==> numbers_le(
            version_parts(version),
            seq![4u32, 14u32],
        )),
        version_parts(version).len() == 1 ==> (requires_py310_spec(version) <==> numbers_le(
            version_parts(version),
            seq![4u32],
        )),
        version_parts(version).len() == 0 ==> !requires_py310_spec(version),
{
    let n = version_parts(version);
    reveal_with_fuel(numbers_le, 4);
    if n.len() >= 3 {
        let a = n.take(3);
        assert(a.drop_first() =~= seq![a[1], a[2]]);
        assert(a.drop_first().drop_first() =~= seq![a[2]]);
        assert(a.drop_first().drop_first().drop_first() =~= Seq::<u32>::empty());
        assert(seq![4u32, 14u32, 6u32].drop_first() =~= seq![14u32, 6u32]);
        assert(seq![14u32, 6u32].drop_first() =~= seq![6u32]);
        assert(seq![6u32].drop_first() =~= Seq::<u32>::empty());
    } else if n.len() == 2 {
        assert(n.drop_first() =~= seq![n[1]]);
        assert(n.drop_first().drop_first() =~= Seq::<u32>::empty());
        assert(seq![4u32, 14u32].drop_first() =~= seq![14u32]);
        assert(seq![14u32].drop_first() =~= Seq::<u32>::empty());
    } else if n.len() == 1 {
        assert(n.drop_first() =~= Seq::<u32>::empty());
        assert(seq![4u32].drop_first() =~= Seq::<u32>::empty());
    }
}

/// Whether needing Python 3.10 carries down the version order: a version
/// whose three numbers are no higher, lexicographically, than those of one
/// that needs Python 3.10 needs it too.
pub proof fn lemma_py310_downward_closed(older: Seq<char>, newer: Seq<char>)
    requires
        version_parts(older).len() == 3,
        version_parts(newer).len() == 3,
        numbers_le(version_parts(older), version_parts(newer)),
        requires_py310_spec(newer),
    ensures
        requires_py310_spec(older),
{
    lemma_py310_up_to_4_14_6(older);
    lemma_py310_up_to_4_14_6(newer);
    let a = version_parts(older);
    let b = version_parts(newer);
    assert(a.take(3) =~= a);
    assert(b.take(3) =~= b);
    lemma_numbers_le_transitive(a, b, seq![4u32, 14u32, 6u32]);
}

proof fn lemma_numbers_le_transitive(a: Seq<u32>, b: Seq<u32>, c: Seq<u32>)
    requires
        a.len() == b.len(),
        b.len() == c.len(),
        numbers_le(a, b),
        numbers_le(b, c),
    ensures
        numbers_le(a, c),
    decreases a.len(),
{
    if a.len() > 0 && a[0] == b[0] && b[0] == c[0] {
        lemma_numbers_le_transitive(a.drop_first(), b.drop_first(), c.drop_first());
    }
}

pub fn requires_python310(version: &str) -> (b: bool)
    ensures
        b == requires_py310_spec(version@),
        version_parts(version@).len() >= 3 ==> (b <==> numbers_le(
            version_parts(version@).take(3),
            seq![4u32, 14u32, 6u32],
        )),
        version_parts(version@).len() == 2 ==> (b <==> numbers_le(version_parts(version@), seq![4u32, 14u32])),
        version_parts(version@).len() == 1 ==> (b <==> numbers_le(version_parts(version@), seq![4u32])),
        version_parts(version@).len() == 0 ==> !b,
{
    proof {
        lemma_py310_up_to_4_14_6(version@);
    }
    let cs = chars_of(version);
    let body = if cs.len() > 0 && cs[0] == 'v' {
        subvec(&cs, 1, cs.len())
    } else {
        cs
    };
    let parts = split_char_vec(&body, '.');
    let ghost pv = parts@.map_values(|p: Vec<char>| p@);
    let mut nums: Vec<u32> = Vec::new();
    let mut k: usize = 0;
    while k < parts.len()
        invariant
            pv == parts@.map_values(|p: Vec<char>| p@),
            k <= parts@.len(),
            nums@ == version_numbers(pv.take(k as int)),
        decreases parts.len() - k,
    {
        assert(pv.take(k as int + 1).drop_last() =~= pv.take(k as int));
        assert(pv[k as int] == parts@[k as int]@);
        match parse_u32(string_from_chars(parts[k].as_slice()).as_str()) {
            Ok(n) => nums.push(n),
            Err(_) => {},
        }
        k = k + 1;
    }
    assert(pv.take(k as int) =~= pv);
    if nums.len() >= 3 {
        nums[0] < 4 || (nums[0] == 4 && (nums[1] < 14 || (nums[1] == 14 && nums[2] <= 6)))
    } else if nums.len() == 2 {
        nums[0] < 4 || (nums[0] == 4 && nums[1] <= 14)
    } else if nums.len() == 1 {
        nums[0] <= 4
    } else {
        false
    }
}

/// The Python runtime directory name an AstrBot version needs.
pub fn python_runtime_for_version(version: &str) -> (r: &'static str)
    ensures
        r@ == (if requires_py310_spec(version@) {
            "py310"@
        } else {
            "py312"@
        }),
{
    if requires_python310(version) {
        "py310"
    } else {
        "py312"
    }
}

/// Where the Python executable of the runtime an AstrBot version needs lies:
/// `components/python/{py310|py312}/bin/python3` under the data directory.
pub open spec fn python_exe_spec(data_dir: Seq<char>, version: Seq<char>) -> Seq<char> {
    let runtime = if requires_py310_spec(version) {
        "py310"@
    } else {
        "py312"@
    };
    join_path(
        join_path(join_path(crate::paths::component_dir_spec(data_dir, "python"@), runtime), "bin"@),
        "python3"@,
    )
}

/// The path of the Python executable an AstrBot version needs.
pub fn python_exe_for_version(data_dir: &str, version: &str) -> (r: String)
    ensures
        r@ == python_exe_spec(data_dir@, version@),
{
    let runtime = python_runtime_for_version(version);
    crate::paths::get_python_exe_path(crate::paths::get_python_runtime_dir(data_dir, runtime).as_str())
}

/// The Python executable for an AstrBot version (see [`python_exe_for_version`]),
/// given whether that file exists; an error when the runtime is missing.
pub fn get_python_for_version(data_dir: &str, version: &str, exists: bool) -> (r: Result<String, AppError>)
    ensures
        exists ==> (r matches Ok(p) && p@ == python_exe_spec(data_dir@, version@)),
        !exists ==> (r matches Err(e) && e@ == (
            ErrorKind::PythonNotInstalled,
            Seq::<(Seq<char>, Seq<char>)>::empty(),
        )),
{
    if exists {
        Ok(python_exe_for_version(data_dir, version))
    } else {
        Err(AppError::python_not_installed())
    }
}

/// The value of an ASCII hex digit byte.
pub open spec fn hex_spec(b: u8) -> Option<u8> {
    if 48 <= b <= 57 {
        Some((b - 48) as u8)
    } else if 97 <= b <= 102 {
        Some((b - 97 + 10) as u8)
    } else if 65 <= b <= 70 {
        Some((b - 65 + 10) as u8)
    } else {
        None
    }
}

pub fn hex_value(byte: u8) -> (r: Option<u8>)
    ensures
        r == hex_spec(byte),
{
    if 48 <= byte && byte <= 57 {
        Some(byte - 48)
    } else if 97 <= byte && byte <= 102 {
        Some(byte - 97 + 10)
    } else if 65 <= byte && byte <= 70 {
        Some(byte - 65 + 10)
    } else {
        None
    }
}

/// Bytes with every `%XY` (two hex digits) replaced by the byte it encodes.
pub open spec fn percent_decode(b: Seq<u8>) -> Seq<u8>
    decreases b.len(),
{
    if b.len() == 0 {
        Seq::empty()
    } else if b[0] == 37 && 2 < b.len() && hex_spec(b[1]) is Some && hex_spec(b[2]) is Some {
        seq![(hex_spec(b[1])->0 * 16 + hex_spec(b[2])->0) as u8] + percent_decode(
            b.subrange(3, b.len() as int),
        )
    } else {
        seq![b[0]] + percent_decode(b.subrange(1, b.len() as int))
    }
}

/// The text `String::from_utf8_lossy` makes of `bytes` (invalid sequences
/// become replacement characters).
pub uninterp spec fn utf8_lossy(bytes: Seq<u8>) -> Seq<char>;

/// `String::from_utf8_lossy`: valid UTF-8 is decoded as is; the handling of
/// invalid sequences is left to the named result.
#[verifier::external_body]
fn string_from_utf8_lossy(bytes: &[u8]) -> (r: String)
    ensures
        r@ == utf8_lossy(bytes@),
        vstd::utf8::valid_utf8(bytes@) ==> r@ == vstd::utf8::decode_utf8(bytes@),
{
    String::from_utf8_lossy(bytes).into_owned()
}

/// A URL path segment with its percent-escapes decoded.
pub fn decode_url_path_segment(input: &str) -> (r: String)
    ensures
        r@ == utf8_lossy(percent_decode(input.spec_bytes())),
{
    let bytes = input.as_bytes_vec();
    let n = bytes.len();
    let mut decoded: Vec<u8> = Vec::new();
    let mut index: usize = 0;
    assert(bytes@.subrange(0, n as int) =~= bytes@);
    while index < n
        invariant
            n == bytes@.len(),
            index <= n,
            percent_decode(bytes@) == decoded@ + percent_decode(bytes@.subrange(index as int, n as int)),
        decreases n - index,
    {
        let ghost rest = bytes@.subrange(index as int, n as int);
        if bytes[index] == 37 && n - index > 2 {
            let hi = hex_value(bytes[index + 1]);
            let lo = hex_value(bytes[index + 2]);
            if let (Some(h), Some(l)) = (hi, lo) {
                let ghost before = decoded@;
                decoded.push(h * 16 + l);
                assert(rest.subrange(3, rest.len() as int) =~= bytes@.subrange(index + 3, n as int));
                assert(rest[1] == bytes@[index + 1] && rest[2] == bytes@[index + 2]);
                assert(decoded@ =~= before + seq![(h * 16 + l) as u8]);
                index = index + 3;
                continue;
            }
        }
        let ghost before = decoded@;
        decoded.push(bytes[index]);
        assert(rest.subrange(1, rest.len() as int) =~= bytes@.subrange(index + 1, n as int));
        assert(decoded@ =~= before + seq![bytes@[index as int]]);
        index = index + 1;
    }
    assert(decoded@ =~= decoded@ + percent_decode(bytes@.subrange(n as int, n as int)));
    string_from_utf8_lossy(decoded.as_slice())
}

/// `str::trim_matches(c)` for one character.
pub open spec fn trim_both(s: Seq<char>, c: char) -> Seq<char> {
    trim_end_char(trim_start_char(s, c), c)
}

/// The asset name a listing entry names, once quotes and slashes around it
/// are removed: the decoded last path segment, kept when it is a `.tar.gz`
/// archive not listed yet. Empty entries and query or fragment links are skipped.
pub open spec fn asset_candidate_spec(candidate: Seq<char>) -> Option<Seq<char>> {
    let t = trim_both(trim_both(trim_both(trim(candidate), '"'), '\u{27}'), '/');
    if t.len() == 0 || t[0] == '?' || t[0] == '#' {
        None
    } else {
        let name = split_char(t, '/').last();
        let decoded = utf8_lossy(percent_decode(crate::text::encode_chars(name)));
        if ends_with(decoded, ".tar.gz"@) {
            Some(decoded)
        } else {
            None
        }
    }
}

fn trim_both_vec(v: &Vec<char>, c: char) -> (r: Vec<char>)
    ensures
        r@ == trim_both(v@, c),
{
    trim_end_char_vec(&trim_start_char_vec(v, c), c)
}

/// Adds the asset a listing entry names, unless it is already listed.
pub fn push_python_asset_candidate(asset_names: &mut Vec<String>, candidate: &str)
    ensures
        match asset_candidate_spec(candidate@) {
            Some(d) => if strs_view(old(asset_names)@).contains(d) {
                final(asset_names)@ == old(asset_names)@
            } else {
                strs_view(final(asset_names)@) == strs_view(old(asset_names)@).push(d)
            },
            None => final(asset_names)@ == old(asset_names)@,
        },
{
    let t = trim_both_vec(
        &trim_both_vec(&trim_both_vec(&trim_vec(&chars_of(candidate)), '"'), '\u{27}'),
        '/',
    );
    if t.len() == 0 || t[0] == '?' || t[0] == '#' {
        return;
    }
    let parts = split_char_vec(&t, '/');
    proof {
        assert(split_char(t@, '/').len() > 0);
    }
    let last = &parts[parts.len() - 1];
    assert(parts@.map_values(|p: Vec<char>| p@).last() == last@);
    let name = string_from_chars(last.as_slice());
    let decoded = decode_url_path_segment(name.as_str());
    if !ends_with_vec(&chars_of(decoded.as_str()), &chars_of(".tar.gz")) {
        return;
    }
    assert(name@ == split_char(t@, '/').last());
    assert(decoded@ == utf8_lossy(percent_decode(crate::text::encode_chars(name@))));
    assert(asset_candidate_spec(candidate@) == Some(decoded@));
    let mut i: usize = 0;
    while i < asset_names.len()
        invariant
            i <= asset_names@.len(),
            asset_names@ == old(asset_names)@,
            asset_candidate_spec(candidate@) == Some(decoded@),
            forall|j: int| 0 <= j < i ==> asset_names@[j]@ != decoded@,
        decreases asset_names.len() - i,
    {
        if eq_vec(&chars_of(asset_names[i].as_str()), &chars_of(decoded.as_str())) {
            assert(strs_view(asset_names@)[i as int] == decoded@);
            return;
        }
        i = i + 1;
    }
    assert(!strs_view(asset_names@).contains(decoded@)) by {
        if strs_view(asset_names@).contains(decoded@) {
            let j = choose|j: int| 0 <= j < strs_view(asset_names@).len() && strs_view(asset_names@)[j] == decoded@;
            assert(asset_names@[j]@ == decoded@);
        }
    }
    let ghost before = strs_view(asset_names@);
    asset_names.push(decoded);
    assert(strs_view(asset_names@) =~= before.push(decoded@));
}

/// A mirror asset fits a Python line and platform when it is named
/// `cpython-<major>...<arch>-install_only_stripped.tar.gz`.
pub open spec fn asset_fits(name: Seq<char>, major: Seq<char>, arch: Seq<char>) -> bool {
    starts_with(name, "cpython-"@ + major) && ends_with(name, arch + "-install_only_stripped.tar.gz"@)
}

/// The full Python version in an asset name: after `cpython-`, up to `+`.
pub open spec fn asset_python_version(name: Seq<char>) -> Seq<char> {
    split_char(name.subrange(8, name.len() as int), '+')[0]
}

/// The first fitting asset of the mirror listing and its Python version.
pub fn find_mainland_python_asset_for_version(
    asset_names: &Vec<String>,
    major_version: &str,
    arch_target: &str,
) -> (r: Result<(String, String), AppError>)
    ensures
        match r {
            Ok((a, v)) => exists|i: int|
                0 <= i < asset_names@.len() && asset_names@[i]@ == a@ && asset_fits(
                    a@,
                    major_version@,
                    arch_target@,
                ) && (forall|j: int|
                    0 <= j < i ==> !asset_fits(
                        #[trigger] asset_names@[j]@,
                        major_version@,
                        arch_target@,
                    )) && v@ == asset_python_version(a@),
            Err(e) => (forall|j: int|
                0 <= j < asset_names@.len() ==> !asset_fits(
                    #[trigger] asset_names@[j]@,
                    major_version@,
                    arch_target@,
                )) && e@.0 == ErrorKind::Python && e@.1 == detail_payload(
                "No Python "@ + major_version@
                    + " asset found in mainland mirror for current platform"@,
            ),
        },
{
    let mut prefix = str_to_string("cpython-");
    prefix.append(major_version);
    let mut suffix = str_to_string(arch_target);
    suffix.append("-install_only_stripped.tar.gz");
    let pv = chars_of(prefix.as_str());
    let sv = chars_of(suffix.as_str());
    let mut i: usize = 0;
    while i < asset_names.len()
        invariant
            i <= asset_names@.len(),
            pv@ == "cpython-"@ + major_version@,
            sv@ == arch_target@ + "-install_only_stripped.tar.gz"@,
            forall|j: int|
                0 <= j < i ==> !asset_fits(
                    #[trigger] asset_names@[j]@,
                    major_version@,
                    arch_target@,
                ),
        decreases asset_names.len() - i,
    {
        let name = chars_of(asset_names[i].as_str());
        if starts_with_vec(&name, &pv) && ends_with_vec(&name, &sv) {
            proof {
                reveal_strlit("cpython-");
            }
            assert(name@.len() >= 8);
            let rest = subvec(&name, 8, name.len());
            let parts = split_char_vec(&rest, '+');
            proof {
                assert(split_char(rest@, '+').len() > 0);
                assert(parts@.map_values(|p: Vec<char>| p@)[0] == parts@[0]@);
            }
            let version = string_from_chars(parts[0].as_slice());
            return Ok((asset_names[i].clone(), version));
        }
        i = i + 1;
    }
    let mut m = str_to_string("No Python ");
    m.append(major_version);
    m.append(" asset found in mainland mirror for current platform");
    Err(AppError::python(m.as_str()))
}

/// The variable names and values that isolate npm in the component
/// directory, each under an upper- and a lower-case name; the registry only
/// when one is configured.
pub open spec fn nodejs_env_spec(
    npm_prefix: Seq<char>,
    npm_cache: Seq<char>,
    modules_dir: Seq<char>,
    registry: Option<Seq<char>>,
) -> Seq<(Seq<char>, Seq<char>)> {
    let global_npmrc = join_path(join_path(npm_prefix, "etc"@), "npmrc"@);
    let user_npmrc = join_path(npm_prefix, ".npmrc"@);
    let base = seq![
        ("NODE_PATH"@, modules_dir),
        ("node_path"@, modules_dir),
        ("NPM_CONFIG_PREFIX"@, npm_prefix),
        ("npm_config_prefix"@, npm_prefix),
        ("NPM_CONFIG_CACHE"@, npm_cache),
        ("npm_config_cache"@, npm_cache),
        ("NPM_CONFIG_GLOBALCONFIG"@, global_npmrc),
        ("npm_config_globalconfig"@, global_npmrc),
        ("NPM_CONFIG_NPM_GLOBALCONFIG"@, global_npmrc),
        ("npm_config_npm_globalconfig"@, global_npmrc),
        ("NPM_CONFIG_USERCONFIG"@, user_npmrc),
        ("npm_config_userconfig"@, user_npmrc),
    ];
    match registry {
        Some(r) => base + seq![("NPM_CONFIG_REGISTRY"@, r), ("npm_config_registry"@, r)],
        None => base,
    }
}

fn push_both(vars: &mut Vec<(String, String)>, upper: &str, lower: &str, value: &str)
    ensures
        crate::proxy::pairs_view(final(vars)@) == crate::proxy::pairs_view(old(vars)@) + seq![
            (upper@, value@),
            (lower@, value@),
        ],
{
    let ghost before = crate::proxy::pairs_view(vars@);
    vars.push((str_to_string(upper), str_to_string(value)));
    vars.push((str_to_string(lower), str_to_string(value)));
    assert(crate::proxy::pairs_view(vars@) =~= before + seq![(upper@, value@), (lower@, value@)]);
}

/// Node.js environment variables for the Node.js component: none when its
/// `node` executable is missing.
pub fn build_nodejs_env_vars(
    node_installed: bool,
    npm_prefix: &str,
    npm_cache: &str,
    modules_dir: &str,
    registry: Option<&str>,
) -> (r: Vec<(String, String)>)
    ensures
        !node_installed ==> r@.len() == 0,
        node_installed ==> crate::proxy::pairs_view(r@) == nodejs_env_spec(
            npm_prefix@,
            npm_cache@,
            modules_dir@,
            crate::manifest::opt_str_view(registry),
        ),
{
    let mut vars: Vec<(String, String)> = Vec::new();
    if !node_installed {
        return vars;
    }
    assert(crate::proxy::pairs_view(vars@) =~= Seq::<(Seq<char>, Seq<char>)>::empty());
    push_both(&mut vars, "NODE_PATH", "node_path", modules_dir);
    push_both(&mut vars, "NPM_CONFIG_PREFIX", "npm_config_prefix", npm_prefix);
    push_both(&mut vars, "NPM_CONFIG_CACHE", "npm_config_cache", npm_cache);
    let global_npmrc = crate::paths::join(crate::paths::join(npm_prefix, "etc").as_str(), "npmrc");
    push_both(&mut vars, "NPM_CONFIG_GLOBALCONFIG", "npm_config_globalconfig", global_npmrc.as_str());
    push_both(
        &mut vars,
        "NPM_CONFIG_NPM_GLOBALCONFIG",
        "npm_config_npm_globalconfig",
        global_npmrc.as_str(),
    );
    let user_npmrc = crate::paths::join(npm_prefix, ".npmrc");
    push_both(&mut vars, "NPM_CONFIG_USERCONFIG", "npm_config_userconfig", user_npmrc.as_str());
    if let Some(r) = registry {
        push_both(&mut vars, "NPM_CONFIG_REGISTRY", "npm_config_registry", r);
    }
    assert(crate::proxy::pairs_view(vars@) =~= nodejs_env_spec(
        npm_prefix@,
        npm_cache@,
        modules_dir@,
        crate::manifest::opt_str_view(registry),
    ));
    vars
}

/// Where the Node.js archive of a release is downloaded from: a zip on
/// Windows, a tarball elsewhere.
pub fn node_download_url(mirror: &str, version: &str, os: &str, arch: &str) -> (r: String)
    ensures
        r@ == mirror@ + "/"@ + version@ + "/node-"@ + version@ + "-"@ + os@ + "-"@ + arch@ + (
        if os@ == "win"@ {
            ".zip"@
        } else {
            ".tar.gz"@
        }),
{
    let mut r = str_to_string(mirror);
    r.append("/");
    r.append(version);
    r.append("/node-");
    r.append(version);
    r.append("-");
    r.append(os);
    r.append("-");
    r.append(arch);
    if eq_vec(&chars_of(os), &chars_of("win")) {
        r.append(".zip");
    } else {
        r.append(".tar.gz");
    }
    r
}

/// A single quote inside a single-quoted shell word becomes `'\''`.
pub open spec fn shell_escape_spec(s: Seq<char>) -> Seq<char>
    decreases s.len(),
{
    if s.len() == 0 {
        Seq::empty()
    } else {
        shell_escape_spec(s.drop_last()) + if s.last() == '\u{27}' {
            seq!['\u{27}', '\\', '\u{27}', '\u{27}']
        } else {
            seq![s.last()]
        }
    }
}

pub fn shell_escape(s: &str) -> (r: String)
    ensures
        r@ == shell_escape_spec(s@),
{
    let cs = chars_of(s);
    let mut out: Vec<char> = Vec::new();
    let mut i: usize = 0;
    while i < cs.len()
        invariant
            cs@ == s@,
            i <= cs@.len(),
            out@ == shell_escape_spec(cs@.take(i as int)),
        decreases cs.len() - i,
    {
        assert(cs@.take(i as int + 1).drop_last() =~= cs@.take(i as int));
        let c = cs[i];
        if c == '\u{27}' {
            out.push('\u{27}');
            out.push('\\');
            out.push('\u{27}');
            out.push('\u{27}');
        } else {
            out.push(c);
        }
        assert(out@ =~= shell_escape_spec(cs@.take(i as int + 1)));
        i = i + 1;
    }
    assert(cs@.take(i as int) =~= cs@);
    string_from_chars(out.as_slice())
}

/// The paths with later duplicates (equal as paths) dropped.
pub open spec fn dedup_paths_spec(paths: Seq<Seq<char>>) -> Seq<Seq<char>>
    decreases paths.len(),
{
    if paths.len() == 0 {
        Seq::empty()
    } else {
        let r = dedup_paths_spec(paths.drop_last());
        if exists|i: int| 0 <= i < r.len() && path_components(r[i]) == path_components(paths.last()) {
            r
        } else {
            r.push(paths.last())
        }
    }
}

pub fn dedup_paths_keep_order(paths: &Vec<String>) -> (r: Vec<String>)
    ensures
        strs_view(r@) == dedup_paths_spec(strs_view(paths@)),
{
    let ghost pv = strs_view(paths@);
    let mut out: Vec<String> = Vec::new();
    let mut k: usize = 0;
    while k < paths.len()
        invariant
            pv == strs_view(paths@),
            k <= paths@.len(),
            strs_view(out@) == dedup_paths_spec(pv.take(k as int)),
        decreases paths.len() - k,
    {
        assert(pv.take(k as int + 1).drop_last() =~= pv.take(k as int));
        assert(pv[k as int] == paths@[k as int]@);
        let pc = components_of(&chars_of(paths[k].as_str()));
        let mut found = false;
        let mut j: usize = 0;
        while j < out.len()
            invariant
                j <= out@.len(),
                k < paths@.len(),
                vecs_view(pc@) == path_components(paths@[k as int]@),
                found == exists|q: int|
                    0 <= q < j && path_components(strs_view(out@)[q]) == path_components(
                        paths@[k as int]@,
                    ),
            decreases out.len() - j,
        {
            assert(strs_view(out@)[j as int] == out@[j as int]@);
            if eq_segs(&components_of(&chars_of(out[j].as_str())), &pc) {
                found = true;
            }
            j = j + 1;
        }
        if !found {
            let ghost before = strs_view(out@);
            out.push(paths[k].clone());
            assert(strs_view(out@) =~= before.push(pv[k as int]));
        }
        k = k + 1;
    }
    assert(pv.take(k as int) =~= pv);
    out
}

pub open spec fn export_lines(vars: Seq<(Seq<char>, Seq<char>)>) -> Seq<char>
    decreases vars.len(),
{
    if vars.len() == 0 {
        Seq::empty()
    } else {
        export_lines(vars.drop_last()) + "export "@ + vars.last().0 + "=\u{27}"@ + shell_escape_spec(
            vars.last().1,
        ) + "\u{27}\n"@
    }
}

pub open spec fn quoted_path_list(dirs: Seq<Seq<char>>) -> Seq<char>
    decreases dirs.len(),
{
    if dirs.len() == 0 {
        Seq::empty()
    } else if dirs.len() == 1 {
        "\u{27}"@ + shell_escape_spec(dirs[0]) + "\u{27}"@
    } else {
        quoted_path_list(dirs.drop_last()) + ":\u{27}"@ + shell_escape_spec(dirs.last()) + "\u{27}"@
    }
}

/// The `sh` shim: export the variables, put the directories in front of
/// `PATH`, then exec the real binary with the arguments.
pub open spec fn sh_shim_spec(
    vars: Seq<(Seq<char>, Seq<char>)>,
    dirs: Seq<Seq<char>>,
    real_bin: Seq<char>,
) -> Seq<char> {
    "#!/bin/sh\n"@ + export_lines(vars) + "export PATH="@ + quoted_path_list(dirs)
        + ":\u{22}$PATH\u{22}\n"@ + "exec \u{27}"@ + shell_escape_spec(real_bin)
        + "\u{27} \u{22}$@\u{22}\n"@
}

pub fn sh_shim_script(env_vars: &Vec<(String, String)>, path_dirs: &Vec<String>, real_bin: &str) -> (r:
    String)
    ensures
        r@ == sh_shim_spec(crate::proxy::pairs_view(env_vars@), strs_view(path_dirs@), real_bin@),
{
    let ghost ev = crate::proxy::pairs_view(env_vars@);
    let ghost dv = strs_view(path_dirs@);
    let mut script = str_to_string("#!/bin/sh\n");
    let ghost head = script@;
    let mut i: usize = 0;
    while i < env_vars.len()
        invariant
            ev == crate::proxy::pairs_view(env_vars@),
            i <= env_vars@.len(),
            script@ == head + export_lines(ev.take(i as int)),
        decreases env_vars.len() - i,
    {
        assert(ev.take(i as int + 1).drop_last() =~= ev.take(i as int));
        assert(ev[i as int] == (env_vars@[i as int].0@, env_vars@[i as int].1@));
        script.append("export ");
        script.append(env_vars[i].0.as_str());
        script.append("=\u{27}");
        script.append(shell_escape(env_vars[i].1.as_str()).as_str());
        script.append("\u{27}\n");
        i = i + 1;
    }
    assert(ev.take(i as int) =~= ev);
    script.append("export PATH=");
    let ghost mid = script@;
    let mut j: usize = 0;
    while j < path_dirs.len()
        invariant
            dv == strs_view(path_dirs@),
            j <= path_dirs@.len(),
            script@ == mid + quoted_path_list(dv.take(j as int)),
        decreases path_dirs.len() - j,
    {
        assert(dv.take(j as int + 1).drop_last() =~= dv.take(j as int));
        assert(dv[j as int] == path_dirs@[j as int]@);
        if j > 0 {
            script.append(":\u{27}");
        } else {
            script.append("\u{27}");
        }
        script.append(shell_escape(path_dirs[j].as_str()).as_str());
        script.append("\u{27}");
        proof {
            assert(dv.take(j as int + 1).last() == dv[j as int]);
            if j == 0 {
                assert(dv.take(1)[0] == dv[0]);
            }
        }
        j = j + 1;
    }
    assert(dv.take(j as int) =~= dv);
    script.append(":\u{22}$PATH\u{22}\n");
    script.append("exec \u{27}");
    script.append(shell_escape(real_bin).as_str());
    script.append("\u{27} \u{22}$@\u{22}\n");
    script
}

/// The directories joined with `;`.
pub open spec fn semicolon_list(dirs: Seq<Seq<char>>) -> Seq<char>
    decreases dirs.len(),
{
    if dirs.len() == 0 {
        Seq::empty()
    } else if dirs.len() == 1 {
        dirs[0]
    } else {
        semicolon_list(dirs.drop_last()) + ";"@ + dirs.last()
    }
}

fn semicolon_join(dirs: &Vec<String>) -> (r: String)
    ensures
        r@ == semicolon_list(strs_view(dirs@)),
{
    let ghost dv = strs_view(dirs@);
    let mut out = String::new();
    proof {
        reveal_strlit("");
    }
    let mut j: usize = 0;
    while j < dirs.len()
        invariant
            dv == strs_view(dirs@),
            j <= dirs@.len(),
            out@ == semicolon_list(dv.take(j as int)),
        decreases dirs.len() - j,
    {
        assert(dv.take(j as int + 1).drop_last() =~= dv.take(j as int));
        assert(dv[j as int] == dirs@[j as int]@);
        if j > 0 {
            out.append(";");
        }
        out.append(dirs[j].as_str());
        proof {
            if j == 0 {
                assert(dv.take(1)[0] == dv[0]);
                assert(out@ =~= semicolon_list(dv.take(1)));
            }
        }
        j = j + 1;
    }
    assert(dv.take(j as int) =~= dv);
    out
}

pub open spec fn cmd_set_lines(vars: Seq<(Seq<char>, Seq<char>)>) -> Seq<char>
    decreases vars.len(),
{
    if vars.len() == 0 {
        Seq::empty()
    } else {
        cmd_set_lines(vars.drop_last()) + "set \u{22}"@ + vars.last().0 + "="@ + vars.last().1
            + "\u{22}\r\n"@
    }
}

/// The `.cmd` shim: set the variables, put the directories in front of
/// `PATH`, then run the real binary with the arguments.
pub open spec fn cmd_shim_spec(
    vars: Seq<(Seq<char>, Seq<char>)>,
    dirs: Seq<Seq<char>>,
    real_bin: Seq<char>,
) -> Seq<char> {
    "@echo off\r\n"@ + cmd_set_lines(vars) + "set \u{22}PATH="@ + semicolon_list(dirs)
        + ";%PATH%\u{22}\r\n"@ + "\u{22}"@ + real_bin + "\u{22} %*\r\n"@
}

pub fn cmd_shim_script(env_vars: &Vec<(String, String)>, path_dirs: &Vec<String>, real_bin: &str) -> (r:
    String)
    ensures
        r@ == cmd_shim_spec(crate::proxy::pairs_view(env_vars@), strs_view(path_dirs@), real_bin@),
{
    let ghost ev = crate::proxy::pairs_view(env_vars@);
    let mut script = str_to_string("@echo off\r\n");
    let ghost head = script@;
    let mut i: usize = 0;
    while i < env_vars.len()
        invariant
            ev == crate::proxy::pairs_view(env_vars@),
            i <= env_vars@.len(),
            script@ == head + cmd_set_lines(ev.take(i as int)),
        decreases env_vars.len() - i,
    {
        assert(ev.take(i as int + 1).drop_last() =~= ev.take(i as int));
        assert(ev[i as int] == (env_vars@[i as int].0@, env_vars@[i as int].1@));
        script.append("set \u{22}");
        script.append(env_vars[i].0.as_str());
        script.append("=");
        script.append(env_vars[i].1.as_str());
        script.append("\u{22}\r\n");
        i = i + 1;
    }
    assert(ev.take(i as int) =~= ev);
    script.append("set \u{22}PATH=");
    script.append(semicolon_join(path_dirs).as_str());
    script.append(";%PATH%\u{22}\r\n");
    script.append("\u{22}");
    script.append(real_bin);
    script.append("\u{22} %*\r\n");
    script
}

/// A text inside a single-quoted PowerShell string: `'` doubled.
pub open spec fn ps_quote_spec(s: Seq<char>) -> Seq<char>
    decreases s.len(),
{
    if s.len() == 0 {
        Seq::empty()
    } else {
        ps_quote_spec(s.drop_last()) + if s.last() == '\u{27}' {
            seq!['\u{27}', '\u{27}']
        } else {
            seq![s.last()]
        }
    }
}

pub fn ps_quote(s: &str) -> (r: String)
    ensures
        r@ == ps_quote_spec(s@),
{
    let cs = chars_of(s);
    let mut out: Vec<char> = Vec::new();
    let mut i: usize = 0;
    while i < cs.len()
        invariant
            cs@ == s@,
            i <= cs@.len(),
            out@ == ps_quote_spec(cs@.take(i as int)),
        decreases cs.len() - i,
    {
        assert(cs@.take(i as int + 1).drop_last() =~= cs@.take(i as int));
        let c = cs[i];
        if c == '\u{27}' {
            out.push('\u{27}');
            out.push('\u{27}');
        } else {
            out.push(c);
        }
        assert(out@ =~= ps_quote_spec(cs@.take(i as int + 1)));
        i = i + 1;
    }
    assert(cs@.take(i as int) =~= cs@);
    string_from_chars(out.as_slice())
}

pub open spec fn ps_env_lines(vars: Seq<(Seq<char>, Seq<char>)>) -> Seq<char>
    decreases vars.len(),
{
    if vars.len() == 0 {
        Seq::empty()
    } else {
        ps_env_lines(vars.drop_last()) + "$env:"@ + vars.last().0 + " = \u{27}"@ + ps_quote_spec(
            vars.last().1,
        ) + "\u{27}\r\n"@
    }
}

/// The `.ps1` shim: set the variables, put the directories (and a trailing
/// `;`) in front of `PATH`, then call the real binary with the arguments.
pub open spec fn ps1_shim_spec(
    vars: Seq<(Seq<char>, Seq<char>)>,
    dirs: Seq<Seq<char>>,
    real_bin: Seq<char>,
) -> Seq<char> {
    ps_env_lines(vars) + "$env:PATH = \u{27}"@ + semicolon_list(dirs) + ";\u{27} + $env:PATH\r\n"@
        + "& \u{27}"@ + ps_quote_spec(real_bin) + "\u{27} @args\r\n"@
}

pub fn ps1_shim_script(env_vars: &Vec<(String, String)>, path_dirs: &Vec<String>, real_bin: &str) -> (r:
    String)
    ensures
        r@ == ps1_shim_spec(crate::proxy::pairs_view(env_vars@), strs_view(path_dirs@), real_bin@),
{
    let ghost ev = crate::proxy::pairs_view(env_vars@);
    let mut script = String::new();
    proof {
        reveal_strlit("");
    }
    let mut i: usize = 0;
    while i < env_vars.len()
        invariant
            ev == crate::proxy::pairs_view(env_vars@),
            i <= env_vars@.len(),
            script@ == ps_env_lines(ev.take(i as int)),
        decreases env_vars.len() - i,
    {
        assert(ev.take(i as int + 1).drop_last() =~= ev.take(i as int));
        assert(ev[i as int] == (env_vars@[i as int].0@, env_vars@[i as int].1@));
        script.append("$env:");
        script.append(env_vars[i].0.as_str());
        script.append(" = \u{27}");
        script.append(ps_quote(env_vars[i].1.as_str()).as_str());
        script.append("\u{27}\r\n");
        i = i + 1;
    }
    assert(ev.take(i as int) =~= ev);
    script.append("$env:PATH = \u{27}");
    script.append(semicolon_join(path_dirs).as_str());
    script.append(";\u{27} + $env:PATH\r\n");
    script.append("& \u{27}");
    script.append(ps_quote(real_bin).as_str());
    script.append("\u{27} @args\r\n");
    script
}

/// The `PATH` of an instance: the venv's bin directory, then uv's directory
/// and the Node.js shim directory when those components are installed, then
/// (unless external paths are ignored) the system entries not already there.
pub open spec fn instance_path_spec(
    venv_bin: Seq<char>,
    uv_dir: Seq<char>,
    uv_installed: bool,
    shim_dir: Seq<char>,
    node_installed: bool,
    ignore_external_path: bool,
    system: Seq<Seq<char>>,
) -> Seq<Seq<char>> {
    let a = seq![venv_bin];
    let b = if uv_installed {
        a.push(uv_dir)
    } else {
        a
    };
    let c = if node_installed {
        b.push(shim_dir)
    } else {
        b
    };
    if ignore_external_path {
        c
    } else {
        c + not_in_paths(system, c)
    }
}

/// The entries of `s` that are not equal as paths to any of `base`.
pub open spec fn not_in_paths(s: Seq<Seq<char>>, base: Seq<Seq<char>>) -> Seq<Seq<char>>
    decreases s.len(),
{
    if s.len() == 0 {
        Seq::empty()
    } else {
        let r = not_in_paths(s.drop_last(), base);
        if exists|i: int| 0 <= i < base.len() && path_components(base[i]) == path_components(s.last()) {
            r
        } else {
            r.push(s.last())
        }
    }
}

fn path_in(list: &Vec<String>, p: &str) -> (b: bool)
    ensures
        b == exists|i: int|
            0 <= i < list@.len() && path_components(strs_view(list@)[i]) == path_components(p@),
{
    let pc = components_of(&chars_of(p));
    let mut j: usize = 0;
    while j < list.len()
        invariant
            j <= list@.len(),
            vecs_view(pc@) == path_components(p@),
            forall|q: int| 0 <= q < j ==> path_components(strs_view(list@)[q]) != path_components(p@),
        decreases list.len() - j,
    {
        assert(strs_view(list@)[j as int] == list@[j as int]@);
        if eq_segs(&components_of(&chars_of(list[j].as_str())), &pc) {
            return true;
        }
        j = j + 1;
    }
    false
}

pub fn build_instance_path_entries(
    venv_bin: &str,
    uv_dir: &str,
    uv_installed: bool,
    shim_dir: &str,
    node_installed: bool,
    ignore_external_path: bool,
    system_paths: &Vec<String>,
) -> (r: Vec<String>)
    ensures
        strs_view(r@) == instance_path_spec(
            venv_bin@,
            uv_dir@,
            uv_installed,
            shim_dir@,
            node_installed,
            ignore_external_path,
            strs_view(system_paths@),
        ),
{
    let mut paths: Vec<String> = Vec::new();
    paths.push(str_to_string(venv_bin));
    if uv_installed {
        paths.push(str_to_string(uv_dir));
    }
    if node_installed {
        paths.push(str_to_string(shim_dir));
    }
    let ghost base = strs_view(paths@);
    assert(base =~= {
        let a = seq![venv_bin@];
        let b = if uv_installed {
            a.push(uv_dir@)
        } else {
            a
        };
        if node_installed {
            b.push(shim_dir@)
        } else {
            b
        }
    });
    if ignore_external_path {
        return paths;
    }
    let ghost sv = strs_view(system_paths@);
    let mut extra: Vec<String> = Vec::new();
    let mut k: usize = 0;
    while k < system_paths.len()
        invariant
            sv == strs_view(system_paths@),
            base == strs_view(paths@),
            k <= system_paths@.len(),
            strs_view(extra@) == not_in_paths(sv.take(k as int), base),
        decreases system_paths.len() - k,
    {
        assert(sv.take(k as int + 1).drop_last() =~= sv.take(k as int));
        assert(sv[k as int] == system_paths@[k as int]@);
        if !path_in(&paths, system_paths[k].as_str()) {
            let ghost before = strs_view(extra@);
            extra.push(system_paths[k].clone());
            assert(strs_view(extra@) =~= before.push(sv[k as int]));
        }
        k = k + 1;
    }
    assert(sv.take(k as int) =~= sv);
    let ghost ex = strs_view(extra@);
    let mut m: usize = 0;
    while m < extra.len()
        invariant
            m <= extra@.len(),
            ex == strs_view(extra@),
            strs_view(paths@) == base + ex.take(m as int),
        decreases extra.len() - m,
    {
        let ghost before = strs_view(paths@);
        assert(ex[m as int] == extra@[m as int]@);
        paths.push(extra[m].clone());
        assert(strs_view(paths@) =~= before.push(ex[m as int]));
        assert(ex.take(m as int + 1) =~= ex.take(m as int).push(ex[m as int]));
        assert(strs_view(paths@) =~= base + ex.take(m as int + 1));
        m = m + 1;
    }
    assert(ex.take(m as int) =~= ex);
    paths
}

} // verus!
