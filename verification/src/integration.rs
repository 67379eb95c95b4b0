//! Merging mod paks into one: which file of which pak is written, which later
//! copies of a path differ from the copy before them, where the integrator's
//! own asset comes from, and the soft-class paths of the mods' `InitSpaceRig`
//! and `InitCave` blueprints.
//!
//! Paths are the pak's mount point joined with the file's name, with `/`
//! between components, as in `../../../FSD/Content/_Mod/InitCave.uasset`.

use vstd::prelude::*;

verus! {

/// A file of a mod pak: its path, and a digest of its bytes.
#[derive(Debug)]
pub struct PakFile {
    pub path: String,
    pub digest: Vec<u8>,
}

/// A file of the input: its pak, and its place in that pak.
#[derive(Clone, Copy, Debug, PartialEq, Eq, Structural)]
pub struct FileRef {
    pub pak: usize,
    pub file: usize,
}

/// A later copy of a written path whose bytes differ from the copy before it:
/// the copy, and the pak of the copy before it.
#[derive(Clone, Copy, Debug, PartialEq, Eq, Structural)]
pub struct Overwrite {
    pub at: FileRef,
    pub previous_owner: usize,
}

/// Why a merge stops.
#[derive(Debug)]
pub enum IntegrationError {
    /// A path has no file name.
    NoAssetName(String),
    /// A path lies outside the mount point `../../../`.
    NotUnderMount(String),
    /// A mod's `InitSpaceRig` or `InitCave` asset does not lie under
    /// `../../../FSD/Content/` with a name ending in `uasset`; the merge has no
    /// soft-class path for it.
    NotSoftClassSource(String),
}

/// The merge: the files written, in order, the differing later copies, the
/// soft-class paths found (each once), and where the integrator's asset and
/// its export data come from (the last copy of each).
#[derive(Debug)]
pub struct IntegrationPlan {
    pub writes: Vec<FileRef>,
    pub overwrites: Vec<Overwrite>,
    pub spacerig: Vec<String>,
    pub cave: Vec<String>,
    pub integrator_asset: Option<FileRef>,
    pub integrator_exp: Option<FileRef>,
}

/// The merge as a value: as [`IntegrationPlan`], and the last recorded pak and
/// digest of each written path.
pub struct PlanModel {
    pub writes: Seq<FileRef>,
    pub overwrites: Seq<Overwrite>,
    pub spacerig: Seq<Seq<char>>,
    pub cave: Seq<Seq<char>>,
    pub integrator_asset: Option<FileRef>,
    pub integrator_exp: Option<FileRef>,
    pub owners: Seq<(Seq<char>, usize, Seq<u8>)>,
}

/// The lower case of a text (`str::to_lowercase`).
pub uninterp spec fn lowercase(s: Seq<char>) -> Seq<char>;

/// `str::to_lowercase`. Claimed: the result is a function of the text alone.
#[verifier::external_body]
fn to_lowercase(s: &str) -> (r: String)
    ensures
        r@ == lowercase(s@),
{
    s.to_lowercase()
}

/// The last position of `c` in `s`; `-1` when it does not occur.
pub open spec fn last_index_of(s: Seq<char>, c: char) -> int
    decreases s.len(),
{
    if s.len() == 0 {
        -1
    } else if s.last() == c {
        s.len() - 1
    } else {
        last_index_of(s.drop_last(), c)
    }
}

/// The file name of a path: what follows its last `/`.
pub open spec fn file_name(p: Seq<char>) -> Seq<char> {
    p.skip(last_index_of(p, '/') + 1)
}

/// A file name that names no file: empty, `.` or `..`.
pub open spec fn no_file_name(n: Seq<char>) -> bool {
    n.len() == 0 || n == seq!['.'] || n == seq!['.', '.']
}

/// The stem of a file name: the part before its last `.`, unless that `.`
/// starts the name or there is none.
pub open spec fn stem(n: Seq<char>) -> Seq<char> {
    let k = last_index_of(n, '.');
    if k <= 0 {
        n
    } else {
        n.take(k)
    }
}

/// The prefix of the paths of the game's content.
pub open spec fn content_prefix() -> Seq<char> {
    "../../../FSD/Content/"@
}

/// A path under the game's content whose name ends in `uasset`.
pub open spec fn under_content(p: Seq<char>) -> bool {
    &&& p.len() >= content_prefix().len() + "uasset"@.len()
    &&& p.take(content_prefix().len() as int) == content_prefix()
    &&& p.skip(p.len() - "uasset"@.len()) == "uasset"@
}

/// The soft-class path of a blueprint asset: `/Game/`, its path below the
/// content directory without the `uasset` ending, its stem, and `_C`.
pub open spec fn soft_class(p: Seq<char>) -> Seq<char> {
    "/Game/"@ + p.subrange(content_prefix().len() as int, p.len() - "uasset"@.len()) + stem(
        file_name(p),
    ) + "_C"@
}

/// The mount point that every merged path lies under.
pub open spec fn mount_prefix() -> Seq<char> {
    "../../../"@
}

/// A path under the mount point.
pub open spec fn under_mount(p: Seq<char>) -> bool {
    p.len() >= mount_prefix().len() && p.take(mount_prefix().len() as int) == mount_prefix()
}

/// The integrator's asset.
pub open spec fn integrator_asset_path() -> Seq<char> {
    "../../../FSD/Content/_AssemblyStorm/ModIntegration/MI_SpawnMods.uasset"@
}

/// The integrator's export data.
pub open spec fn integrator_exp_path() -> Seq<char> {
    "../../../FSD/Content/_AssemblyStorm/ModIntegration/MI_SpawnMods.uexp"@
}

/// The place of the owner record of path `p`, when there is one.
pub open spec fn owner_of(owners: Seq<(Seq<char>, usize, Seq<u8>)>, p: Seq<char>) -> Option<int>
    decreases owners.len(),
{
    if owners.len() == 0 {
        None
    } else if owners.last().0 == p {
        Some(owners.len() - 1)
    } else {
        owner_of(owners.drop_last(), p)
    }
}

/// `s` with `x` added at its end, unless `s` holds it.
pub open spec fn add_once(s: Seq<Seq<char>>, x: Seq<char>) -> Seq<Seq<char>> {
    if s.contains(x) {
        s
    } else {
        s.push(x)
    }
}

/// The merge with nothing in it.
pub open spec fn empty_plan() -> PlanModel {
    PlanModel {
        writes: Seq::empty(),
        overwrites: Seq::empty(),
        spacerig: Seq::empty(),
        cave: Seq::empty(),
        integrator_asset: None,
        integrator_exp: None,
        owners: Seq::empty(),
    }
}

/// The merge after the soft-class check of file `p`: a mod's `InitSpaceRig`
/// or `InitCave` asset adds its soft-class path once.
pub open spec fn with_soft_class(st: PlanModel, p: Seq<char>) -> Option<PlanModel> {
    let lower = lowercase(file_name(p));
    if lower == "initspacerig.uasset"@ || lower == "initcave.uasset"@ {
        if !under_content(p) {
            None
        } else if lower == "initspacerig.uasset"@ {
            Some(PlanModel { spacerig: add_once(st.spacerig, soft_class(p)), ..st })
        } else {
            Some(PlanModel { cave: add_once(st.cave, soft_class(p)), ..st })
        }
    } else {
        Some(st)
    }
}

/// The merge after placing file `at` with path `p` and digest `d`: the
/// integrator's files are taken aside; any other path is written the first
/// time it comes, and a later copy whose digest differs from the copy
/// recorded before it is reported; the path's record becomes this copy.
pub open spec fn with_placed(st: PlanModel, at: FileRef, p: Seq<char>, d: Seq<u8>) -> Option<
    PlanModel,
> {
    if p == integrator_asset_path() {
        Some(PlanModel { integrator_asset: Some(at), ..st })
    } else if p == integrator_exp_path() {
        Some(PlanModel { integrator_exp: Some(at), ..st })
    } else if !under_mount(p) {
        None
    } else {
        let out = p.skip(mount_prefix().len() as int);
        match owner_of(st.owners, out) {
            Some(i) => Some(
                PlanModel {
                    overwrites: if st.owners[i].2 != d {
                        st.overwrites.push(Overwrite { at, previous_owner: st.owners[i].1 })
                    } else {
                        st.overwrites
                    },
                    owners: st.owners.update(i, (out, at.pak, d)),
                    ..st
                },
            ),
            None => Some(
                PlanModel {
                    writes: st.writes.push(at),
                    owners: st.owners.push((out, at.pak, d)),
                    ..st
                },
            ),
        }
    }
}

/// The kind of an error of a merge (0: no file name, 1: outside the mount
/// point, 2: no soft-class path), and the path it names.
pub open spec fn error_of(e: IntegrationError) -> (int, Seq<char>) {
    match e {
        IntegrationError::NoAssetName(p) => (0, p@),
        IntegrationError::NotUnderMount(p) => (1, p@),
        IntegrationError::NotSoftClassSource(p) => (2, p@),
    }
}

/// The merge after file `at` with path `p` and digest `d`, or the error that
/// stops it: a path without file name stops it; `AssetRegistry.bin` is passed
/// over; otherwise the soft-class check, then the placing.
pub open spec fn step(st: PlanModel, at: FileRef, p: Seq<char>, d: Seq<u8>) -> Result<
    PlanModel,
    (int, Seq<char>),
> {
    let n = file_name(p);
    if no_file_name(n) {
        Err((0, p))
    } else if n == "AssetRegistry.bin"@ {
        Ok(st)
    } else {
        match with_soft_class(st, p) {
            None => Err((2, p)),
            Some(st1) => match with_placed(st1, at, p, d) {
                Some(st2) => Ok(st2),
                None => Err((1, p)),
            },
        }
    }
}

/// The merge after the first `n` files of pak `k`, from `st`.
pub open spec fn plan_files(st: PlanModel, k: usize, files: Seq<PakFile>, n: nat) -> Result<
    PlanModel,
    (int, Seq<char>),
>
    decreases n,
{
    if n == 0 {
        Ok(st)
    } else {
        match plan_files(st, k, files, (n - 1) as nat) {
            Ok(s) => step(s, FileRef { pak: k, file: (n - 1) as usize }, files[n - 1].path@, files[n - 1].digest@),
            Err(e) => Err(e),
        }
    }
}

/// The merge of the first `n` paks, one after the other, file by file.
pub open spec fn plan_paks(paks: Seq<Vec<PakFile>>, n: nat) -> Result<PlanModel, (int, Seq<char>)>
    decreases n,
{
    if n == 0 {
        Ok(empty_plan())
    } else {
        match plan_paks(paks, (n - 1) as nat) {
            Ok(s) => plan_files(s, (n - 1) as usize, paks[n - 1]@, paks[n - 1]@.len()),
            Err(e) => Err(e),
        }
    }
}

/// The merge of all the paks.
pub open spec fn plan_of(paks: Seq<Vec<PakFile>>) -> Result<PlanModel, (int, Seq<char>)> {
    plan_paks(paks, paks.len())
}

/// The last position of `c` in `s`, when it occurs.
fn last_index(s: &str, c: char) -> (r: Option<usize>)
    ensures
        match r {
            Some(k) => k == last_index_of(s@, c) && k < s@.len(),
            None => last_index_of(s@, c) == -1,
        },
{
    let n = s.unicode_len();
    let mut i = n;
    assert(s@.take(n as int) =~= s@);
    while i > 0
        invariant
            i <= n,
            n == s@.len(),
            last_index_of(s@, c) == last_index_of(s@.take(i as int), c),
        decreases i,
    {
        if s.get_char(i - 1) == c {
            return Some(i - 1);
        }
        assert(s@.take(i as int).drop_last() =~= s@.take(i - 1));
        i = i - 1;
    }
    None
}

/// The part of `s` from character `from` on, as a string.
fn tail_of(s: &str, from: usize) -> (r: String)
    requires
        from <= s@.len(),
    ensures
        r@ == s@.skip(from as int),
{
    let n = s.unicode_len();
    let t = s.substring_char(from, n);
    assert(s@.subrange(from as int, n as int) =~= s@.skip(from as int));
    t.to_owned()
}

/// The file name of a path: what follows its last `/`.
fn file_name_of(p: &str) -> (r: String)
    ensures
        r@ == file_name(p@),
{
    let _n = p.unicode_len();
    match last_index(p, '/') {
        Some(k) => tail_of(p, k + 1),
        None => {
            assert(p@.skip(0) =~= p@);
            tail_of(p, 0)
        },
    }
}

/// Whether `p` starts with `prefix`.
fn starts_with(p: &str, prefix: &str) -> (r: bool)
    ensures
        r == (p@.len() >= prefix@.len() && p@.take(prefix@.len() as int) == prefix@),
{
    let n = p.unicode_len();
    let m = prefix.unicode_len();
    if n < m {
        return false;
    }
    let head = p.substring_char(0, m).to_owned();
    assert(p@.subrange(0, m as int) =~= p@.take(m as int));
    head == prefix.to_owned()
}

/// Whether `p` ends with `suffix`.
fn ends_with(p: &str, suffix: &str) -> (r: bool)
    ensures
        r == (p@.len() >= suffix@.len() && p@.skip(p@.len() - suffix@.len()) == suffix@),
{
    let n = p.unicode_len();
    let m = suffix.unicode_len();
    if n < m {
        return false;
    }
    let tail = tail_of(p, n - m);
    tail == suffix.to_owned()
}

/// The stem of a file name: the part before its last `.`, unless that `.`
/// starts the name or there is none.
fn stem_of(n: &str) -> (r: String)
    ensures
        r@ == stem(n@),
{
    match last_index(n, '.') {
        Some(k) => {
            if k == 0 {
                n.to_owned()
            } else {
                let t = n.substring_char(0, k);
                assert(n@.subrange(0, k as int) =~= n@.take(k as int));
                t.to_owned()
            }
        },
        None => n.to_owned(),
    }
}

/// The soft-class path of a blueprint asset at `path`: `/Game/`, the path
/// below `../../../FSD/Content/` without its `uasset` ending, the file's stem
/// and `_C`; `None` when the path is not under the content directory with a
/// name ending in `uasset`.
pub fn soft_class_path(path: &str) -> (r: Option<String>)
    ensures
        r matches Some(s) ==> s@ == soft_class(path@),
        r is None <==> !under_content(path@),
{
    let prefix = "../../../FSD/Content/";
    let ending = "uasset";
    let n = path.unicode_len();
    let cp = prefix.unicode_len();
    let ue = ending.unicode_len();
    if n < cp || n - cp < ue || !starts_with(path, prefix) || !ends_with(path, ending) {
        return None;
    }
    let mut r = String::from_str("/Game/");
    r.append(path.substring_char(cp, n - ue));
    let name = file_name_of(path);
    let st = stem_of(name.as_str());
    r.append(st.as_str());
    r.append("_C");
    Some(r)
}

/// Whether two byte strings are equal.
fn bytes_equal(a: &[u8], b: &[u8]) -> (r: bool)
    ensures
        r == (a@ == b@),
{
    if a.len() != b.len() {
        return false;
    }
    let mut i: usize = 0;
    while i < a.len()
        invariant
            i <= a@.len(),
            a@.len() == b@.len(),
            a@.take(i as int) == b@.take(i as int),
        decreases a@.len() - i,
    {
        if a[i] != b[i] {
            assert(a@[i as int] != b@[i as int]);
            return false;
        }
        assert(a@.take(i + 1) =~= a@.take(i as int).push(a@[i as int]));
        assert(b@.take(i + 1) =~= b@.take(i as int).push(b@[i as int]));
        i = i + 1;
    }
    assert(a@.take(i as int) =~= a@);
    assert(b@.take(i as int) =~= b@);
    true
}

/// A copy of a byte string.
fn copy_bytes(a: &[u8]) -> (r: Vec<u8>)
    ensures
        r@ == a@,
{
    let mut r: Vec<u8> = Vec::new();
    let mut i: usize = 0;
    while i < a.len()
        invariant
            i <= a@.len(),
            r@ == a@.take(i as int),
        decreases a@.len() - i,
    {
        r.push(a[i]);
        i = i + 1;
        assert(r@ =~= a@.take(i as int));
    }
    assert(a@.take(i as int) =~= a@);
    r
}

/// The texts of a list of strings.
pub open spec fn texts(v: Seq<String>) -> Seq<Seq<char>> {
    v.map_values(|s: String| s@)
}

/// The owner records as values.
pub open spec fn owner_records(v: Seq<(String, usize, Vec<u8>)>) -> Seq<(Seq<char>, usize, Seq<u8>)> {
    v.map_values(|t: (String, usize, Vec<u8>)| (t.0@, t.1, t.2@))
}

/// Adds `x` to `v` unless `v` holds it.
fn add_once_exec(v: &mut Vec<String>, x: String)
    ensures
        texts(final(v)@) == add_once(texts(old(v)@), x@),
{
    let mut i: usize = 0;
    while i < v.len()
        invariant
            i <= v@.len(),
            v@ == old(v)@,
            forall|j: int| 0 <= j < i ==> v@[j]@ != x@,
        decreases v@.len() - i,
    {
        if v[i] == x {
            assert(texts(v@)[i as int] == x@);
            return;
        }
        i = i + 1;
    }
    assert(!texts(v@).contains(x@)) by {
        if texts(v@).contains(x@) {
            let j = choose|j: int| 0 <= j < texts(v@).len() && texts(v@)[j] == x@;
            assert(v@[j]@ == x@);
        }
    }
    v.push(x);
    assert(texts(v@) =~= texts(old(v)@).push(x@));
}

/// The place of the owner record of `p`, searched from the last record.
fn find_owner(owners: &Vec<(String, usize, Vec<u8>)>, p: &String) -> (r: Option<usize>)
    ensures
        match r {
            Some(i) => owner_of(owner_records(owners@), p@) == Some(i as int) && i < owners@.len(),
            None => owner_of(owner_records(owners@), p@) is None,
        },
{
    let mut i = owners.len();
    assert(owner_records(owners@).take(i as int) =~= owner_records(owners@));
    while i > 0
        invariant
            i <= owners@.len(),
            owner_of(owner_records(owners@), p@) == owner_of(owner_records(owners@).take(i as int), p@),
        decreases i,
    {
        let recs = Ghost(owner_records(owners@).take(i as int));
        assert(recs@.last() == owner_records(owners@)[i - 1]);
        if owners[i - 1].0 == *p {
            return Some(i - 1);
        }
        assert(recs@.drop_last() =~= owner_records(owners@).take(i - 1));
        i = i - 1;
    }
    None
}

/// The merge so far.
struct PlanState {
    writes: Vec<FileRef>,
    overwrites: Vec<Overwrite>,
    spacerig: Vec<String>,
    cave: Vec<String>,
    integrator_asset: Option<FileRef>,
    integrator_exp: Option<FileRef>,
    owners: Vec<(String, usize, Vec<u8>)>,
}

impl PlanState {
    spec fn model(&self) -> PlanModel {
        PlanModel {
            writes: self.writes@,
            overwrites: self.overwrites@,
            spacerig: texts(self.spacerig@),
            cave: texts(self.cave@),
            integrator_asset: self.integrator_asset,
            integrator_exp: self.integrator_exp,
            owners: owner_records(self.owners@),
        }
    }
}

/// Takes file `at` into the merge.
fn step_exec(st: &mut PlanState, at: FileRef, f: &PakFile) -> (r: Result<(), IntegrationError>)
    ensures
        match step(old(st).model(), at, f.path@, f.digest@) {
            Ok(m) => r is Ok && final(st).model() == m,
            Err(e) => r matches Err(x) && error_of(x) == e,
        },
{
    let p = f.path.as_str();
    let name = file_name_of(p);
    let nl = name.unicode_len();
    if nl == 0 || name == String::from_str(".") || name == String::from_str("..") {
        proof {
            reveal_strlit(".");
            reveal_strlit("..");
            assert("."@ =~= seq!['.']);
            assert(".."@ =~= seq!['.', '.']);
        }
        return Err(IntegrationError::NoAssetName(f.path.clone()));
    }
    proof {
        reveal_strlit(".");
        reveal_strlit("..");
        assert("."@ =~= seq!['.']);
        assert(".."@ =~= seq!['.', '.']);
        assert(!no_file_name(file_name(f.path@)));
    }
    if name == String::from_str("AssetRegistry.bin") {
        return Ok(());
    }
    let lower = to_lowercase(name.as_str());
    let is_rig = lower == String::from_str("initspacerig.uasset");
    let is_cave = lower == String::from_str("initcave.uasset");
    if is_rig || is_cave {
        match soft_class_path(p) {
            None => {
                return Err(IntegrationError::NotSoftClassSource(f.path.clone()));
            },
            Some(c) => {
                if is_rig {
                    add_once_exec(&mut st.spacerig, c);
                } else {
                    add_once_exec(&mut st.cave, c);
                }
            },
        }
    }
    let ghost st1 = st.model();
    assert(with_soft_class(old(st).model(), f.path@) == Some(st1));
    if f.path == String::from_str("../../../FSD/Content/_AssemblyStorm/ModIntegration/MI_SpawnMods.uasset") {
        st.integrator_asset = Some(at);
        return Ok(());
    }
    if f.path == String::from_str("../../../FSD/Content/_AssemblyStorm/ModIntegration/MI_SpawnMods.uexp") {
        st.integrator_exp = Some(at);
        return Ok(());
    }
    let mount = "../../../";
    if !starts_with(p, mount) {
        return Err(IntegrationError::NotUnderMount(f.path.clone()));
    }
    let out = tail_of(p, mount.unicode_len());
    assert(under_mount(f.path@));
    assert(out@ == f.path@.skip(mount_prefix().len() as int));
    match find_owner(&st.owners, &out) {
        Some(i) => {
            let ghost rec = owner_records(st.owners@)[i as int];
            assert(rec == (st.owners@[i as int].0@, st.owners@[i as int].1, st.owners@[i as int].2@));
            assert(owner_of(st1.owners, out@) == Some(i as int));
            let ghost ow0 = st.overwrites@;
            let differs = !bytes_equal(st.owners[i].2.as_slice(), f.digest.as_slice());
            if differs {
                st.overwrites.push(Overwrite { at, previous_owner: st.owners[i].1 });
            }
            assert(st.overwrites@ == (if rec.2 != f.digest@ {
                ow0.push(Overwrite { at, previous_owner: rec.1 })
            } else {
                ow0
            }));
            let ghost before = st.owners@;
            st.owners.set(i, (out, at.pak, copy_bytes(f.digest.as_slice())));
            assert(owner_records(st.owners@) =~= owner_records(before).update(
                i as int,
                (out@, at.pak, f.digest@),
            ));
            assert(with_placed(st1, at, f.path@, f.digest@) == Some(st.model()));
        },
        None => {
            st.writes.push(at);
            let ghost before = st.owners@;
            st.owners.push((out, at.pak, copy_bytes(f.digest.as_slice())));
            assert(owner_records(st.owners@) =~= owner_records(before).push((out@, at.pak, f.digest@)));
            assert(with_placed(st1, at, f.path@, f.digest@) == Some(st.model()));
        },
    }
    Ok(())
}

/// The merge of the paks, in order, file by file: the files written (each
/// path once, from the first pak that holds it), the later copies whose digest
/// differs from the copy recorded before them, the soft-class paths of the
/// mods' `InitSpaceRig` and `InitCave` assets, and the integrator's files; or
/// the error that stops it, with the path it names.
pub fn plan_integration(paks: &Vec<Vec<PakFile>>) -> (r: Result<IntegrationPlan, IntegrationError>)
    ensures
        match plan_of(paks@) {
            Ok(m) => r matches Ok(plan) && plan.writes@ == m.writes && plan.overwrites@ == m.overwrites
                && texts(plan.spacerig@) == m.spacerig && texts(plan.cave@) == m.cave
                && plan.integrator_asset == m.integrator_asset && plan.integrator_exp == m.integrator_exp,
            Err(e) => r matches Err(x) && error_of(x) == e,
        },
{
    let mut st = PlanState {
        writes: Vec::new(),
        overwrites: Vec::new(),
        spacerig: Vec::new(),
        cave: Vec::new(),
        integrator_asset: None,
        integrator_exp: None,
        owners: Vec::new(),
    };
    assert(st.model() == empty_plan()) by {
        assert(texts(st.spacerig@) =~= Seq::<Seq<char>>::empty());
        assert(texts(st.cave@) =~= Seq::<Seq<char>>::empty());
        assert(owner_records(st.owners@) =~= Seq::<(Seq<char>, usize, Seq<u8>)>::empty());
    }
    let mut i: usize = 0;
    while i < paks.len()
        invariant
            i <= paks@.len(),
            plan_paks(paks@, i as nat) == Ok::<PlanModel, (int, Seq<char>)>(st.model()),
        decreases paks@.len() - i,
    {
        let files = &paks[i];
        let ghost start = st.model();
        let mut j: usize = 0;
        while j < files.len()
            invariant
                i < paks@.len(),
                files == &paks@[i as int],
                j <= files@.len(),
                plan_paks(paks@, i as nat) == Ok::<PlanModel, (int, Seq<char>)>(start),
                plan_files(start, i, files@, j as nat) == Ok::<PlanModel, (int, Seq<char>)>(st.model()),
            decreases files@.len() - j,
        {
            match step_exec(&mut st, FileRef { pak: i, file: j }, &files[j]) {
                Ok(()) => {},
                Err(e) => {
                    proof {
                        assert(plan_files(start, i, files@, (j + 1) as nat) is Err);
                        lemma_files_err(start, i, files@, (j + 1) as nat, files@.len());
                        lemma_paks_err(paks@, (i + 1) as nat, paks@.len());
                    }
                    return Err(e);
                },
            }
            j = j + 1;
        }
        i = i + 1;
    }
    assert(plan_of(paks@) == plan_paks(paks@, i as nat));
    Ok(IntegrationPlan {
        writes: st.writes,
        overwrites: st.overwrites,
        spacerig: st.spacerig,
        cave: st.cave,
        integrator_asset: st.integrator_asset,
        integrator_exp: st.integrator_exp,
    })
}

/// An error after `n` files stays the error after `m >= n` files.
proof fn lemma_files_err(st: PlanModel, k: usize, files: Seq<PakFile>, n: nat, m: nat)
    requires
        n <= m,
        plan_files(st, k, files, n) is Err,
    ensures
        plan_files(st, k, files, m) == plan_files(st, k, files, n),
    decreases m - n,
{
    if m > n {
        lemma_files_err(st, k, files, n, (m - 1) as nat);
    }
}

/// An error after `n` paks stays the error after `m >= n` paks.
proof fn lemma_paks_err(paks: Seq<Vec<PakFile>>, n: nat, m: nat)
    requires
        n <= m,
        plan_paks(paks, n) is Err,
    ensures
        plan_paks(paks, m) == plan_paks(paks, n),
    decreases m - n,
{
    if m > n {
        lemma_paks_err(paks, n, (m - 1) as nat);
    }
}


/// The last `c` of a text that ends in `c` and a tail without `c` is that one.
proof fn lemma_last_index_after(q: Seq<char>, c: char, tail: Seq<char>)
    requires
        forall|i: int| 0 <= i < tail.len() ==> tail[i] != c,
    ensures
        last_index_of(q + seq![c] + tail, c) == q.len(),
    decreases tail.len(),
{
    let p = q + seq![c] + tail;
    if tail.len() == 0 {
        assert(p.last() == c);
        assert(p.drop_last() =~= q);
    } else {
        assert(p.last() == tail.last());
        assert(p.drop_last() =~= q + seq![c] + tail.drop_last());
        lemma_last_index_after(q, c, tail.drop_last());
    }
}

/// A mod's asset registry is left out of the merge wherever it lies: a file
/// named `AssetRegistry.bin`, alone or after any directory, changes nothing,
/// whatever the merge so far, the file's place and its bytes.
pub proof fn lemma_asset_registry_skipped(st: PlanModel, at: FileRef, dir: Seq<char>, d: Seq<u8>)
    ensures
        step(st, at, dir + "/AssetRegistry.bin"@, d) == Ok::<PlanModel, (int, Seq<char>)>(st),
        step(st, at, "AssetRegistry.bin"@, d) == Ok::<PlanModel, (int, Seq<char>)>(st),
{
    reveal_strlit("AssetRegistry.bin");
    reveal_strlit("/AssetRegistry.bin");
    let name = "AssetRegistry.bin"@;
    assert(dir + "/AssetRegistry.bin"@ =~= dir + seq!['/'] + name);
    lemma_last_index_after(dir, '/', name);
    assert((dir + seq!['/'] + name).skip(dir.len() + 1int) =~= name);
    lemma_last_slash_none(name);
    assert(name.skip(0) =~= name);
}

/// A name without `/` has no last `/`.
proof fn lemma_last_slash_none(name: Seq<char>)
    requires
        forall|i: int| 0 <= i < name.len() ==> name[i] != '/',
    ensures
        last_index_of(name, '/') == -1,
    decreases name.len(),
{
    if name.len() > 0 {
        lemma_last_slash_none(name.drop_last());
    }
}


/// The soft-class path of a blueprint asset `Name.uasset` in a directory `dir`
/// under the game's content is `/Game/dir/Name.Name_C`.
pub proof fn lemma_soft_class_of_asset(dir: Seq<char>, name: Seq<char>)
    requires
        name.len() > 0,
        forall|i: int| 0 <= i < name.len() ==> name[i] != '/' && name[i] != '.',
    ensures
        soft_class("../../../FSD/Content/"@ + dir + "/"@ + name + ".uasset"@) == "/Game/"@ + dir + "/"@
            + name + "."@ + name + "_C"@,
{
    reveal_strlit("../../../FSD/Content/");
    reveal_strlit("/");
    reveal_strlit(".uasset");
    reveal_strlit("uasset");
    reveal_strlit(".");
    let pre = "../../../FSD/Content/"@;
    let file = name + ".uasset"@;
    let p = pre + dir + "/"@ + name + ".uasset"@;
    assert(p =~= (pre + dir) + seq!['/'] + file);
    assert forall|i: int| 0 <= i < file.len() implies file[i] != '/' by {
        if i >= name.len() {
            assert(file[i] == ".uasset"@[i - name.len()]);
        }
    }
    lemma_last_index_after(pre + dir, '/', file);
    assert(file_name(p) =~= file);
    assert(file =~= name + seq!['.'] + "uasset"@);
    lemma_last_index_after(name, '.', "uasset"@);
    assert(stem(file) =~= name);
    assert(p.subrange(pre.len() as int, p.len() - "uasset"@.len()) =~= dir + "/"@ + name + "."@);
}


/// The place where a path's record is found holds a record of that path.
proof fn lemma_owner_of_place(owners: Seq<(Seq<char>, usize, Seq<u8>)>, k: Seq<char>)
    ensures
        owner_of(owners, k) matches Some(i) ==> 0 <= i < owners.len() && owners[i].0 == k,
    decreases owners.len(),
{
    if owners.len() > 0 {
        lemma_owner_of_place(owners.drop_last(), k);
    }
}

/// After the record of a path is replaced by another of the same path, the
/// path's record is still found in the same place.
proof fn lemma_owner_of_update(
    owners: Seq<(Seq<char>, usize, Seq<u8>)>,
    i: int,
    rec: (Seq<char>, usize, Seq<u8>),
)
    requires
        owner_of(owners, rec.0) == Some(i),
    ensures
        owner_of(owners.update(i, rec), rec.0) == Some(i),
    decreases owners.len(),
{
    lemma_owner_of_place(owners, rec.0);
    let u = owners.update(i, rec);
    if i < owners.len() - 1 {
        assert(owners.last().0 != rec.0);
        assert(u.last() == owners.last());
        assert(u.drop_last() =~= owners.drop_last().update(i, rec));
        lemma_owner_of_update(owners.drop_last(), i, rec);
    } else {
        assert(u.last() == rec);
    }
}

/// A path is written once, from its first copy: a second copy of the same
/// ordinary file (one with a file name, not the asset registry, not an init
/// asset and not the integrator's) adds no write, and is reported as
/// overwriting the first copy's mod exactly when its bytes differ.
pub proof fn lemma_later_copy_of_a_path(
    st: PlanModel,
    first: FileRef,
    second: FileRef,
    p: Seq<char>,
    d1: Seq<u8>,
    d2: Seq<u8>,
)
    requires
        !no_file_name(file_name(p)),
        file_name(p) != "AssetRegistry.bin"@,
        lowercase(file_name(p)) != "initspacerig.uasset"@,
        lowercase(file_name(p)) != "initcave.uasset"@,
        p != integrator_asset_path(),
        p != integrator_exp_path(),
        under_mount(p),
    ensures
        step(st, first, p, d1) matches Ok(st1) && step(st1, second, p, d2) matches Ok(st2)
            && st2.writes == st1.writes && st2.overwrites == (if d1 != d2 {
            st1.overwrites.push(Overwrite { at: second, previous_owner: first.pak })
        } else {
            st1.overwrites
        }),
{
    let out = p.skip(mount_prefix().len() as int);
    let st1 = step(st, first, p, d1)->Ok_0;
    match owner_of(st.owners, out) {
        Some(i) => {
            lemma_owner_of_place(st.owners, out);
            lemma_owner_of_update(st.owners, i, (out, first.pak, d1));
        },
        None => {
            let o = st.owners.push((out, first.pak, d1));
            assert(o.drop_last() =~= st.owners);
        },
    }
}

} // verus!
