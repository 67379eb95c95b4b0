//! Which kind of Deep Rock Galactic installation a game file belongs to, and
//! the names of the files and directories that differ between kinds.

use vstd::prelude::*;

verus! {

/// Errors of the library's installation handling.
#[derive(Debug)]
pub enum MintError {
    /// Failed to fetch a release.
    FetchGithubReleaseFailed { summary: String, details: Option<String> },
    /// Failed to recognise a Deep Rock Galactic installation.
    UnknownInstallation { summary: String, details: Option<String> },
    /// Failed to set up logging.
    LogSetupFailed { summary: String, details: Option<String> },
}

/// The kind of a Deep Rock Galactic installation.
#[derive(Clone, Copy, Debug, PartialEq, Eq, Structural)]
pub enum DRGInstallationType {
    Steam,
    Xbox,
}

/// The lower-case file name of the Steam build's executable.
pub const STEAM_EXE_FILE_NAME: &'static str = "fsd-win64-shipping.exe";
/// The lower-case file name of the Xbox build's executable.
pub const XBOX_EXE_FILE_NAME: &'static str = "fsd-wingdk-shipping.exe";
/// The lower-case file name of the Steam build's main pak.
pub const STEAM_PAK_FILE_NAME: &'static str = "fsd-windowsnoeditor.pak";
/// The lower-case file name of the Xbox build's main pak.
pub const XBOX_PAK_FILE_NAME: &'static str = "fsd-wingdk.pak";

/// `c` with an ASCII upper-case letter mapped to its lower case.
pub open spec fn ascii_lower_char(c: char) -> char {
    if 'A' <= c && c <= 'Z' {
        ((c as u32) + 32) as char
    } else {
        c
    }
}

/// `s` with every ASCII upper-case letter mapped to its lower case.
pub open spec fn ascii_lower(s: Seq<char>) -> Seq<char> {
    s.map_values(|c: char| ascii_lower_char(c))
}

/// The lower-case letter of an ASCII upper-case letter.
fn lower_letter(c: char) -> (r: &'static str)
    requires
        'A' <= c <= 'Z',
    ensures
        r@ == seq![ascii_lower_char(c)],
{
    match c {
        'A' => {
            proof {
                reveal_strlit("a");
            }
            "a"
        },
        'B' => {
            proof {
                reveal_strlit("b");
            }
            "b"
        },
        'C' => {
            proof {
                reveal_strlit("c");
            }
            "c"
        },
        'D' => {
            proof {
                reveal_strlit("d");
            }
            "d"
        },
        'E' => {
            proof {
                reveal_strlit("e");
            }
            "e"
        },
        'F' => {
            proof {
                reveal_strlit("f");
            }
            "f"
        },
        'G' => {
            proof {
                reveal_strlit("g");
            }
            "g"
        },
        'H' => {
            proof {
                reveal_strlit("h");
            }
            "h"
        },
        'I' => {
            proof {
                reveal_strlit("i");
            }
            "i"
        },
        'J' => {
            proof {
                reveal_strlit("j");
            }
            "j"
        },
        'K' => {
            proof {
                reveal_strlit("k");
            }
            "k"
        },
        'L' => {
            proof {
                reveal_strlit("l");
            }
            "l"
        },
        'M' => {
            proof {
                reveal_strlit("m");
            }
            "m"
        },
        'N' => {
            proof {
                reveal_strlit("n");
            }
            "n"
        },
        'O' => {
            proof {
                reveal_strlit("o");
            }
            "o"
        },
        'P' => {
            proof {
                reveal_strlit("p");
            }
            "p"
        },
        'Q' => {
            proof {
                reveal_strlit("q");
            }
            "q"
        },
        'R' => {
            proof {
                reveal_strlit("r");
            }
            "r"
        },
        'S' => {
            proof {
                reveal_strlit("s");
            }
            "s"
        },
        'T' => {
            proof {
                reveal_strlit("t");
            }
            "t"
        },
        'U' => {
            proof {
                reveal_strlit("u");
            }
            "u"
        },
        'V' => {
            proof {
                reveal_strlit("v");
            }
            "v"
        },
        'W' => {
            proof {
                reveal_strlit("w");
            }
            "w"
        },
        'X' => {
            proof {
                reveal_strlit("x");
            }
            "x"
        },
        'Y' => {
            proof {
                reveal_strlit("y");
            }
            "y"
        },
        _ => {
            proof {
                reveal_strlit("z");
            }
            "z"
        },
    }
}

/// A copy of `s` with ASCII letters `A` to `Z` mapped to `a` to `z`, every
/// other character unchanged.
fn to_ascii_lowercase(s: &str) -> (r: String)
    ensures
        r@ == ascii_lower(s@),
{
    let n = s.unicode_len();
    let mut r = String::new();
    let mut i: usize = 0;
    while i < n
        invariant
            n == s@.len(),
            i <= n,
            r@ == ascii_lower(s@.subrange(0, i as int)),
        decreases n - i,
    {
        let c = s.get_char(i);
        if 'A' <= c && c <= 'Z' {
            r.append(lower_letter(c));
        } else {
            r.append(s.substring_char(i, i + 1));
        }
        i = i + 1;
        assert(r@ =~= ascii_lower(s@.subrange(0, i as int)));
    }
    assert(s@.subrange(0, n as int) =~= s@);
    r
}

/// A component of a file-system path.
#[derive(Debug)]
pub enum PathComponent {
    /// A Windows path prefix, such as a drive letter.
    Prefix(String),
    /// The root directory.
    RootDir,
    /// `.`
    CurDir,
    /// `..`
    ParentDir,
    /// A file or directory name.
    Normal(String),
}

/// A path as the installation logic reads it: the text it displays as, and its
/// components, as the platform splits it.
#[derive(Debug)]
pub struct PathModel {
    pub display: String,
    pub components: Vec<PathComponent>,
}

/// The final component of a path, when it is a name.
pub open spec fn spec_file_name(cs: Seq<PathComponent>) -> Option<Seq<char>> {
    if cs.len() > 0 && cs.last() is Normal {
        Some(cs.last()->Normal_0@)
    } else {
        None
    }
}

/// The path without its final component, when that component is a name, `.` or `..`.
pub open spec fn spec_parent(cs: Seq<PathComponent>) -> Option<Seq<PathComponent>> {
    if cs.len() > 0 && (cs.last() is Normal || cs.last() is CurDir || cs.last() is ParentDir) {
        Some(cs.drop_last())
    } else {
        None
    }
}

/// The third ancestor of a path: the parent of the parent of its parent.
pub open spec fn spec_third_ancestor(cs: Seq<PathComponent>) -> Option<Seq<PathComponent>> {
    match spec_parent(cs) {
        Some(p1) => match spec_parent(p1) {
            Some(p2) => spec_parent(p2),
            None => None,
        },
        None => None,
    }
}

/// A copy of a path component.
pub fn copy_component(c: &PathComponent) -> (r: PathComponent)
    ensures
        r == *c,
{
    match c {
        PathComponent::Prefix(s) => PathComponent::Prefix(s.clone()),
        PathComponent::RootDir => PathComponent::RootDir,
        PathComponent::CurDir => PathComponent::CurDir,
        PathComponent::ParentDir => PathComponent::ParentDir,
        PathComponent::Normal(s) => PathComponent::Normal(s.clone()),
    }
}

/// A copy of the first `n` components of a path.
fn copy_components(cs: &[PathComponent], n: usize) -> (r: Vec<PathComponent>)
    requires
        n <= cs@.len(),
    ensures
        r@ == cs@.subrange(0, n as int),
{
    let mut out: Vec<PathComponent> = Vec::new();
    let mut i: usize = 0;
    while i < n
        invariant
            i <= n <= cs@.len(),
            out@ == cs@.subrange(0, i as int),
        decreases n - i,
    {
        out.push(copy_component(&cs[i]));
        i = i + 1;
        assert(out@ =~= cs@.subrange(0, i as int));
    }
    out
}

/// `Path::file_name`: the final component of the path, when it is a name.
pub fn file_name(cs: &[PathComponent]) -> (r: Option<String>)
    ensures
        match spec_file_name(cs@) {
            Some(n) => r matches Some(s) && s@ == n,
            None => r is None,
        },
{
    if cs.len() == 0 {
        return None;
    }
    match &cs[cs.len() - 1] {
        PathComponent::Normal(s) => Some(s.clone()),
        _ => None,
    }
}

/// `Path::parent`: the path without its final component, when that component
/// is a name, `.` or `..`.
pub fn parent(cs: &[PathComponent]) -> (r: Option<Vec<PathComponent>>)
    ensures
        match spec_parent(cs@) {
            Some(p) => r matches Some(v) && v@ == p,
            None => r is None,
        },
{
    if cs.len() == 0 {
        return None;
    }
    match &cs[cs.len() - 1] {
        PathComponent::Normal(_) | PathComponent::CurDir | PathComponent::ParentDir => {
            let v = copy_components(cs, cs.len() - 1);
            assert(cs@.drop_last() =~= cs@.subrange(0, cs@.len() - 1));
            Some(v)
        },
        _ => None,
    }
}

/// The message that names the path given.
fn given_path_message(display: &str) -> (r: String)
    ensures
        r@ == "given path was "@ + display@,
{
    let mut r = String::from_str("given path was ");
    r.append(display);
    r
}

/// Component `c` is the name `n`.
pub open spec fn is_name(c: PathComponent, n: Seq<char>) -> bool {
    c matches PathComponent::Normal(s) && s@ == n
}

/// The path `base` followed by the names `names`.
pub open spec fn joined(r: Seq<PathComponent>, base: Seq<PathComponent>, names: Seq<Seq<char>>) -> bool {
    &&& r.len() == base.len() + names.len()
    &&& r.subrange(0, base.len() as int) == base
    &&& forall|i: int| 0 <= i < names.len() ==> is_name(#[trigger] r[base.len() + i], names[i])
}

/// A copy of `base` followed by the names `names`.
fn join_names(base: &[PathComponent], names: &[&str]) -> (r: Vec<PathComponent>)
    ensures
        joined(r@, base@, names@.map_values(|n: &str| n@)),
{
    let mut out = copy_components(base, base.len());
    assert(base@.subrange(0, base@.len() as int) =~= base@);
    let mut i: usize = 0;
    while i < names.len()
        invariant
            i <= names@.len(),
            out@.len() == base@.len() + i,
            out@.subrange(0, base@.len() as int) == base@,
            forall|j: int| 0 <= j < i ==> is_name(#[trigger] out@[base@.len() + j], names@[j]@),
        decreases names@.len() - i,
    {
        let ghost before = out@;
        out.push(PathComponent::Normal(names[i].to_owned()));
        assert(out@.subrange(0, base@.len() as int) =~= before.subrange(0, base@.len() as int));
        i = i + 1;
    }
    out
}

/// The message that lists the names expected, quoted and comma-separated, and the name found.
pub open spec fn expectation_message(expected: Seq<Seq<char>>, found: Seq<char>) -> Seq<char> {
    "expected one of ["@ + quoted_list(expected) + "] but found \""@ + found + "\""@
}

/// The names, each in double quotes, separated by `, `.
pub open spec fn quoted_list(names: Seq<Seq<char>>) -> Seq<char>
    decreases names.len(),
{
    if names.len() == 0 {
        Seq::empty()
    } else if names.len() == 1 {
        "\""@ + names[0] + "\""@
    } else {
        quoted_list(names.drop_last()) + ", "@ + "\""@ + names.last() + "\""@
    }
}

/// The expectation message: the names expected, each quoted and joined by
/// `, `, and the name found.
fn expectation_text(expected: &[&str], found: &str) -> (r: String)
    ensures
        r@ == expectation_message(expected@.map_values(|e: &str| e@), found@),
{
    let ghost names = expected@.map_values(|e: &str| e@);
    let mut r = String::from_str("expected one of [");
    let mut i: usize = 0;
    while i < expected.len()
        invariant
            i <= expected@.len(),
            names == expected@.map_values(|e: &str| e@),
            r@ == "expected one of ["@ + quoted_list(names.subrange(0, i as int)),
        decreases expected@.len() - i,
    {
        if i > 0 {
            r.append(", ");
        }
        r.append("\"");
        r.append(expected[i]);
        r.append("\"");
        proof {
            let done = names.subrange(0, i + 1);
            assert(done.drop_last() =~= names.subrange(0, i as int));
            assert(done.last() == expected@[i as int]@);
            if i == 0 {
                assert(quoted_list(names.subrange(0, 0)) =~= Seq::<char>::empty());
            }
        }
        i = i + 1;
    }
    assert(names.subrange(0, i as int) =~= names);
    r.append("] but found \"");
    r.append(found);
    r.append("\"");
    r
}

/// An unknown-installation error with a summary and no details.
pub fn bad_file_name(msg: &str) -> (e: MintError)
    ensures
        e matches MintError::UnknownInstallation { summary, details } && summary@ == msg@
            && details is None,
{
    MintError::UnknownInstallation { summary: msg.to_owned(), details: None }
}

/// An unknown-installation error for a file name that is none of those expected.
pub fn unexpected_file_name(msg: &str, expected: &[&str], found: &str) -> (e: MintError)
    ensures
        e matches MintError::UnknownInstallation { summary, details } && summary@ == msg@
            && (details matches Some(d) && d@ == expectation_message(
            expected@.map_values(|x: &str| x@),
            found@,
        )),
{
    MintError::UnknownInstallation {
        summary: msg.to_owned(),
        details: Some(expectation_text(expected, found)),
    }
}

/// The lower-cased file name, when there is one; else the error of `err_msg`.
pub fn lowercase_file_name(file_name: Option<String>, err_msg: &str) -> (r: Result<
    String,
    MintError,
>)
    ensures
        match file_name {
            Some(n) => r matches Ok(s) && s@ == ascii_lower(n@),
            None => r matches Err(MintError::UnknownInstallation { summary, details })
                && summary@ == err_msg@ && details is None,
        },
{
    match file_name {
        Some(n) => Ok(to_ascii_lowercase(n.as_str())),
        None => Err(bad_file_name(err_msg)),
    }
}

/// The lower-cased file name of `path`; the error of `err_msg` when the path
/// has no file name.
pub fn mk_lowercase_file_name(path: &PathModel, err_msg: &str) -> (r: Result<String, MintError>)
    ensures
        match spec_file_name(path.components@) {
            Some(n) => r matches Ok(s) && s@ == ascii_lower(n),
            None => r matches Err(MintError::UnknownInstallation { summary, details })
                && summary@ == err_msg@ && details is None,
        },
{
    lowercase_file_name(file_name(path.components.as_slice()), err_msg)
}

/// The installation kind of a main pak's lower-cased file name: the kind
/// whose main pak has that name.
pub open spec fn pak_kind(name: Seq<char>) -> Option<DRGInstallationType> {
    if name == STEAM_PAK_FILE_NAME@ {
        Some(DRGInstallationType::Steam)
    } else if name == XBOX_PAK_FILE_NAME@ {
        Some(DRGInstallationType::Xbox)
    } else {
        None
    }
}

/// `r` is what recognising the pak file name `name` gives: the kind of a known
/// name, else an unknown-installation error that lists the known names.
pub open spec fn pak_file_outcome(name: Seq<char>, r: Result<DRGInstallationType, MintError>) -> bool {
    match pak_kind(name) {
        Some(k) => r == Ok::<DRGInstallationType, MintError>(k),
        None => r matches Err(MintError::UnknownInstallation { summary, details }) && summary@
            == "unexpected pak file name"@ && (details matches Some(d) && d@ == expectation_message(
            seq![STEAM_PAK_FILE_NAME@, XBOX_PAK_FILE_NAME@],
            name,
        )),
    }
}

/// `r` is what recognising the kind of the main pak at `pak` gives.
pub open spec fn pak_type_outcome(pak: PathModel, r: Result<DRGInstallationType, MintError>) -> bool {
    match spec_file_name(pak.components@) {
        Some(n) => pak_file_outcome(ascii_lower(n), r),
        None => r matches Err(MintError::UnknownInstallation { summary, details }) && summary@
            == "failed to get pak file name"@ && details is None,
    }
}

/// The installation kind of an executable's lower-cased file name.
pub open spec fn exe_kind(name: Seq<char>) -> Option<DRGInstallationType> {
    if name == STEAM_EXE_FILE_NAME@ {
        Some(DRGInstallationType::Steam)
    } else if name == XBOX_EXE_FILE_NAME@ {
        Some(DRGInstallationType::Xbox)
    } else {
        None
    }
}

/// `r` is what recognising the executable file name `name` gives.
pub open spec fn exe_file_outcome(name: Seq<char>, r: Result<DRGInstallationType, MintError>) -> bool {
    match exe_kind(name) {
        Some(k) => r == Ok::<DRGInstallationType, MintError>(k),
        None => r matches Err(MintError::UnknownInstallation { summary, details }) && summary@
            == "unexpected executable file name"@ && (details matches Some(d) && d@
            == expectation_message(seq![STEAM_EXE_FILE_NAME@, XBOX_EXE_FILE_NAME@], name)),
    }
}

impl DRGInstallationType {
    /// The binaries directory's name.
    pub open spec fn spec_binaries_directory_name(self) -> Seq<char> {
        match self {
            DRGInstallationType::Steam => "Win64"@,
            DRGInstallationType::Xbox => "WinGDK"@,
        }
    }

    /// The main pak's file name.
    pub open spec fn spec_main_pak_name(self) -> Seq<char> {
        match self {
            DRGInstallationType::Steam => "FSD-WindowsNoEditor.pak"@,
            DRGInstallationType::Xbox => "FSD-WinGDK.pak"@,
        }
    }

    /// The installation kind that a main pak's lower-cased file name belongs to;
    /// any other name is an error that lists the known names.
    pub fn from_pak_file_name(file_name: &str) -> (r: Result<Self, MintError>)
        ensures
            pak_file_outcome(file_name@, r),
    {
        let name = file_name.to_owned();
        let steam = STEAM_PAK_FILE_NAME.to_owned();
        let xbox = XBOX_PAK_FILE_NAME.to_owned();
        if name == steam {
            Ok(DRGInstallationType::Steam)
        } else if name == xbox {
            Ok(DRGInstallationType::Xbox)
        } else {
            let expected = [STEAM_PAK_FILE_NAME, XBOX_PAK_FILE_NAME];
            let e = unexpected_file_name("unexpected pak file name", expected.as_slice(), file_name);
            proof {
                assert(expected@.map_values(|x: &str| x@) =~= seq![
                    STEAM_PAK_FILE_NAME@,
                    XBOX_PAK_FILE_NAME@,
                ]);
            }
            Err(e)
        }
    }

    /// The installation kind of the main pak at `pak`, by its file name.
    pub fn from_pak_path(pak: &PathModel) -> (r: Result<Self, MintError>)
        ensures
            pak_type_outcome(*pak, r),
    {
        let file_name = match mk_lowercase_file_name(pak, "failed to get pak file name") {
            Ok(n) => n,
            Err(e) => {
                return Err(e);
            },
        };
        Self::from_pak_file_name(file_name.as_str())
    }

    /// The installation kind of the game executable by its lower-cased file name.
    pub fn from_exe_file_name(file_name: &str) -> (r: Result<Self, MintError>)
        ensures
            exe_file_outcome(file_name@, r),
    {
        let name = file_name.to_owned();
        let steam = STEAM_EXE_FILE_NAME.to_owned();
        let xbox = XBOX_EXE_FILE_NAME.to_owned();
        if name == steam {
            Ok(DRGInstallationType::Steam)
        } else if name == xbox {
            Ok(DRGInstallationType::Xbox)
        } else {
            let expected = [STEAM_EXE_FILE_NAME, XBOX_EXE_FILE_NAME];
            let e = unexpected_file_name(
                "unexpected executable file name",
                expected.as_slice(),
                file_name,
            );
            proof {
                assert(expected@.map_values(|x: &str| x@) =~= seq![
                    STEAM_EXE_FILE_NAME@,
                    XBOX_EXE_FILE_NAME@,
                ]);
            }
            Err(e)
        }
    }

    /// The binaries directory's name.
    pub fn binaries_directory_name(&self) -> (r: &'static str)
        ensures
            r@ == self.spec_binaries_directory_name(),
    {
        match self {
            DRGInstallationType::Steam => "Win64",
            DRGInstallationType::Xbox => "WinGDK",
        }
    }

    /// The main pak's file name.
    pub fn main_pak_name(&self) -> (r: &'static str)
        ensures
            r@ == self.spec_main_pak_name(),
    {
        match self {
            DRGInstallationType::Steam => "FSD-WindowsNoEditor.pak",
            DRGInstallationType::Xbox => "FSD-WinGDK.pak",
        }
    }

    /// The file name of the hook library that the game loads.
    pub fn hook_dll_name(&self) -> (r: &'static str)
        ensures
            r@ == match self {
                DRGInstallationType::Steam => "x3daudio1_7.dll"@,
                DRGInstallationType::Xbox => "d3d9.dll"@,
            },
    {
        match self {
            DRGInstallationType::Steam => "x3daudio1_7.dll",
            DRGInstallationType::Xbox => "d3d9.dll",
        }
    }
}

/// A Deep Rock Galactic installation: its root directory and its kind.
#[derive(Debug)]
pub struct DRGInstallation {
    pub root: Vec<PathComponent>,
    pub installation_type: DRGInstallationType,
}

impl DRGInstallation {
    /// The installation that the main pak at `pak` belongs to: its root is the
    /// pak's third ancestor, its kind is the pak's kind.
    pub fn from_pak_path(pak: &PathModel) -> (r: Result<Self, MintError>)
        ensures
            spec_third_ancestor(pak.components@) is None ==> (r matches Err(
                MintError::UnknownInstallation { summary, details },
            ) && summary@ == "failed to determine pak root"@ && (details matches Some(d) && d@
                == "given path was "@ + pak.display@)),
            spec_third_ancestor(pak.components@) matches Some(root) ==> match r {
                Ok(inst) => inst.root@ == root && pak_type_outcome(
                    *pak,
                    Ok(inst.installation_type),
                ),
                Err(e) => pak_type_outcome(*pak, Err(e)),
            },
    {
        let pak_root = match parent(pak.components.as_slice()) {
            Some(p1) => match parent(p1.as_slice()) {
                Some(p2) => parent(p2.as_slice()),
                None => None,
            },
            None => None,
        };
        match pak_root {
            Some(root) => match DRGInstallationType::from_pak_path(pak) {
                Ok(installation_type) => Ok(DRGInstallation { root, installation_type }),
                Err(e) => Err(e),
            },
            None => Err(
                MintError::UnknownInstallation {
                    summary: "failed to determine pak root".to_owned(),
                    details: Some(given_path_message(pak.display.as_str())),
                },
            ),
        }
    }

    /// The directory of the game's binaries: `Binaries` and the kind's directory.
    pub fn binaries_directory(&self) -> (r: Vec<PathComponent>)
        ensures
            joined(
                r@,
                self.root@,
                seq!["Binaries"@, self.installation_type.spec_binaries_directory_name()],
            ),
    {
        let names = ["Binaries", self.installation_type.binaries_directory_name()];
        let r = join_names(self.root.as_slice(), names.as_slice());
        assert(names@.map_values(|n: &str| n@) =~= seq![
            "Binaries"@,
            self.installation_type.spec_binaries_directory_name(),
        ]);
        r
    }

    /// The directory of the game's paks: `Content/Paks`.
    pub fn paks_path(&self) -> (r: Vec<PathComponent>)
        ensures
            joined(r@, self.root@, seq!["Content"@, "Paks"@]),
    {
        let names = ["Content", "Paks"];
        let r = join_names(self.root.as_slice(), names.as_slice());
        assert(names@.map_values(|n: &str| n@) =~= seq!["Content"@, "Paks"@]);
        r
    }

    /// The game's main pak: in `Content/Paks`, named after the kind.
    pub fn main_pak(&self) -> (r: Vec<PathComponent>)
        ensures
            joined(
                r@,
                self.root@,
                seq!["Content"@, "Paks"@, self.installation_type.spec_main_pak_name()],
            ),
    {
        let names = ["Content", "Paks", self.installation_type.main_pak_name()];
        let r = join_names(self.root.as_slice(), names.as_slice());
        assert(names@.map_values(|n: &str| n@) =~= seq![
            "Content"@,
            "Paks"@,
            self.installation_type.spec_main_pak_name(),
        ]);
        r
    }
}

/// Recognising a main pak gives back its kind: the lower-cased name of a
/// kind's main pak is recognised as that kind.
pub proof fn lemma_main_pak_recognised(t: DRGInstallationType)
    ensures
        pak_kind(ascii_lower(t.spec_main_pak_name())) == Some(t),
{
    reveal_strlit("FSD-WindowsNoEditor.pak");
    reveal_strlit("FSD-WinGDK.pak");
    reveal_strlit("fsd-windowsnoeditor.pak");
    reveal_strlit("fsd-wingdk.pak");
    assert(ascii_lower("FSD-WindowsNoEditor.pak"@) =~= "fsd-windowsnoeditor.pak"@);
    assert(ascii_lower("FSD-WinGDK.pak"@) =~= "fsd-wingdk.pak"@);
    assert("fsd-wingdk.pak"@ != "fsd-windowsnoeditor.pak"@) by {
        assert("fsd-wingdk.pak"@.len() != "fsd-windowsnoeditor.pak"@.len());
    }
}

} // verus!
