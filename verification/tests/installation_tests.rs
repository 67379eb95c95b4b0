use mint::installation::{
    bad_file_name, file_name, lowercase_file_name, mk_lowercase_file_name, parent,
    unexpected_file_name, DRGInstallation, DRGInstallationType, MintError, PathComponent,
    PathModel,
};

fn normal(s: &str) -> PathComponent {
    PathComponent::Normal(s.to_string())
}

fn names(cs: &[PathComponent]) -> Vec<String> {
    cs.iter()
        .map(|c| match c {
            PathComponent::Normal(s) => s.clone(),
            PathComponent::RootDir => "/".to_string(),
            PathComponent::CurDir => ".".to_string(),
            PathComponent::ParentDir => "..".to_string(),
            PathComponent::Prefix(p) => p.clone(),
        })
        .collect()
}

fn pak_path() -> PathModel {
    PathModel {
        display: "/games/FSD/Content/Paks/FSD-WindowsNoEditor.pak".to_string(),
        components: vec![
            PathComponent::RootDir,
            normal("games"),
            normal("FSD"),
            normal("Content"),
            normal("Paks"),
            normal("FSD-WindowsNoEditor.pak"),
        ],
    }
}

#[test]
fn pak_file_names() {
    assert_eq!(
        DRGInstallationType::from_pak_file_name("fsd-windowsnoeditor.pak").unwrap(),
        DRGInstallationType::Steam
    );
    assert_eq!(
        DRGInstallationType::from_pak_file_name("fsd-wingdk.pak").unwrap(),
        DRGInstallationType::Xbox
    );
    match DRGInstallationType::from_pak_file_name("other.pak") {
        Err(MintError::UnknownInstallation { summary, details }) => {
            assert_eq!(summary, "unexpected pak file name");
            assert_eq!(
                details.as_deref(),
                Some("expected one of [\"fsd-windowsnoeditor.pak\", \"fsd-wingdk.pak\"] but found \"other.pak\"")
            );
        }
        other => panic!("unexpected {other:?}"),
    }
}

#[test]
fn exe_file_names() {
    assert_eq!(
        DRGInstallationType::from_exe_file_name("fsd-win64-shipping.exe").unwrap(),
        DRGInstallationType::Steam
    );
    assert_eq!(
        DRGInstallationType::from_exe_file_name("fsd-wingdk-shipping.exe").unwrap(),
        DRGInstallationType::Xbox
    );
    assert!(matches!(
        DRGInstallationType::from_exe_file_name("game.exe"),
        Err(MintError::UnknownInstallation { .. })
    ));
}

#[test]
fn pak_path_is_lower_cased() {
    assert_eq!(DRGInstallationType::from_pak_path(&pak_path()).unwrap(), DRGInstallationType::Steam);
    let dir = PathModel { display: "/".to_string(), components: vec![PathComponent::RootDir] };
    match DRGInstallationType::from_pak_path(&dir) {
        Err(MintError::UnknownInstallation { summary, details }) => {
            assert_eq!(summary, "failed to get pak file name");
            assert_eq!(details, None);
        }
        other => panic!("unexpected {other:?}"),
    }
}

#[test]
fn kind_specific_names() {
    assert_eq!(DRGInstallationType::Steam.binaries_directory_name(), "Win64");
    assert_eq!(DRGInstallationType::Xbox.binaries_directory_name(), "WinGDK");
    assert_eq!(DRGInstallationType::Steam.main_pak_name(), "FSD-WindowsNoEditor.pak");
    assert_eq!(DRGInstallationType::Xbox.main_pak_name(), "FSD-WinGDK.pak");
    assert_eq!(DRGInstallationType::Steam.hook_dll_name(), "x3daudio1_7.dll");
    assert_eq!(DRGInstallationType::Xbox.hook_dll_name(), "d3d9.dll");
}

#[test]
fn installation_from_pak_path() {
    let inst = DRGInstallation::from_pak_path(&pak_path()).unwrap();
    assert_eq!(names(&inst.root), vec!["/", "games", "FSD"]);
    assert_eq!(inst.installation_type, DRGInstallationType::Steam);
    assert_eq!(names(&inst.binaries_directory()), vec!["/", "games", "FSD", "Binaries", "Win64"]);
    assert_eq!(names(&inst.paks_path()), vec!["/", "games", "FSD", "Content", "Paks"]);
    assert_eq!(
        names(&inst.main_pak()),
        vec!["/", "games", "FSD", "Content", "Paks", "FSD-WindowsNoEditor.pak"]
    );
}

#[test]
fn short_pak_path_has_no_root() {
    let short = PathModel {
        display: "/Paks/x.pak".to_string(),
        components: vec![PathComponent::RootDir, normal("Paks"), normal("x.pak")],
    };
    match DRGInstallation::from_pak_path(&short) {
        Err(MintError::UnknownInstallation { summary, details }) => {
            assert_eq!(summary, "failed to determine pak root");
            assert_eq!(details.as_deref(), Some("given path was /Paks/x.pak"));
        }
        other => panic!("unexpected {other:?}"),
    }
    // a relative path of exactly three components has the empty path as its root
    let relative = PathModel {
        display: "Content/Paks/fsd-wingdk.pak".to_string(),
        components: vec![normal("Content"), normal("Paks"), normal("fsd-wingdk.pak")],
    };
    let inst = DRGInstallation::from_pak_path(&relative).unwrap();
    assert!(inst.root.is_empty());
    assert_eq!(inst.installation_type, DRGInstallationType::Xbox);
    assert_eq!(names(&inst.main_pak()), vec!["Content", "Paks", "FSD-WinGDK.pak"]);
}

#[test]
fn path_parts() {
    let p = pak_path().components;
    assert_eq!(file_name(&p), Some("FSD-WindowsNoEditor.pak".to_string()));
    assert_eq!(file_name(&[PathComponent::RootDir]), None);
    assert_eq!(file_name(&[normal("a"), PathComponent::ParentDir]), None);
    assert_eq!(names(&parent(&p).unwrap()), vec!["/", "games", "FSD", "Content", "Paks"]);
    assert!(parent(&[PathComponent::RootDir]).is_none());
    assert!(parent(&[]).is_none());
    assert_eq!(parent(&[normal("a")]).map(|v| v.len()), Some(0));
}

#[test]
fn file_name_errors() {
    assert_eq!(lowercase_file_name(Some("AbC.PAK".to_string()), "m").unwrap(), "abc.pak");
    assert_eq!(lowercase_file_name(Some("ÄbZ-ß@[.Pak".to_string()), "m").unwrap(), "Äbz-ß@[.pak");
    assert!(matches!(
        lowercase_file_name(None, "no name"),
        Err(MintError::UnknownInstallation { summary, details: None }) if summary == "no name"
    ));
    let p = pak_path();
    assert_eq!(mk_lowercase_file_name(&p, "m").unwrap(), "fsd-windowsnoeditor.pak");
    assert!(matches!(bad_file_name("x"), MintError::UnknownInstallation { summary, details: None } if summary == "x"));
    match unexpected_file_name("s", &["a", "b", "c"], "d") {
        MintError::UnknownInstallation { summary, details } => {
            assert_eq!(summary, "s");
            assert_eq!(details.as_deref(), Some("expected one of [\"a\", \"b\", \"c\"] but found \"d\""));
        }
        other => panic!("unexpected {other:?}"),
    }
}
