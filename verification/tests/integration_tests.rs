use mint::integration::{plan_integration, soft_class_path, FileRef, IntegrationError, Overwrite, PakFile};

fn file(path: &str, digest: &[u8]) -> PakFile {
    PakFile { path: path.to_string(), digest: digest.to_vec() }
}

#[test]
fn soft_class_paths() {
    assert_eq!(
        soft_class_path("../../../FSD/Content/_Mods/Pause/InitSpacerig.uasset").as_deref(),
        Some("/Game/_Mods/Pause/InitSpacerig.InitSpacerig_C")
    );
    assert_eq!(soft_class_path("../../../FSD/Content/InitCave.uasset").as_deref(), Some("/Game/InitCave.InitCave_C"));
    assert_eq!(soft_class_path("../../../Other/InitCave.uasset"), None);
    assert_eq!(soft_class_path("../../../FSD/Content/InitCave.UASSET"), None);
}

#[test]
fn first_pak_holding_a_path_wins_and_differing_copies_are_reported() {
    let paks = vec![
        vec![file("../../../FSD/Content/A.uasset", b"1"), file("../../../AssetRegistry.bin", b"r")],
        vec![file("../../../FSD/Content/A.uasset", b"1"), file("../../../FSD/Content/B.uasset", b"2")],
        vec![file("../../../FSD/Content/A.uasset", b"3")],
    ];
    let plan = plan_integration(&paks).unwrap();
    assert_eq!(plan.writes, vec![FileRef { pak: 0, file: 0 }, FileRef { pak: 1, file: 1 }]);
    assert_eq!(plan.overwrites, vec![Overwrite { at: FileRef { pak: 2, file: 0 }, previous_owner: 1 }]);
    assert!(plan.spacerig.is_empty() && plan.cave.is_empty());
}

#[test]
fn init_assets_and_integrator_files() {
    let paks = vec![
        vec![
            file("../../../FSD/Content/_M/INITSPACERIG.uasset", b"a"),
            file("../../../FSD/Content/_AssemblyStorm/ModIntegration/MI_SpawnMods.uasset", b"i"),
        ],
        vec![
            file("../../../FSD/Content/_M/INITSPACERIG.uasset", b"b"),
            file("../../../FSD/Content/_N/InitCave.uasset", b"c"),
            file("../../../FSD/Content/_AssemblyStorm/ModIntegration/MI_SpawnMods.uexp", b"e"),
        ],
    ];
    let plan = plan_integration(&paks).unwrap();
    assert_eq!(plan.spacerig, vec!["/Game/_M/INITSPACERIG.INITSPACERIG_C".to_string()]);
    assert_eq!(plan.cave, vec!["/Game/_N/InitCave.InitCave_C".to_string()]);
    assert_eq!(plan.integrator_asset, Some(FileRef { pak: 0, file: 0 + 1 }));
    assert_eq!(plan.integrator_exp, Some(FileRef { pak: 1, file: 2 }));
    assert_eq!(plan.writes, vec![FileRef { pak: 0, file: 0 }, FileRef { pak: 1, file: 1 }]);
    assert_eq!(plan.overwrites.len(), 1);
}

#[test]
fn merge_errors() {
    assert!(matches!(plan_integration(&vec![vec![file("Mod/x.uasset", b"")]]), Err(IntegrationError::NotUnderMount(p)) if p == "Mod/x.uasset"));
    assert!(matches!(plan_integration(&vec![vec![file("../../../FSD/", b"")]]), Err(IntegrationError::NoAssetName(_))));
    assert!(matches!(plan_integration(&vec![vec![file("../../../Other/InitCave.uasset", b"")]]), Err(IntegrationError::NotSoftClassSource(_))));
}
