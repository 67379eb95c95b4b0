use mint::installation::PathComponent;
use mint::saves::{get_path_for_slot, is_player_slot, slot_file_text};
use mint::ue::string::FString;

fn normal(s: &str) -> PathComponent {
    PathComponent::Normal(s.to_string())
}

fn texts(cs: &[PathComponent]) -> Vec<String> {
    cs.iter()
        .map(|c| match c {
            PathComponent::Normal(s) => s.clone(),
            PathComponent::RootDir => "/".to_string(),
            PathComponent::CurDir => ".".to_string(),
            PathComponent::ParentDir => "..".to_string(),
            PathComponent::Prefix(p) => p.clone(),
        })
        .collect()
}

#[test]
fn slot_file_stays_in_the_saves_directory() {
    let saves = vec![PathComponent::RootDir, normal("mint"), normal("saves")];
    let slot = vec![
        PathComponent::RootDir,
        PathComponent::ParentDir,
        PathComponent::ParentDir,
        normal("etc"),
        PathComponent::CurDir,
        normal("x.sav"),
    ];
    let saves = Some(saves);
    let path = get_path_for_slot(&saves, &slot).unwrap();
    assert_eq!(texts(&path), vec!["/", "mint", "saves", "etc", "x.sav"]);
    let plain = get_path_for_slot(&saves, &[normal("Slot1.sav")]).unwrap();
    assert_eq!(texts(&plain), vec!["/", "mint", "saves", "Slot1.sav"]);
    assert!(get_path_for_slot(&None, &slot).is_none());
}

#[test]
fn slot_file_text_adds_the_save_extension() {
    assert_eq!(slot_file_text(&FString::from_str("Slot1")), Some("Slot1.sav".to_string()));
    assert_eq!(slot_file_text(&FString::from_str("../../evil")), Some("../../evil.sav".to_string()));
    assert_eq!(slot_file_text(&FString::from_slice(&[0xDC00, 0])), None);
}

#[test]
fn player_slot() {
    assert_eq!(is_player_slot(&FString::from_str("Player")), Some(true));
    assert_eq!(is_player_slot(&FString::from_str("Player2")), Some(false));
    assert_eq!(is_player_slot(&FString::from_slice(&[0xDC00, 0])), None);
}
