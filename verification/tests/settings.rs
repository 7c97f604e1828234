use bevymmo_gameplay::abilities::{ManifestationKind, ManifestationPayload};
use bevymmo_gameplay::placeables::EnemyRank;
use bevymmo_gameplay::settings::{SettingsPanel, SettingsReturn, SettingsSession, SettingsTab};
use bevymmo_gameplay::status::{StatusId, StatusPresentation};

#[test]
fn opening_from_pause_remembers_the_return_and_closing_keeps_it() {
    let mut session = SettingsSession::default();
    assert!(!session.open);
    assert_eq!(session.return_to, SettingsReturn::Menu);
    session.open_from(SettingsReturn::Pause);
    assert!(session.open);
    assert_eq!(session.return_to, SettingsReturn::Pause);
    session.close();
    assert!(!session.open);
    assert_eq!(session.return_to, SettingsReturn::Pause);
}

#[test]
fn each_tab_has_its_label_and_its_one_panel() {
    let labels: Vec<&str> = SettingsTab::ALL.iter().map(|tab| tab.label()).collect();
    assert_eq!(labels, vec!["General", "Graphics", "Gameplay", "Keybinds"]);
    let panels = [
        SettingsPanel::General,
        SettingsPanel::Graphics,
        SettingsPanel::Gameplay,
        SettingsPanel::Keybinds,
    ];
    for (index, tab) in SettingsTab::ALL.iter().enumerate() {
        for (other, panel) in panels.iter().enumerate() {
            assert_eq!(panel.matches(*tab), index == other);
        }
    }
    assert_eq!(SettingsTab::default(), SettingsTab::General);
}

#[test]
fn payloads_list_their_statuses_in_order() {
    let flame = ManifestationPayload::damage(&["burn", "slow"]);
    assert_eq!(flame.kind, ManifestationKind::Damage);
    let names: Vec<&str> = flame.status_ids.iter().map(StatusId::as_str).collect();
    assert_eq!(names, vec!["burn", "slow"]);
    let life = ManifestationPayload::heal(&[]);
    assert_eq!(life.kind, ManifestationKind::Heal);
    assert!(life.status_ids.is_empty());
    assert_eq!(ManifestationPayload::default().kind, ManifestationKind::Damage);
}

#[test]
fn defaults_of_small_enums() {
    assert_eq!(EnemyRank::default(), EnemyRank::Normal);
    let presentation = StatusPresentation::default();
    assert_eq!(presentation.icon, "status_default");
    assert_eq!(presentation.short_name, "Status");
    assert_eq!(StatusId::new("stun").as_str(), "stun");
}

#[test]
fn status_id_converts_from_its_text() {
    let id: StatusId = "burn".into();
    assert_eq!(id, StatusId::new("burn"));
    assert_eq!(id.as_str(), "burn");
}
