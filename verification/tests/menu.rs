use veloren_server::menu::{GraphicsSettings, MainMenuUi, NetworkingSettings, SettingsTab};
use veloren_server::settings::ServerSettings;
use veloren_server::world::ForestKind;

#[test]
fn default_settings_of_a_client() {
    let graphics = GraphicsSettings::default();
    assert_eq!(graphics.view_distance, 5);
    assert_eq!(graphics.max_fps, 60);
    let networking = NetworkingSettings::default();
    assert_eq!(networking.username, "Username");
    assert_eq!(networking.servers, vec!["server.veloren.net".to_string()]);
    assert_eq!(networking.default_server, 0);
}

#[test]
fn main_menu_opens_with_the_default_server() {
    let networking = NetworkingSettings {
        username: "Bob".to_string(),
        servers: vec!["a.example".to_string(), "b.example".to_string()],
        default_server: 1,
    };
    let menu = MainMenuUi::new(&networking, true);
    assert_eq!(menu.username, "Bob");
    assert_eq!(menu.server_address, "b.example");
    assert_eq!(menu.login_error, None);
    assert_eq!(menu.connecting, None);
    assert!(!menu.show_servers);
    assert!(menu.show_disclaimer);
}

#[test]
fn login_error_ends_the_login_and_shows_the_error() {
    let mut menu = MainMenuUi::new(&NetworkingSettings::default(), false);
    menu.login_attempt(1234);
    assert_eq!(menu.connecting, Some(1234));
    assert_eq!(menu.login_error, None);
    menu.login_error("no route".to_string());
    assert_eq!(menu.connecting, None);
    assert_eq!(menu.login_error, Some("no route".to_string()));
    menu.login_attempt(2000);
    assert_eq!(menu.login_error, None);
}

#[test]
fn connected_ends_the_login() {
    let mut menu = MainMenuUi::new(&NetworkingSettings::default(), false);
    menu.login_error("old".to_string());
    menu.connecting = Some(5);
    menu.connected();
    assert_eq!(menu.connecting, None);
    assert_eq!(menu.login_error, Some("old".to_string()));
    assert_eq!(menu.server_address, "server.veloren.net");
}

#[test]
fn enums_of_the_client_have_their_variants() {
    assert_ne!(SettingsTab::Interface, SettingsTab::Controls);
    assert_ne!(SettingsTab::Video, SettingsTab::Sound);
    assert_eq!(SettingsTab::Gameplay, SettingsTab::Gameplay);
    assert_ne!(ForestKind::Palm, ForestKind::SnowPine);
    assert_ne!(ForestKind::Savannah, ForestKind::Oak);
    assert_eq!(ForestKind::Pine, ForestKind::Pine);
}

#[test]
fn default_settings_of_a_server() {
    let settings = ServerSettings::default();
    assert_eq!(settings.max_players, 100);
    assert_eq!(settings.world_seed, 1337);
    assert_eq!(settings.server_name, "Veloren Alpha");
    assert_eq!(settings.server_description, "This is the best Veloren server.");
    assert_eq!(settings.start_time, 9 * 3600 * 1000);
    assert_eq!(settings.world_folder, "./worldsave");
    assert_eq!(settings.admins, Vec::<String>::new());
    assert!(!settings.peaceful);
    assert_eq!(settings.client_timeout, 20_000);
    assert_eq!(settings.save_interval, 1000);
}

#[test]
fn singleplayer_settings_make_the_player_admin() {
    let settings = ServerSettings::singleplayer();
    assert_eq!(settings.server_name, "Singleplayer");
    assert_eq!(settings.server_description, "The main feature is loneliness!");
    assert_eq!(settings.admins, vec!["singleplayer".to_string()]);
    assert_eq!(settings.max_players, 100);
    assert_eq!(settings.world_seed, 1337);
    assert!(settings.is_admin(&"singleplayer".to_string()));
    assert!(!settings.is_admin(&"Singleplayer".to_string()));
    assert!(!ServerSettings::default().is_admin(&"singleplayer".to_string()));
}
