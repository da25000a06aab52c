//! The state behind the main menu of a client: the login form and what it
//! shows. Drawing it is not part of this library.

use vstd::prelude::*;

verus! {

/// The tabs of the settings window.
#[derive(Clone, Copy, Debug, PartialEq, Eq, Structural)]
pub enum SettingsTab {
    Interface,
    Video,
    Sound,
    Gameplay,
    Controls,
}

/// How far a client sees and how fast it draws.
#[derive(Clone, Copy, Debug, PartialEq, Eq, Structural)]
pub struct GraphicsSettings {
    pub view_distance: u32,
    pub max_fps: u32,
}

impl Default for GraphicsSettings {
    fn default() -> (settings: GraphicsSettings)
        ensures
            settings == (GraphicsSettings { view_distance: 5, max_fps: 60 }),
    {
        GraphicsSettings { view_distance: 5, max_fps: 60 }
    }
}

/// The servers that a client knows and the name it logs in with.
#[derive(Clone, Debug, PartialEq, Eq)]
pub struct NetworkingSettings {
    pub username: String,
    pub servers: Vec<String>,
    /// The place of the server that the login form starts with.
    pub default_server: usize,
}

impl Default for NetworkingSettings {
    fn default() -> (settings: NetworkingSettings)
        ensures
            settings.username@ == "Username"@,
            settings.servers@.len() == 1,
            settings.servers@[0]@ == "server.veloren.net"@,
            settings.default_server == 0,
    {
        let mut servers: Vec<String> = Vec::new();
        servers.push(String::from_str("server.veloren.net"));
        NetworkingSettings { username: String::from_str("Username"), servers, default_server: 0 }
    }
}

/// The state behind the main menu.
#[derive(Clone, Debug, PartialEq, Eq)]
pub struct MainMenuUi {
    pub username: String,
    pub server_address: String,
    /// The error of the last login, while it is shown.
    pub login_error: Option<String>,
    /// The time at which the login that is under way began, in
    /// milliseconds.
    pub connecting: Option<u64>,
    pub show_servers: bool,
    pub show_disclaimer: bool,
}

impl MainMenuUi {
    /// The menu as it opens: with the name and the default server of the
    /// settings, no login under way and no error.
    pub fn new(networking: &NetworkingSettings, show_disclaimer: bool) -> (menu: MainMenuUi)
        requires
            networking.default_server < networking.servers@.len(),
        ensures
            menu.username@ == networking.username@,
            menu.server_address@ == networking.servers@[networking.default_server as int]@,
            menu.login_error.is_none(),
            menu.connecting.is_none(),
            !menu.show_servers,
            menu.show_disclaimer == show_disclaimer,
    {
        MainMenuUi {
            username: networking.username.clone(),
            server_address: networking.servers[networking.default_server].clone(),
            login_error: None,
            connecting: None,
            show_servers: false,
            show_disclaimer,
        }
    }

    /// A login begins at the time `now`: the error that was shown goes.
    pub fn login_attempt(&mut self, now: u64)
        ensures
            final(self).login_error.is_none(),
            final(self).connecting == Some(now),
            final(self).username == old(self).username,
            final(self).server_address == old(self).server_address,
            final(self).show_servers == old(self).show_servers,
            final(self).show_disclaimer == old(self).show_disclaimer,
    {
        self.login_error = None;
        self.connecting = Some(now);
    }

    /// The login failed: the error is shown, and no login is under way.
    pub fn login_error(&mut self, msg: String)
        ensures
            final(self).login_error == Some(msg),
            final(self).connecting.is_none(),
            final(self).username == old(self).username,
            final(self).server_address == old(self).server_address,
            final(self).show_servers == old(self).show_servers,
            final(self).show_disclaimer == old(self).show_disclaimer,
    {
        self.login_error = Some(msg);
        self.connecting = None;
    }

    /// The login went through: no login is under way.
    pub fn connected(&mut self)
        ensures
            final(self).connecting.is_none(),
            final(self).login_error == old(self).login_error,
            final(self).username == old(self).username,
            final(self).server_address == old(self).server_address,
            final(self).show_servers == old(self).show_servers,
            final(self).show_disclaimer == old(self).show_disclaimer,
    {
        self.connecting = None;
    }
}

} // verus!
