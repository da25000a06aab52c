//! The settings of a server.

use vstd::prelude::*;

verus! {

/// What a server is set up with.
#[derive(Clone, Debug, PartialEq, Eq)]
pub struct ServerSettings {
    /// The number of sessions from which on new connections are told that
    /// the server is full.
    pub max_players: usize,
    pub world_seed: u32,
    pub server_name: String,
    pub server_description: String,
    /// The time of the day at which the game starts, in milliseconds.
    pub start_time: u64,
    /// The directory that the world is saved in.
    pub world_folder: String,
    /// The aliases of the players who may use the commands of an admin.
    pub admins: Vec<String>,
    pub peaceful: bool,
    /// How long a client may stay silent before its session is dropped, in
    /// milliseconds.
    pub client_timeout: u64,
    /// The pause between two flushes of the save buffer, in milliseconds.
    pub save_interval: u32,
}

/// The aliases of a list as sequences of characters.
pub open spec fn names_view(names: Seq<String>) -> Seq<Seq<char>> {
    names.map_values(|s: String| s@)
}

/// A [`ServerSettings`] as a mathematical value.
pub struct SettingsView {
    pub max_players: usize,
    pub world_seed: u32,
    pub server_name: Seq<char>,
    pub server_description: Seq<char>,
    pub start_time: u64,
    pub world_folder: Seq<char>,
    pub admins: Seq<Seq<char>>,
    pub peaceful: bool,
    pub client_timeout: u64,
    pub save_interval: u32,
}

impl View for ServerSettings {
    type V = SettingsView;

    open spec fn view(&self) -> SettingsView {
        SettingsView {
            max_players: self.max_players,
            world_seed: self.world_seed,
            server_name: self.server_name@,
            server_description: self.server_description@,
            start_time: self.start_time,
            world_folder: self.world_folder@,
            admins: names_view(self.admins@),
            peaceful: self.peaceful,
            client_timeout: self.client_timeout,
            save_interval: self.save_interval,
        }
    }
}

/// The settings that a server has unless it is told others.
pub open spec fn default_settings() -> SettingsView {
    SettingsView {
        max_players: 100,
        world_seed: 1337,
        server_name: "Veloren Alpha"@,
        server_description: "This is the best Veloren server."@,
        start_time: 32_400_000,
        world_folder: "./worldsave"@,
        admins: Seq::empty(),
        peaceful: false,
        client_timeout: 20_000,
        save_interval: 1000,
    }
}

impl Default for ServerSettings {
    fn default() -> (settings: ServerSettings)
        ensures
            settings@ == default_settings(),
    {
        let settings = ServerSettings {
            max_players: 100,
            world_seed: 1337,
            server_name: String::from_str("Veloren Alpha"),
            server_description: String::from_str("This is the best Veloren server."),
            start_time: 32_400_000,
            world_folder: String::from_str("./worldsave"),
            admins: Vec::new(),
            peaceful: false,
            client_timeout: 20_000,
            save_interval: 1000,
        };
        assert(settings@.admins =~= Seq::<Seq<char>>::empty());
        settings
    }
}

impl ServerSettings {
    /// The settings of a server that one player runs for themself: as the
    /// default ones, under another name, with the player `singleplayer` as
    /// admin.
    pub fn singleplayer() -> (settings: ServerSettings)
        ensures
            settings@ == (SettingsView {
                server_name: "Singleplayer"@,
                server_description: "The main feature is loneliness!"@,
                admins: seq!["singleplayer"@],
                ..default_settings()
            }),
    {
        let mut admins: Vec<String> = Vec::new();
        admins.push(String::from_str("singleplayer"));
        let settings = ServerSettings {
            max_players: 100,
            world_seed: 1337,
            server_name: String::from_str("Singleplayer"),
            server_description: String::from_str("The main feature is loneliness!"),
            start_time: 32_400_000,
            world_folder: String::from_str("./worldsave"),
            admins,
            peaceful: false,
            client_timeout: 20_000,
            save_interval: 1000,
        };
        assert(settings@.admins =~= seq!["singleplayer"@]);
        settings
    }

    /// Whether the alias is among the admins.
    pub fn is_admin(&self, alias: &String) -> (r: bool)
        ensures
            r == self@.admins.contains(alias@),
    {
        let mut i: usize = 0;
        while i < self.admins.len()
            invariant
                i <= self.admins.len(),
                forall|j: int| 0 <= j < i ==> (#[trigger] self@.admins[j]) != alias@,
            decreases self.admins.len() - i,
        {
            if self.admins[i] == *alias {
                assert(self@.admins[i as int] == alias@);
                return true;
            }
            i = i + 1;
        }
        false
    }
}

} // verus!
