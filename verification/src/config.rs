//! The assistant's configuration, as far as running it depends on it.
use vstd::prelude::*;

verus! {

/// A kind of connection.
#[derive(Clone, Copy, Debug, PartialEq, Eq, Structural)]
pub enum Preset {
    Adb,
    MuMuPro,
    PlayCover,
    Waydroid,
    Androws,
    Win32,
}

/// How to connect.
#[derive(Debug, PartialEq, Eq)]
pub struct ConnectionConfig {
    pub preset: Preset,
    pub address: Option<String>,
}

/// Which resources to load.
#[derive(Debug, PartialEq, Eq)]
pub struct ResourceConfig {
    pub user_resource: bool,
}

/// How to behave while tasks run.
#[derive(Debug, PartialEq, Eq)]
pub struct BehaviorConfig {
    pub auto_reconnect: bool,
}

/// The configuration that a profile holds.
#[derive(Debug, PartialEq, Eq)]
pub struct AsstConfig {
    pub connection: ConnectionConfig,
    pub resource: ResourceConfig,
    pub behavior: BehaviorConfig,
}

impl ConnectionConfig {
    /// The kind of connection.
    pub fn preset(&self) -> (preset: Preset)
        ensures
            preset == self.preset,
    {
        self.preset
    }

    /// Connects to `address` from now on.
    pub fn set_address(&mut self, address: String)
        ensures
            *final(self) == (ConnectionConfig {
                preset: old(self).preset,
                address: Some(address),
            }),
    {
        self.address = Some(address);
    }
}

impl ResourceConfig {
    /// Loads the user's own resources as well.
    pub fn use_user_resource(&mut self)
        ensures
            final(self).user_resource,
    {
        self.user_resource = true;
    }
}

/// The name of a kind of connection.
pub open spec fn label_of(preset: Preset) -> Seq<char> {
    match preset {
        Preset::Adb => "ADB"@,
        Preset::MuMuPro => "MuMuPro"@,
        Preset::PlayCover => "PlayCover"@,
        Preset::Waydroid => "Waydroid"@,
        Preset::Androws => "Androws"@,
        Preset::Win32 => "Win32"@,
    }
}

/// The name of a kind of connection.
pub fn connection_label(preset: Preset) -> (label: &'static str)
    ensures
        label@ == label_of(preset),
{
    match preset {
        Preset::Adb => "ADB",
        Preset::MuMuPro => "MuMuPro",
        Preset::PlayCover => "PlayCover",
        Preset::Waydroid => "Waydroid",
        Preset::Androws => "Androws",
        Preset::Win32 => "Win32",
    }
}

/// Different kinds of connection have different names.
pub proof fn law_labels_tell_presets_apart(left: Preset, right: Preset)
    ensures
        label_of(left) == label_of(right) <==> left == right,
{
    reveal_strlit("ADB");
    reveal_strlit("MuMuPro");
    reveal_strlit("PlayCover");
    reveal_strlit("Waydroid");
    reveal_strlit("Androws");
    reveal_strlit("Win32");
    assert("ADB"@.len() == 3 && "PlayCover"@.len() == 9 && "Waydroid"@.len() == 8
        && "Win32"@.len() == 5);
    assert("MuMuPro"@[0] == 'M' && "Androws"@[0] == 'A');
}

} // verus!
