//! The user profile: where its files live and the settings it keeps (the
//! model in use).
use vstd::prelude::*;

verus! {

/// What the profile keeps between runs.
pub struct Settings {
    model: String,
}

impl Settings {
    pub closed spec fn model_spec(&self) -> Seq<char> {
        self.model@
    }

    pub fn new(model: String) -> (r: Self)
        ensures
            r.model_spec() == model@,
    {
        Settings { model }
    }

    /// The settings of a fresh profile: no model.
    pub fn empty() -> (r: Self)
        ensures
            r.model_spec().len() == 0,
    {
        Settings { model: String::new() }
    }

    pub fn set_model(&mut self, model: String)
        ensures
            final(self).model_spec() == model@,
    {
        self.model = model;
    }

    pub fn model(&self) -> (r: &str)
        ensures
            r@ == self.model_spec(),
    {
        self.model.as_str()
    }
}

/// What the profile falls back to.
pub struct ProfileDefaults {
    pub model: String,
}

/// The profile: its directory and its settings.
pub struct UserProfile {
    path: String,
    settings: Settings,
}

/// What reading the settings file gave.
pub enum SettingsRead {
    /// There is no settings file.
    Missing,
    /// The file could not be read.
    Unreadable(String),
    /// The file held these settings.
    Parsed(Settings),
    /// The file is not valid settings JSON (a syntax or data error).
    Corrupt,
    /// Decoding failed otherwise.
    Failed(String),
}

impl UserProfile {
    pub closed spec fn path_spec(&self) -> Seq<char> {
        self.path@
    }

    pub closed spec fn model_spec(&self) -> Seq<char> {
        self.settings.model_spec()
    }

    /// A profile kept under `path`, with empty settings.
    pub fn new(path: String) -> (r: Self)
        ensures
            r.path_spec() == path@,
            r.model_spec().len() == 0,
    {
        UserProfile { path, settings: Settings::empty() }
    }

    pub fn set_model(&mut self, model: String)
        ensures
            final(self).model_spec() == model@,
            final(self).path_spec() == old(self).path_spec(),
    {
        self.settings.set_model(model);
    }

    pub fn get_model(&self) -> (r: String)
        ensures
            r@ == self.model_spec(),
    {
        String::from_str(self.settings.model())
    }

    /// The directories the profile needs: its own, then `settings`,
    /// `sessions` and `temp` inside it.
    pub fn directories(&self) -> (r: Vec<String>)
        ensures
            r@.len() == 4,
            r@[0]@ == self.path_spec(),
            r@[1]@ == self.path_spec() + "/settings"@,
            r@[2]@ == self.path_spec() + "/sessions"@,
            r@[3]@ == self.path_spec() + "/temp"@,
    {
        let mut v: Vec<String> = Vec::new();
        v.push(self.path.clone());
        let mut s = self.path.clone();
        s.append("/settings");
        v.push(s);
        let mut s = self.path.clone();
        s.append("/sessions");
        v.push(s);
        let mut s = self.path.clone();
        s.append("/temp");
        v.push(s);
        v
    }

    /// The settings file: `settings/settings.json` under the profile.
    pub fn settings_file(&self) -> (r: String)
        ensures
            r@ == self.path_spec() + "/settings/settings.json"@,
    {
        let mut s = self.path.clone();
        s.append("/settings/settings.json");
        s
    }

    /// Takes in what reading the settings file gave: no file keeps the
    /// settings, read settings replace them, a corrupt file falls back to
    /// the default model, and a read or decode failure is reported.
    pub fn fetch(&mut self, read: SettingsRead, defaults: ProfileDefaults) -> (r: Result<(), String>)
        ensures
            final(self).path_spec() == old(self).path_spec(),
            match read {
                SettingsRead::Missing => r is Ok && final(self).model_spec() == old(
                    self,
                ).model_spec(),
                SettingsRead::Unreadable(e) => r == Err::<(), String>(e) && final(self).model_spec()
                    == old(self).model_spec(),
                SettingsRead::Parsed(s) => r is Ok && final(self).model_spec() == s.model_spec(),
                SettingsRead::Corrupt => r is Ok && final(self).model_spec() == defaults.model@,
                SettingsRead::Failed(e) => r == Err::<(), String>(e) && final(self).model_spec()
                    == old(self).model_spec(),
            },
    {
        match read {
            SettingsRead::Missing => Ok(()),
            SettingsRead::Unreadable(e) => Err(e),
            SettingsRead::Parsed(s) => {
                self.settings = s;
                Ok(())
            },
            SettingsRead::Corrupt => {
                self.settings = Settings::new(defaults.model);
                Ok(())
            },
            SettingsRead::Failed(e) => Err(e),
        }
    }

    /// The settings, for saving.
    pub fn settings(&self) -> (r: &Settings)
        ensures
            r.model_spec() == self.model_spec(),
    {
        &self.settings
    }
}

} // verus!
