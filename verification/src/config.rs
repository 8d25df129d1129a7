//! The configuration of an account, and where it is kept.
use vstd::prelude::*;
use vstd::string::*;

use crate::delay::ErrorMessage;

verus! {

/// The credentials of an account and the state kept between runs, with the
/// path of the file that holds them once it is known.
#[derive(Debug)]
pub struct Config {
    client_id: String,
    client_secret: String,
    instance: String,
    access_token: String,
    last_seen_id: Option<String>,
    archive_path: String,
    path: Option<String>,
}

impl Config {
    /// The client identifier.
    pub closed spec fn spec_client_id(&self) -> Seq<char> {
        self.client_id@
    }

    /// The client secret.
    pub closed spec fn spec_client_secret(&self) -> Seq<char> {
        self.client_secret@
    }

    /// The instance URL.
    pub closed spec fn spec_instance(&self) -> Seq<char> {
        self.instance@
    }

    /// The access token.
    pub closed spec fn spec_access_token(&self) -> Seq<char> {
        self.access_token@
    }

    /// The identifier of the last status seen, if any.
    pub closed spec fn spec_last_seen_id(&self) -> Option<Seq<char>> {
        match self.last_seen_id {
            Some(p) => Some(p@),
            None => None,
        }
    }

    /// The path of the archive.
    pub closed spec fn spec_archive_path(&self) -> Seq<char> {
        self.archive_path@
    }

    /// The path of the file that holds this configuration, if known.
    pub closed spec fn spec_path(&self) -> Option<Seq<char>> {
        match self.path {
            Some(p) => Some(p@),
            None => None,
        }
    }

    /// A configuration with no path yet and nothing seen.
    pub fn new(
        client_id: String,
        client_secret: String,
        instance: String,
        token: String,
        archive_path: String,
    ) -> (c: Config)
        ensures
            c.spec_client_id() == client_id@,
            c.spec_client_secret() == client_secret@,
            c.spec_instance() == instance@,
            c.spec_access_token() == token@,
            c.spec_last_seen_id() is None,
            c.spec_archive_path() == archive_path@,
            c.spec_path() is None,
    {
        Config {
            client_id,
            client_secret,
            instance,
            access_token: token,
            last_seen_id: None,
            archive_path,
            path: None,
        }
    }

    /// The client identifier.
    pub fn client_id(&self) -> (r: &str)
        ensures
            r@ == self.spec_client_id(),
    {
        self.client_id.as_str()
    }

    /// The client secret.
    pub fn client_secret(&self) -> (r: &str)
        ensures
            r@ == self.spec_client_secret(),
    {
        self.client_secret.as_str()
    }

    /// The instance URL.
    pub fn instance(&self) -> (r: &str)
        ensures
            r@ == self.spec_instance(),
    {
        self.instance.as_str()
    }

    /// The access token.
    pub fn access_token(&self) -> (r: &str)
        ensures
            r@ == self.spec_access_token(),
    {
        self.access_token.as_str()
    }

    /// The identifier of the last status seen, if any.
    pub fn last_seen_id(&self) -> (r: Option<&str>)
        ensures
            match r {
                Some(p) => self.spec_last_seen_id() == Some(p@),
                None => self.spec_last_seen_id() is None,
            },
    {
        match &self.last_seen_id {
            Some(p) => Some(p.as_str()),
            None => None,
        }
    }

    /// Records the identifier of the last status seen.
    pub fn set_last_seen_id(&mut self, id: Option<String>)
        ensures
            final(self).spec_last_seen_id() == match id {
                Some(p) => Some(p@),
                None => None::<Seq<char>>,
            },
            final(self).spec_client_id() == old(self).spec_client_id(),
            final(self).spec_client_secret() == old(self).spec_client_secret(),
            final(self).spec_instance() == old(self).spec_instance(),
            final(self).spec_access_token() == old(self).spec_access_token(),
            final(self).spec_archive_path() == old(self).spec_archive_path(),
            final(self).spec_path() == old(self).spec_path(),
    {
        self.last_seen_id = id;
    }

    /// The path of the archive.
    pub fn archive_path(&self) -> (r: &str)
        ensures
            r@ == self.spec_archive_path(),
    {
        self.archive_path.as_str()
    }

    /// The path that this configuration was read from or created at.
    pub fn path(&self) -> (r: Option<&str>)
        ensures
            match r {
                Some(p) => self.spec_path() == Some(p@),
                None => self.spec_path() is None,
            },
    {
        match &self.path {
            Some(p) => Some(p.as_str()),
            None => None,
        }
    }

    /// This configuration as read from the file at `config_path`.
    pub fn with_path(self, config_path: String) -> (c: Config)
        ensures
            c.spec_path() == Some(config_path@),
            c.spec_client_id() == self.spec_client_id(),
            c.spec_client_secret() == self.spec_client_secret(),
            c.spec_instance() == self.spec_instance(),
            c.spec_access_token() == self.spec_access_token(),
            c.spec_last_seen_id() == self.spec_last_seen_id(),
            c.spec_archive_path() == self.spec_archive_path(),
    {
        let mut c = self;
        c.path = Some(config_path);
        c
    }

    /// Where to write this configuration: its path, or an error if it has none.
    pub fn write(&self) -> (r: Result<&str, ErrorMessage>)
        ensures
            match self.spec_path() {
                Some(p) => r matches Ok(q) && q@ == p,
                None => r matches Err(e) && e.0@ == "unable to write config without a path"@,
            },
    {
        match &self.path {
            Some(p) => Ok(p.as_str()),
            None => Err(ErrorMessage(String::from_str("unable to write config without a path"))),
        }
    }

    /// The configuration to create at `config_path`: `config` with that path.
    /// Writing it then goes to `config_path`.
    pub fn create(config_path: String, config: Config) -> (c: Config)
        ensures
            c.spec_path() == Some(config_path@),
            c.spec_client_id() == config.spec_client_id(),
            c.spec_client_secret() == config.spec_client_secret(),
            c.spec_instance() == config.spec_instance(),
            c.spec_access_token() == config.spec_access_token(),
            c.spec_last_seen_id() == config.spec_last_seen_id(),
            c.spec_archive_path() == config.spec_archive_path(),
    {
        config.with_path(config_path)
    }
}

} // verus!
