//! The declarative configuration of a server: its sites, its network
//! addresses, its database server and its resources.

use vstd::prelude::*;
use crate::text::{copy_opt_string, copy_strings, opt_view, str_eq, views};

verus! {

/// Where the backstage and the themes are found, and the secret that signs sessions.
#[derive(Clone, Debug, PartialEq, Eq)]
pub struct ResourceConfig {
    pub backstage: String,
    /// Theme name and theme directory; a name is looked up from the front.
    pub themes: Vec<(String, String)>,
    pub secure_random_string: Option<String>,
}

/// The address and the ports to listen on.
#[derive(Clone, Debug, PartialEq, Eq)]
pub struct NetConfig {
    pub ip: String,
    pub port: Vec<u16>,
}

/// How to reach the database server.
#[derive(Clone, Debug, PartialEq, Eq)]
pub struct DbConfig {
    pub host: Option<String>,
    pub port: Option<u16>,
    pub username: String,
    pub password: String,
}

/// One declared site.
#[derive(Clone, Debug, PartialEq, Eq)]
pub struct SiteConfig {
    pub name: String,
    pub site_type: String,
    pub database: Option<String>,
    pub host: String,
    pub alias: Option<Vec<String>>,
    pub theme: Option<String>,
}

/// The whole configuration.
#[derive(Clone, Debug, PartialEq, Eq)]
pub struct SitesConfig {
    pub resource: ResourceConfig,
    pub net: NetConfig,
    pub db: Option<DbConfig>,
    pub site: Vec<SiteConfig>,
}

pub struct DbConfigView {
    pub host: Option<Seq<char>>,
    pub port: Option<u16>,
    pub username: Seq<char>,
    pub password: Seq<char>,
}

pub struct SiteConfigView {
    pub name: Seq<char>,
    pub site_type: Seq<char>,
    pub database: Option<Seq<char>>,
    pub host: Seq<char>,
    pub alias: Option<Seq<Seq<char>>>,
    pub theme: Option<Seq<char>>,
}

pub struct SitesConfigView {
    pub backstage: Seq<char>,
    pub themes: Seq<(Seq<char>, Seq<char>)>,
    pub secret: Option<Seq<char>>,
    pub ip: Seq<char>,
    pub ports: Seq<u16>,
    pub db: Option<DbConfigView>,
    pub site: Seq<SiteConfigView>,
}

impl View for DbConfig {
    type V = DbConfigView;

    open spec fn view(&self) -> DbConfigView {
        DbConfigView {
            host: opt_view(self.host),
            port: self.port,
            username: self.username@,
            password: self.password@,
        }
    }
}

impl View for SiteConfig {
    type V = SiteConfigView;

    open spec fn view(&self) -> SiteConfigView {
        SiteConfigView {
            name: self.name@,
            site_type: self.site_type@,
            database: opt_view(self.database),
            host: self.host@,
            alias: match self.alias {
                Some(a) => Some(views(a@)),
                None => None,
            },
            theme: opt_view(self.theme),
        }
    }
}

impl View for SitesConfig {
    type V = SitesConfigView;

    open spec fn view(&self) -> SitesConfigView {
        SitesConfigView {
            backstage: self.resource.backstage@,
            themes: Seq::new(
                self.resource.themes@.len(),
                |i: int| (self.resource.themes@[i].0@, self.resource.themes@[i].1@),
            ),
            secret: opt_view(self.resource.secure_random_string),
            ip: self.net.ip@,
            ports: self.net.port@,
            db: match self.db {
                Some(d) => Some(d@),
                None => None,
            },
            site: Seq::new(self.site@.len(), |i: int| self.site@[i]@),
        }
    }
}

/// The directory of the first theme named `name` among `themes[from..]`.
pub open spec fn theme_dir_from(
    themes: Seq<(Seq<char>, Seq<char>)>,
    name: Seq<char>,
    from: int,
) -> Option<Seq<char>>
    decreases themes.len() - from,
{
    if from < 0 || from >= themes.len() {
        None
    } else if themes[from].0 == name {
        Some(themes[from].1)
    } else {
        theme_dir_from(themes, name, from + 1)
    }
}

/// The secret that signs sessions: the configured one, or the empty string.
pub open spec fn secret_of(cfg: SitesConfigView) -> Seq<char> {
    match cfg.secret {
        Some(s) => s,
        None => Seq::empty(),
    }
}

impl SiteConfig {
    /// A copy of this site's declaration.
    pub fn duplicate(&self) -> (r: SiteConfig)
        ensures
            r@ == self@,
    {
        let alias = match &self.alias {
            Some(a) => Some(copy_strings(a)),
            None => None,
        };
        SiteConfig {
            name: self.name.clone(),
            site_type: self.site_type.clone(),
            database: copy_opt_string(&self.database),
            host: self.host.clone(),
            alias,
            theme: copy_opt_string(&self.theme),
        }
    }
}

impl SitesConfig {
    /// The directory of the theme called `name`, if the resources declare it.
    pub fn theme_dir(&self, name: &str) -> (r: Option<String>)
        ensures
            opt_view(r) == theme_dir_from(self@.themes, name@, 0),
    {
        let mut i: usize = 0;
        while i < self.resource.themes.len()
            invariant
                i <= self.resource.themes.len(),
                theme_dir_from(self@.themes, name@, 0) == theme_dir_from(
                    self@.themes,
                    name@,
                    i as int,
                ),
            decreases self.resource.themes.len() - i,
        {
            if str_eq(self.resource.themes[i].0.as_str(), name) {
                return Some(self.resource.themes[i].1.clone());
            }
            i += 1;
        }
        None
    }

    /// The secret that signs sessions.
    pub fn secret(&self) -> (r: String)
        ensures
            r@ == secret_of(self@),
    {
        match &self.resource.secure_random_string {
            Some(s) => s.clone(),
            None => String::new(),
        }
    }
}

} // verus!
