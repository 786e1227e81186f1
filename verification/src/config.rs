//! Who may watch what.
use crate::decimal::to_decimal;
use vstd::hash_map::StringHashMap;
use vstd::prelude::*;

verus! {

/// The configuration of the server and of its users.
pub struct Config {
    pub server: ServerConfig,
    pub user: StringHashMap<UserConfig>,
}

/// What holds for the server as a whole.
#[derive(Debug)]
pub struct ServerConfig {
    pub port: u16,
    /// The file with the host key; without one, a new key is made each time.
    pub host_key: Option<String>,
    pub host_key_rsa: Option<String>,
    /// The recording that is played before every session.
    pub header: Option<String>,
    /// The recording that is played after every session.
    pub footer: Option<String>,
}

/// What one user gets to see.
#[derive(Debug)]
pub struct UserConfig {
    pub castfile: String,
    /// Takes the place of the server's header.
    pub header: Option<String>,
    /// Takes the place of the server's footer.
    pub footer: Option<String>,
}

impl Clone for UserConfig {
    fn clone(&self) -> (r: UserConfig)
        ensures
            r == *self,
    {
        UserConfig {
            castfile: self.castfile.clone(),
            header: self.header.clone(),
            footer: self.footer.clone(),
        }
    }
}

/// The entry for a user: their own, or else that of the user `default`.
pub open spec fn lookup(users: Map<Seq<char>, UserConfig>, name: Seq<char>) -> Option<UserConfig> {
    if users.contains_key(name) {
        Some(users[name])
    } else if users.contains_key("default"@) {
        Some(users["default"@])
    } else {
        None
    }
}

/// The port that is listened on where the configuration names none.
pub fn default_port() -> (r: u16)
    ensures
        r == 4242,
{
    4242
}

/// The file that the configuration is read from: the one that was asked for,
/// or else `tailpipe.toml`.
pub fn config_path(asked_for: Option<String>) -> (r: String)
    ensures
        match asked_for {
            Some(path) => r == path,
            None => r@ == "tailpipe.toml"@,
        },
{
    match asked_for {
        Some(path) => path,
        None => "tailpipe.toml".to_owned(),
    }
}

/// The address that is listened on: the port, on every interface.
pub fn listen_address(port: u16) -> (r: String)
    ensures
        r@ == "0.0.0.0:"@ + crate::decimal::decimal(port as nat),
{
    "0.0.0.0:".to_owned().concat(to_decimal(port as u128).as_str())
}

impl Config {
    /// A configuration without users.
    pub fn new(server: ServerConfig) -> (r: Config)
        ensures
            r.server == server,
            r.user@ == Map::<Seq<char>, UserConfig>::empty(),
    {
        Config { server, user: StringHashMap::new() }
    }

    /// Adds a user, or replaces their entry.
    pub fn add_user(&mut self, name: String, user: UserConfig)
        ensures
            final(self).server == old(self).server,
            final(self).user@ == old(self).user@.insert(name@, user),
    {
        self.user.insert(name, user);
    }

    /// The entry that holds for a user, if there is one.
    pub fn user_config(&self, username: &str) -> (r: Option<&UserConfig>)
        ensures
            match r {
                Some(user) => lookup(self.user@, username@) == Some(*user),
                None => lookup(self.user@, username@) is None,
            },
    {
        match self.user.get(username) {
            Some(user) => Some(user),
            None => self.user.get("default"),
        }
    }
}

/// With an entry for `default`, every user has one.
pub proof fn law_default_user_admits_everyone(users: Map<Seq<char>, UserConfig>, name: Seq<char>)
    requires
        users.contains_key("default"@),
    ensures
        lookup(users, name) is Some,
        !users.contains_key(name) ==> lookup(users, name) == Some(users["default"@]),
{
}

/// A user's own entry does not depend on any other.
pub proof fn law_own_entry_comes_first(
    users: Map<Seq<char>, UserConfig>,
    name: Seq<char>,
    user: UserConfig,
    other: Seq<char>,
    entry: UserConfig,
)
    requires
        other != name,
    ensures
        lookup(users.insert(name, user), name) == Some(user),
        lookup(users.insert(name, user).insert(other, entry), name) == Some(user),
{
}

/// Nobody gets another user's entry: what a user has is theirs or that of
/// `default`, and nothing exactly where neither is there. No other entry
/// matters.
pub proof fn law_other_entries_do_not_matter(
    users: Map<Seq<char>, UserConfig>,
    others: Map<Seq<char>, UserConfig>,
    name: Seq<char>,
)
    requires
        users.contains_key(name) == others.contains_key(name),
        users.contains_key(name) ==> users[name] == others[name],
        users.contains_key("default"@) == others.contains_key("default"@),
        users.contains_key("default"@) ==> users["default"@] == others["default"@],
    ensures
        lookup(users, name) == lookup(others, name),
        users.contains_key(name) ==> lookup(users, name) == Some(users[name]),
        lookup(users, name) is None <==> !users.contains_key(name) && !users.contains_key(
            "default"@,
        ),
{
}

/// What a user has is what was added for them last, also under the name
/// `default`; and adding a user changes nothing for anyone else who has an
/// entry, and nothing of the server.
pub proof fn law_added_user_has_their_entry(
    config: &mut Config,
    name: String,
    entry: UserConfig,
    after: &Config,
    username: &str,
    found: Option<&UserConfig>,
    before: &Config,
    found_before: Option<&UserConfig>,
)
    requires
        *before == *old(config),
        call_ensures(Config::user_config, (before, username), found_before),
        call_ensures(Config::add_user, (config, name, entry), ()),
        *after == *final(config),
        call_ensures(Config::user_config, (after, username), found),
    ensures
        after.server == before.server,
        username@ == name@ ==> found == Some(&entry),
        username@ != name@ && before.user@.contains_key(username@) ==> found == found_before,
        username@ != name@ && name@ != "default"@ ==> found == found_before,
        username@ != name@ && name@ == "default"@ && !before.user@.contains_key(username@)
            ==> found == Some(&entry),
{
}

/// A configuration is read from the file that was asked for, and from
/// `tailpipe.toml` if none was. The server listens on the port on every
/// interface, on 4242 if none is set.
pub proof fn law_server_starts_as_told(
    asked_for: Option<String>,
    path: String,
    port: u16,
    address: String,
    fallback: u16,
)
    requires
        call_ensures(config_path, (asked_for,), path),
        call_ensures(listen_address, (port,), address),
        call_ensures(default_port, (), fallback),
    ensures
        asked_for matches Some(asked) ==> path == asked,
        asked_for is None ==> path@ == "tailpipe.toml"@,
        "0.0.0.0:"@.is_prefix_of(address@),
        crate::decimal::number(address@.skip(8)) == port,
        crate::decimal::all_digits(address@.skip(8)),
        fallback == 4242,
{
    reveal_strlit("0.0.0.0:");
    let everywhere = "0.0.0.0:"@;
    crate::decimal::law_decimal_reads_back(port as nat);
    assert(address@.skip(8) =~= crate::decimal::decimal(port as nat));
    assert(address@.take(8) =~= everywhere);
}

/// Without users nobody is found.
pub proof fn law_new_configuration_has_no_users(
    server: ServerConfig,
    config: Config,
    shared: &Config,
    name: &str,
    found: Option<&UserConfig>,
)
    requires
        call_ensures(Config::new, (server,), config),
        *shared == config,
        call_ensures(Config::user_config, (shared, name), found),
    ensures
        config.server == server,
        found is None,
{
}

} // verus!
