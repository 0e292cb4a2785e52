//! Static configuration: where each repository's events go, which secret
//! signs them, and how GitHub logins are renamed in messages.

use vstd::prelude::*;
use crate::html::equal_text;

verus! {

/// ASCII case folding of one character, as a code point.
pub open spec fn folded(c: char) -> u32 {
    if 'A' <= c && c <= 'Z' {
        (c as u32 + 32) as u32
    } else {
        c as u32
    }
}

/// Whether two names are equal when ASCII case is ignored.
pub open spec fn same_name(a: Seq<char>, b: Seq<char>) -> bool {
    a.len() == b.len() && forall|i: int| 0 <= i < a.len() ==> folded(#[trigger] a[i]) == folded(b[i])
}

fn fold_char(c: char) -> (r: u32)
    ensures
        r == folded(c),
{
    if 'A' <= c && c <= 'Z' {
        c as u32 + 32
    } else {
        c as u32
    }
}

/// Compares two names ignoring ASCII case.
pub fn is_same_name(a: &str, b: &str) -> (r: bool)
    ensures
        r == same_name(a@, b@),
{
    let n = a.unicode_len();
    if n != b.unicode_len() {
        return false;
    }
    let mut i: usize = 0;
    while i < n
        invariant
            n == a@.len(),
            n == b@.len(),
            i <= n,
            forall|j: int| 0 <= j < i ==> folded(#[trigger] a@[j]) == folded(b@[j]),
        decreases n - i,
    {
        if fold_char(a.get_char(i)) != fold_char(b.get_char(i)) {
            return false;
        }
        i = i + 1;
    }
    true
}

/// The alias recorded last for a name equal to `name` ignoring case.
pub open spec fn alias_lookup(entries: Seq<(Seq<char>, Seq<char>)>, name: Seq<char>) -> Option<
    Seq<char>,
>
    decreases entries.len(),
{
    if entries.len() == 0 {
        None
    } else if same_name(entries.last().0, name) {
        Some(entries.last().1)
    } else {
        alias_lookup(entries.drop_last(), name)
    }
}

/// Display names for GitHub logins, matched without regard to ASCII case.
#[derive(Clone)]
pub struct UsernameAliases {
    entries: Vec<(String, String)>,
}

impl View for UsernameAliases {
    type V = Seq<(Seq<char>, Seq<char>)>;

    closed spec fn view(&self) -> Seq<(Seq<char>, Seq<char>)> {
        self.entries@.map_values(|e: (String, String)| (e.0@, e.1@))
    }
}

impl UsernameAliases {
    pub fn new() -> (r: UsernameAliases)
        ensures
            r@ == Seq::<(Seq<char>, Seq<char>)>::empty(),
    {
        let r = UsernameAliases { entries: Vec::new() };
        assert(r@ =~= Seq::<(Seq<char>, Seq<char>)>::empty());
        r
    }

    /// Shows `login` as `alias` from now on.
    pub fn insert(&mut self, login: String, alias: String)
        ensures
            final(self)@ == old(self)@.push((login@, alias@)),
    {
        self.entries.push((login, alias));
        assert(self@ =~= old(self)@.push((login@, alias@)));
    }

    /// The name under which `login` appears: its alias, or `login` itself.
    pub open spec fn display_name(&self, login: Seq<char>) -> Seq<char> {
        match alias_lookup(self@, login) {
            Some(alias) => alias,
            None => login,
        }
    }

    pub fn get(&self, login: &str) -> (r: String)
        ensures
            r@ == self.display_name(login@),
    {
        let mut i: usize = self.entries.len();
        assert(self@.subrange(0, i as int) =~= self@);
        while i > 0
            invariant
                i <= self.entries.len(),
                alias_lookup(self@, login@) == alias_lookup(self@.subrange(0, i as int), login@),
            decreases i,
        {
            let entry = &self.entries[i - 1];
            assert(self@.subrange(0, i as int).last() == (entry.0@, entry.1@));
            if is_same_name(entry.0.as_str(), login) {
                return entry.1.clone();
            }
            assert(self@.subrange(0, i as int).drop_last() =~= self@.subrange(0, i - 1));
            i = i - 1;
        }
        login.to_owned()
    }
}

impl Default for UsernameAliases {
    fn default() -> (r: UsernameAliases)
        ensures
            r@ == Seq::<(Seq<char>, Seq<char>)>::empty(),
    {
        UsernameAliases::new()
    }
}

/// Where one repository's events go.
pub struct RoomConfiguration {
    /// Rooms that get the full message.
    pub rooms: Vec<String>,
    /// The secret that signs this repository's webhooks; the global one if absent.
    pub secret: Option<String>,
    /// Rooms that get the shorter message.
    pub simple_rooms: Vec<String>,
}

/// Why a configuration cannot be used.
#[derive(Debug, PartialEq, Eq, Structural, Clone, Copy)]
pub enum ConfigError {
    /// Neither a default room nor a per-repository table was given.
    NoRooms,
    /// The per-repository table names a repository twice.
    DuplicateRepository,
}

pub struct Config {
    pub server: String,
    pub user: String,
    pub password: String,
    pub secret: String,
    pub port: u16,
    pub default_room_name: Option<String>,
    /// Entries by repository full name, each name once.
    pub room_configuration: Vec<(String, RoomConfiguration)>,
    /// What applies to a repository without an entry: the default room.
    pub default_configuration: RoomConfiguration,
    pub username_aliases: UsernameAliases,
}

/// Index of the first entry for repository `name`.
pub open spec fn entry_index(entries: Seq<(String, RoomConfiguration)>, name: Seq<char>) -> Option<
    nat,
>
    decreases entries.len(),
{
    if entries.len() == 0 {
        None
    } else if entries[0].0@ == name {
        Some(0)
    } else {
        match entry_index(entries.drop_first(), name) {
            Some(i) => Some(i + 1),
            None => None,
        }
    }
}

pub proof fn lemma_entry_index(entries: Seq<(String, RoomConfiguration)>, name: Seq<char>)
    ensures
        match entry_index(entries, name) {
            Some(i) => i < entries.len() && entries[i as int].0@ == name && forall|j: int|
                0 <= j < i ==> #[trigger] entries[j].0@ != name,
            None => forall|j: int| 0 <= j < entries.len() ==> #[trigger] entries[j].0@ != name,
        },
    decreases entries.len(),
{
    if entries.len() > 0 {
        lemma_entry_index(entries.drop_first(), name);
        assert forall|j: int| 1 <= j < entries.len() implies #[trigger] entries[j] == entries.drop_first()[j - 1] by {}
    }
}

impl Config {
    /// Puts a configuration together; at least one of a default room and a
    /// per-repository table is needed.
    pub fn new(
        server: String,
        user: String,
        password: String,
        secret: String,
        port: u16,
        default_room_name: Option<String>,
        room_configuration: Option<Vec<(String, RoomConfiguration)>>,
        username_aliases: UsernameAliases,
    ) -> (r: Result<Config, ConfigError>)
        ensures
            r == Err::<Config, ConfigError>(ConfigError::NoRooms) <==> default_room_name is None
                && room_configuration is None,
            r == Err::<Config, ConfigError>(ConfigError::DuplicateRepository) <==> (room_configuration matches Some(v)
                && !distinct_repositories(v@)),
            r matches Ok(c) ==> {
                &&& c.server == server
                &&& c.user == user
                &&& c.password == password
                &&& c.secret == secret
                &&& c.port == port
                &&& c.default_room() == default_room_name
                &&& c.entries() == match room_configuration {
                    Some(v) => v@,
                    None => Seq::empty(),
                }
                &&& c.username_aliases == username_aliases
                &&& c.wf()
            },
    {
        if default_room_name.is_none() && room_configuration.is_none() {
            return Err(ConfigError::NoRooms);
        }
        let entries = match room_configuration {
            Some(v) => v,
            None => Vec::new(),
        };
        if !has_distinct_repositories(&entries) {
            return Err(ConfigError::DuplicateRepository);
        }
        Ok(Config::from_parts(server, user, password, secret, port, default_room_name, entries, username_aliases))
    }

    /// A configuration from its parts, without the check for a room that
    /// [`Config::new`] makes; `room_configuration` names each repository once.
    pub fn from_parts(
        server: String,
        user: String,
        password: String,
        secret: String,
        port: u16,
        default_room_name: Option<String>,
        room_configuration: Vec<(String, RoomConfiguration)>,
        username_aliases: UsernameAliases,
    ) -> (c: Config)
        requires
            distinct_repositories(room_configuration@),
        ensures
            c.server == server,
            c.user == user,
            c.password == password,
            c.secret == secret,
            c.port == port,
            c.default_room() == default_room_name,
            c.entries() == room_configuration@,
            c.username_aliases == username_aliases,
            c.wf(),
    {
        let mut rooms: Vec<String> = Vec::new();
        match &default_room_name {
            Some(room) => rooms.push(room.clone()),
            None => {},
        }
        let default_configuration = RoomConfiguration { rooms, secret: None, simple_rooms: Vec::new() };
        Config {
            server,
            user,
            password,
            secret,
            port,
            default_room_name,
            room_configuration,
            default_configuration,
            username_aliases,
        }
    }

    pub open spec fn default_room(&self) -> Option<String> {
        self.default_room_name
    }

    pub open spec fn entries(&self) -> Seq<(String, RoomConfiguration)> {
        self.room_configuration@
    }

    /// The configuration used for repositories that have no entry of their own.
    pub open spec fn fallback(&self) -> RoomConfiguration {
        self.default_configuration
    }

    pub open spec fn wf(&self) -> bool {
        &&& distinct_repositories(self.room_configuration@)
        &&& self.default_configuration.secret is None
        &&& self.default_configuration.simple_rooms@.len() == 0
        &&& match self.default_room_name {
            Some(room) => self.default_configuration.rooms@ == seq![room],
            None => self.default_configuration.rooms@.len() == 0,
        }
    }

    /// The configuration that applies to repository `name`: its first entry,
    /// else the default room with the global secret.
    pub open spec fn configuration_for(&self, name: Seq<char>) -> RoomConfiguration {
        match entry_index(self.entries(), name) {
            Some(i) => self.entries()[i as int].1,
            None => self.fallback(),
        }
    }

    /// The secret that signs repository `name`'s webhooks.
    pub open spec fn secret_spec(&self, name: Seq<char>) -> Seq<char> {
        match self.configuration_for(name).secret {
            Some(s) => s@,
            None => self.secret@,
        }
    }

    pub fn rooms_for(&self, name: &str) -> (r: &RoomConfiguration)
        requires
            self.wf(),
        ensures
            *r == self.configuration_for(name@),
    {
        proof {
            lemma_entry_index(self.entries(), name@);
        }
        let mut i: usize = 0;
        while i < self.room_configuration.len()
            invariant
                i <= self.room_configuration.len(),
                self.entries() == self.room_configuration@,
                forall|j: int| 0 <= j < i ==> #[trigger] self.entries()[j].0@ != name@,
                match entry_index(self.entries(), name@) {
                    Some(k) => i <= k,
                    None => true,
                },
            decreases self.room_configuration.len() - i,
        {
            proof {
                lemma_entry_index(self.entries(), name@);
            }
            if equal_text(self.room_configuration[i].0.as_str(), name) {
                assert(self.entries()[i as int].0@ == name@);
                return &self.room_configuration[i].1;
            }
            assert(self.entries()[i as int].0@ != name@);
            i = i + 1;
        }
        proof {
            lemma_entry_index(self.entries(), name@);
        }
        &self.default_configuration
    }

    /// The secret that signs repository `name`'s webhooks; empty when they are
    /// not signed.
    pub fn secret_for(&self, name: &str) -> (r: &str)
        requires
            self.wf(),
        ensures
            r@ == self.secret_spec(name@),
    {
        match &self.rooms_for(name).secret {
            Some(s) => s.as_str(),
            None => self.secret.as_str(),
        }
    }

    /// Whether some message may go to `room`.
    pub open spec fn is_configured_room(&self, room: Seq<char>) -> bool {
        ||| (self.default_room() matches Some(d) && d@ == room)
        ||| exists|i: int, j: int|
            0 <= i < self.entries().len() && 0 <= j < self.entries()[i].1.rooms@.len()
                && #[trigger] self.entries()[i].1.rooms@[j]@ == room
        ||| exists|i: int, j: int|
            0 <= i < self.entries().len() && 0 <= j < self.entries()[i].1.simple_rooms@.len()
                && #[trigger] self.entries()[i].1.simple_rooms@[j]@ == room
    }

    /// Every room that a message may go to, each once.
    pub fn all_rooms(&self) -> (r: Vec<String>)
        requires
            self.wf(),
        ensures
            forall|room: Seq<char>| self.is_configured_room(room) <==> #[trigger] holds_name(r@, room),
            distinct_names(r@),
    {
        let mut r: Vec<String> = Vec::new();
        let mut i: usize = 0;
        while i < self.room_configuration.len()
            invariant
                i <= self.room_configuration.len(),
                self.entries() == self.room_configuration@,
                distinct_names(r@),
                forall|room: Seq<char>| #[trigger] holds_name(r@, room) <==> (
                    (exists|x: int, j: int|
                        0 <= x < i && 0 <= j < self.entries()[x].1.rooms@.len()
                            && #[trigger] self.entries()[x].1.rooms@[j]@ == room)
                    || (exists|x: int, j: int|
                        0 <= x < i && 0 <= j < self.entries()[x].1.simple_rooms@.len()
                            && #[trigger] self.entries()[x].1.simple_rooms@[j]@ == room)),
            decreases self.room_configuration.len() - i,
        {
            let entry = &self.room_configuration[i].1;
            let ghost before = r@;
            add_all(&mut r, &entry.rooms);
            let ghost middle = r@;
            add_all(&mut r, &entry.simple_rooms);
            assert forall|room: Seq<char>| (holds_name(r@, room)) <==> (
                (exists|x: int, j: int|
                    0 <= x < i + 1 && 0 <= j < self.entries()[x].1.rooms@.len()
                        && #[trigger] self.entries()[x].1.rooms@[j]@ == room)
                || (exists|x: int, j: int|
                    0 <= x < i + 1 && 0 <= j < self.entries()[x].1.simple_rooms@.len()
                        && #[trigger] self.entries()[x].1.simple_rooms@[j]@ == room)) by {
                if holds_name(r@, room) {
                    assert(holds_name(middle, room) || holds_name(entry.simple_rooms@, room));
                    if holds_name(before, room) {
                    } else if holds_name(entry.rooms@, room) {
                        let j = choose|k: int| 0 <= k < entry.rooms@.len() && #[trigger] entry.rooms@[k]@ == room;
                        assert(self.entries()[i as int].1.rooms@[j]@ == room);
                    } else {
                        let j = choose|k: int| 0 <= k < entry.simple_rooms@.len() && #[trigger] entry.simple_rooms@[k]@ == room;
                        assert(self.entries()[i as int].1.simple_rooms@[j]@ == room);
                    }
                }
                if exists|x: int, j: int|
                    0 <= x < i + 1 && 0 <= j < self.entries()[x].1.rooms@.len()
                        && #[trigger] self.entries()[x].1.rooms@[j]@ == room {
                    let (x, j) = choose|x: int, j: int|
                        0 <= x < i + 1 && 0 <= j < self.entries()[x].1.rooms@.len()
                            && #[trigger] self.entries()[x].1.rooms@[j]@ == room;
                    if x == i {
                        assert(entry.rooms@[j]@ == room);
                    }
                }
                if exists|x: int, j: int|
                    0 <= x < i + 1 && 0 <= j < self.entries()[x].1.simple_rooms@.len()
                        && #[trigger] self.entries()[x].1.simple_rooms@[j]@ == room {
                    let (x, j) = choose|x: int, j: int|
                        0 <= x < i + 1 && 0 <= j < self.entries()[x].1.simple_rooms@.len()
                            && #[trigger] self.entries()[x].1.simple_rooms@[j]@ == room;
                    if x == i {
                        assert(entry.simple_rooms@[j]@ == room);
                    }
                }
            }
            i = i + 1;
        }
        match &self.default_room_name {
            Some(room) => {
                let single = vec![room.clone()];
                let ghost before = r@;
                add_all(&mut r, &single);
                assert forall|name: Seq<char>| self.is_configured_room(name) <==> holds_name(r@, name) by {
                    if holds_name(r@, name) {
                        if holds_name(before, name) {
                        } else {
                            assert(single@[0]@ == name);
                        }
                    }
                    if name == room@ {
                        assert(single@[0]@ == name);
                    }
                }
            },
            None => {},
        }
        r
    }
}

/// No repository has two entries.
pub open spec fn distinct_repositories(entries: Seq<(String, RoomConfiguration)>) -> bool {
    forall|a: int, b: int| #![trigger entries[a], entries[b]] 0 <= a < b < entries.len() ==> entries[a].0@ != entries[b].0@
}

pub fn has_distinct_repositories(entries: &Vec<(String, RoomConfiguration)>) -> (r: bool)
    ensures
        r == distinct_repositories(entries@),
{
    let mut b: usize = 0;
    while b < entries.len()
        invariant
            b <= entries.len(),
            forall|x: int, y: int| #![trigger entries@[x], entries@[y]] 0 <= x < y < b ==> entries@[x].0@ != entries@[y].0@,
        decreases entries.len() - b,
    {
        let mut a: usize = 0;
        while a < b
            invariant
                a <= b < entries.len(),
                forall|x: int, y: int| #![trigger entries@[x], entries@[y]] 0 <= x < y < b ==> entries@[x].0@ != entries@[y].0@,
                forall|x: int| #![trigger entries@[x]] 0 <= x < a ==> entries@[x].0@ != entries@[b as int].0@,
            decreases b - a,
        {
            if equal_text(entries[a].0.as_str(), entries[b].0.as_str()) {
                return false;
            }
            a = a + 1;
        }
        b = b + 1;
    }
    true
}

/// No two elements of `v` read the same.
pub open spec fn distinct_names(v: Seq<String>) -> bool {
    forall|a: int, b: int| #![trigger v[a], v[b]] 0 <= a < b < v.len() ==> v[a]@ != v[b]@
}

/// Whether some element of `v` reads `name`.
pub open spec fn holds_name(v: Seq<String>, name: Seq<char>) -> bool {
    exists|k: int| 0 <= k < v.len() && #[trigger] v[k]@ == name
}

/// Whether some element of `v` reads `s`.
pub fn contains_name(v: &Vec<String>, s: &str) -> (r: bool)
    ensures
        r == holds_name(v@, s@),
{
    let mut i: usize = 0;
    while i < v.len()
        invariant
            i <= v.len(),
            forall|k: int| 0 <= k < i ==> #[trigger] v@[k]@ != s@,
        decreases v.len() - i,
    {
        if equal_text(v[i].as_str(), s) {
            return true;
        }
        i = i + 1;
    }
    false
}

/// Appends each name of `names` that `out` does not hold yet.
fn add_all(out: &mut Vec<String>, names: &Vec<String>)
    requires
        distinct_names(old(out)@),
    ensures
        distinct_names(final(out)@),
        forall|room: Seq<char>| #[trigger] holds_name(final(out)@, room) <==> (
            (holds_name(old(out)@, room))
            || (holds_name(names@, room))),
{
    let ghost start = out@;
    let mut i: usize = 0;
    while i < names.len()
        invariant
            i <= names.len(),
            distinct_names(out@),
            forall|room: Seq<char>| #[trigger] holds_name(out@, room) <==> (
                (holds_name(start, room))
                || (exists|k: int| 0 <= k < i && #[trigger] names@[k]@ == room)),
        decreases names.len() - i,
    {
        let name = &names[i];
        if !contains_name(out, name.as_str()) {
            let ghost prev = out@;
            out.push(name.clone());
            assert forall|room: Seq<char>| #[trigger] holds_name(out@, room) <==> (
                (holds_name(start, room))
                || (exists|k: int| 0 <= k < i + 1 && #[trigger] names@[k]@ == room)) by {
                if holds_name(out@, room) {
                    let k = choose|k: int| 0 <= k < out@.len() && #[trigger] out@[k]@ == room;
                    if k < prev.len() {
                        assert(prev[k]@ == room);
                        assert(holds_name(prev, room));
                    } else {
                        assert(names@[i as int]@ == room);
                    }
                }
                if exists|k: int| 0 <= k < i + 1 && #[trigger] names@[k]@ == room {
                    let k = choose|k: int| 0 <= k < i + 1 && #[trigger] names@[k]@ == room;
                    if k == i {
                        assert(out@[prev.len() as int]@ == room);
                    } else {
                        assert(holds_name(prev, room));
                        let m = choose|m: int| 0 <= m < prev.len() && #[trigger] prev[m]@ == room;
                        assert(out@[m]@ == room);
                    }
                } else if holds_name(start, room) {
                    assert(holds_name(prev, room));
                    let m = choose|m: int| 0 <= m < prev.len() && #[trigger] prev[m]@ == room;
                    assert(out@[m]@ == room);
                }
            }
        } else {
            assert forall|room: Seq<char>| #[trigger] holds_name(out@, room) <==> (
                (holds_name(start, room))
                || (exists|k: int| 0 <= k < i + 1 && #[trigger] names@[k]@ == room)) by {
                if exists|k: int| 0 <= k < i + 1 && #[trigger] names@[k]@ == room {
                    let k = choose|k: int| 0 <= k < i + 1 && #[trigger] names@[k]@ == room;
                    if k == i {
                        assert(name@ == room);
                    }
                }
            }
        }
        i = i + 1;
    }
}

} // verus!
