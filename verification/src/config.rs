//! Global settings of the jail manager.

use crate::text::str_eq;
use vstd::prelude::*;

verus! {

/// The mapping that a list of pairs of tag and bridge stands for: a pair
/// later in the list replaces an earlier one with the same tag.
pub open spec fn pairs_map(entries: Seq<(String, String)>) -> Map<Seq<char>, Seq<char>>
    decreases entries.len(),
{
    if entries.len() == 0 {
        Map::empty()
    } else {
        pairs_map(entries.drop_last()).insert(entries.last().0@, entries.last().1@)
    }
}

/// A tag that no pair at or after `from` carries is mapped as the pairs
/// before `from` map it.
proof fn lemma_pairs_map_skip(entries: Seq<(String, String)>, from: int, tag: Seq<char>)
    requires
        0 <= from <= entries.len(),
        forall|j: int| from <= j < entries.len() ==> (#[trigger] entries[j]).0@ != tag,
    ensures
        pairs_map(entries).contains_key(tag) == pairs_map(entries.subrange(0, from)).contains_key(
            tag,
        ),
        pairs_map(entries).contains_key(tag) ==> pairs_map(entries)[tag] == pairs_map(
            entries.subrange(0, from),
        )[tag],
    decreases entries.len() - from,
{
    if from == entries.len() {
        assert(entries.subrange(0, from) =~= entries);
    } else {
        let head = entries.drop_last();
        lemma_pairs_map_skip(head, from, tag);
        assert(head.subrange(0, from) =~= entries.subrange(0, from));
    }
}

/// The host bridges by network tag.
///
/// The mapping is held as the list of the pairs that were entered, and what
/// it maps a tag to is what the last pair with that tag says. Its view is
/// the mapping itself, so that contracts speak of a map with texts as keys.
#[derive(Debug)]
pub struct Networks {
    pub entries: Vec<(String, String)>,
}

impl View for Networks {
    type V = Map<Seq<char>, Seq<char>>;

    open spec fn view(&self) -> Map<Seq<char>, Seq<char>> {
        pairs_map(self.entries@)
    }
}

impl Networks {
    /// No network at all.
    pub fn new() -> (r: Networks)
        ensures
            r@ == Map::<Seq<char>, Seq<char>>::empty(),
    {
        Networks { entries: Vec::new() }
    }

    /// Maps `tag` to `bridge`, in place of what it was mapped to.
    pub fn insert(&mut self, tag: &str, bridge: &str)
        ensures
            final(self)@ == old(self)@.insert(tag@, bridge@),
    {
        let ghost before = self.entries@;
        self.entries.push((String::from_str(tag), String::from_str(bridge)));
        assert(self.entries@.drop_last() =~= before);
    }

    /// The bridge that `tag` is mapped to.
    pub fn get(&self, tag: &str) -> (r: Option<&String>)
        ensures
            r is Some == self@.contains_key(tag@),
            r matches Some(bridge) ==> bridge@ == self@[tag@],
    {
        let mut i: usize = self.entries.len();
        while i > 0
            invariant
                i <= self.entries@.len(),
                forall|j: int| i <= j < self.entries@.len() ==> (#[trigger] self.entries@[j]).0@ != tag@,
            decreases i,
        {
            if str_eq(self.entries[i - 1].0.as_str(), tag) {
                proof {
                    lemma_pairs_map_skip(self.entries@, i as int, tag@);
                    let upto = self.entries@.subrange(0, i as int);
                    assert(upto.last() == self.entries@[i - 1]);
                }
                return Some(&self.entries[i - 1].1);
            }
            i = i - 1;
        }
        proof {
            lemma_pairs_map_skip(self.entries@, 0, tag@);
            assert(self.entries@.subrange(0, 0) =~= Seq::<(String, String)>::empty());
        }
        None
    }

    /// Whether `tag` is mapped to a bridge.
    pub fn contains_key(&self, tag: &str) -> (r: bool)
        ensures
            r == self@.contains_key(tag@),
    {
        self.get(tag).is_some()
    }
}

/// The settings of the jail manager, as its settings file gives them.
#[derive(Debug)]
pub struct Settings {
    /// The root dataset.
    pub pool: String,
    /// The base address of the image repository.
    pub repo: String,
    /// The directory of the jail database.
    pub conf_dir: String,
    /// The directory of the image manifests.
    pub image_dir: String,
    /// The devfs ruleset of an outer jail.
    pub devfs_ruleset: u32,
    /// The host bridge of each network tag.
    pub networks: Networks,
}

/// What the settings say, as plain values.
pub struct SettingsView {
    pub pool: Seq<char>,
    pub repo: Seq<char>,
    pub conf_dir: Seq<char>,
    pub image_dir: Seq<char>,
    pub devfs_ruleset: u32,
    pub networks: Map<Seq<char>, Seq<char>>,
}

impl View for Settings {
    type V = SettingsView;

    open spec fn view(&self) -> SettingsView {
        SettingsView {
            pool: self.pool@,
            repo: self.repo@,
            conf_dir: self.conf_dir@,
            image_dir: self.image_dir@,
            devfs_ruleset: self.devfs_ruleset,
            networks: self.networks@,
        }
    }
}

/// The devfs ruleset of an outer jail where the settings name none.
pub fn devfs_ruleset() -> (r: u32)
    ensures
        r == 4,
{
    4
}

/// The database directory where the settings name none.
pub fn default_conf_dir() -> (r: String)
    ensures
        r@ == "/etc/jails"@,
{
    String::from_str("/etc/jails")
}

/// The manifest directory where the settings name none.
pub fn default_image_dir() -> (r: String)
    ensures
        r@ == "/var/imgadm/images"@,
{
    String::from_str("/var/imgadm/images")
}

/// The image repository where the settings name none.
pub fn default_repo() -> (r: String)
    ensures
        r@ == "https://datasets.project-fifo.net/images"@,
{
    String::from_str("https://datasets.project-fifo.net/images")
}

/// The text that an optional setting stands for.
pub open spec fn text_or(value: Option<String>, fallback: Seq<char>) -> Seq<char> {
    match value {
        Some(s) => s@,
        None => fallback,
    }
}

impl Settings {
    /// The settings with every value that the file left out set to its
    /// default.
    pub fn with_defaults(
        pool: String,
        repo: Option<String>,
        conf_dir: Option<String>,
        image_dir: Option<String>,
        ruleset: Option<u32>,
        networks: Networks,
    ) -> (r: Settings)
        ensures
            r@.pool == pool@,
            r@.repo == text_or(repo, "https://datasets.project-fifo.net/images"@),
            r@.conf_dir == text_or(conf_dir, "/etc/jails"@),
            r@.image_dir == text_or(image_dir, "/var/imgadm/images"@),
            r@.devfs_ruleset == (match ruleset {
                Some(n) => n,
                None => 4u32,
            }),
            r@.networks == networks@,
    {
        Settings {
            pool,
            repo: match repo {
                Some(s) => s,
                None => default_repo(),
            },
            conf_dir: match conf_dir {
                Some(s) => s,
                None => default_conf_dir(),
            },
            image_dir: match image_dir {
                Some(s) => s,
                None => default_image_dir(),
            },
            devfs_ruleset: match ruleset {
                Some(n) => n,
                None => devfs_ruleset(),
            },
            networks,
        }
    }
}

/// The configuration that every command works with.
#[derive(Debug)]
pub struct Config {
    pub settings: Settings,
}

impl View for Config {
    type V = SettingsView;

    open spec fn view(&self) -> SettingsView {
        self.settings@
    }
}

} // verus!
