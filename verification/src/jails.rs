//! The jails of the host: the list that the host reports, and the calls
//! that start and stop a jail.

use crate::command::{
    args1, args2, args3, args4, call, fatal, step_views, tolerated, Command, Step, StepView,
};
use crate::config::Config;
use crate::errors::{Error, ErrorView, GenericError, NumberError};
use crate::jail_config::{IFace, IFaceView, JailConfig, JailConfigView, NICView};
use crate::jdb::{IdxEntry, IdxEntryView};
use crate::text::{
    decimal, parse_u64, parse_u64_spec, split, split_spec, str_eq, texts, trim, trim_spec,
    u64_to_string,
};
use crate::uuid::hyphenated_spec;
use vstd::prelude::*;

verus! {

/// A jail as the host reports it.
#[derive(Debug, PartialEq, Eq)]
pub struct JailOSEntry {
    /// The name of the jail: the identifier for an outer jail, the
    /// identifier twice with a dot between for an inner one.
    pub uuid: String,
    /// The number that the host gave the jail.
    pub id: u64,
}

/// A jail as the host reports it, as plain values.
pub struct JailOSEntryView {
    pub uuid: Seq<char>,
    pub id: u64,
}

impl View for JailOSEntry {
    type V = JailOSEntryView;

    open spec fn view(&self) -> JailOSEntryView {
        JailOSEntryView { uuid: self.uuid@, id: self.id }
    }
}

impl Clone for JailOSEntry {
    fn clone(&self) -> (r: JailOSEntry)
        ensures
            r@ == self@,
    {
        JailOSEntry { uuid: self.uuid.clone(), id: self.id }
    }
}

/// What a line of the host's list of jails says: the number of the jail,
/// a space, and its name. Anything after a second space is left aside.
pub open spec fn entry_spec(line: Seq<char>) -> Result<JailOSEntryView, ErrorView> {
    let parts = split_spec(line, ' ');
    match parse_u64_spec(parts[0]) {
        None => Err(ErrorView::Number(parts[0])),
        Some(id) => if parts.len() < 2 {
            Err(ErrorView::Generic("NAME field missing"@))
        } else {
            Ok(JailOSEntryView { uuid: parts[1], id })
        },
    }
}

/// Reads a line of the host's list of jails.
pub fn deconstruct_entry(line: &str) -> (r: Result<JailOSEntry, Error>)
    ensures
        match r {
            Ok(e) => entry_spec(line@) == Ok::<JailOSEntryView, ErrorView>(e@),
            Err(e) => entry_spec(line@) == Err::<JailOSEntryView, ErrorView>(e@),
        },
{
    let parts = split(line, ' ');
    assert(texts(parts@)[0] == parts@[0]@);
    match parse_u64(parts[0].as_str()) {
        None => Err(Error::Number(NumberError::new(parts[0].as_str()))),
        Some(id) => {
            if parts.len() < 2 {
                Err(Error::Generic(GenericError::new("NAME field missing")))
            } else {
                assert(texts(parts@)[1] == parts@[1]@);
                Ok(JailOSEntry { uuid: parts[1].clone(), id })
            }
        },
    }
}

/// The numbers of the jails by name: a jail later in the list replaces an
/// earlier one of the same name.
pub open spec fn jail_map(entries: Seq<JailOSEntry>) -> Map<Seq<char>, u64>
    decreases entries.len(),
{
    if entries.len() == 0 {
        Map::empty()
    } else {
        jail_map(entries.drop_last()).insert(entries.last().uuid@, entries.last().id)
    }
}

proof fn lemma_jail_map_skip(entries: Seq<JailOSEntry>, from: int, name: Seq<char>)
    requires
        0 <= from <= entries.len(),
        forall|j: int| from <= j < entries.len() ==> (#[trigger] entries[j]).uuid@ != name,
    ensures
        jail_map(entries).contains_key(name) == jail_map(entries.subrange(0, from)).contains_key(
            name,
        ),
        jail_map(entries).contains_key(name) ==> jail_map(entries)[name] == jail_map(
            entries.subrange(0, from),
        )[name],
    decreases entries.len() - from,
{
    if from == entries.len() {
        assert(entries.subrange(0, from) =~= entries);
    } else {
        let head = entries.drop_last();
        lemma_jail_map_skip(head, from, name);
        assert(head.subrange(0, from) =~= entries.subrange(0, from));
    }
}

/// The jails that the host reports, by name.
///
/// The jails are held as the list of the lines that were read, and the jail
/// of a name is what the last line with that name says. The view is the
/// mapping from names to numbers.
#[derive(Debug)]
pub struct JailList {
    pub entries: Vec<JailOSEntry>,
}

impl View for JailList {
    type V = Map<Seq<char>, u64>;

    open spec fn view(&self) -> Map<Seq<char>, u64> {
        jail_map(self.entries@)
    }
}

impl JailList {
    /// No jail at all.
    pub fn new() -> (r: JailList)
        ensures
            r@ == Map::<Seq<char>, u64>::empty(),
    {
        JailList { entries: Vec::new() }
    }

    /// Records a jail, in place of one of the same name.
    pub fn insert(&mut self, entry: JailOSEntry)
        ensures
            final(self)@ == old(self)@.insert(entry.uuid@, entry.id),
    {
        let ghost before = self.entries@;
        self.entries.push(entry);
        assert(self.entries@.drop_last() =~= before);
    }

    /// The jail of the given name.
    pub fn get(&self, name: &str) -> (r: Option<JailOSEntry>)
        ensures
            r is Some == self@.contains_key(name@),
            r matches Some(e) ==> e@.uuid == name@ && e@.id == self@[name@],
    {
        let mut i: usize = self.entries.len();
        while i > 0
            invariant
                i <= self.entries@.len(),
                forall|j: int|
                    i <= j < self.entries@.len() ==> (#[trigger] self.entries@[j]).uuid@ != name@,
            decreases i,
        {
            if str_eq(self.entries[i - 1].uuid.as_str(), name) {
                proof {
                    lemma_jail_map_skip(self.entries@, i as int, name@);
                    let upto = self.entries@.subrange(0, i as int);
                    assert(upto.last() == self.entries@[i - 1]);
                }
                return Some(self.entries[i - 1].clone());
            }
            i = i - 1;
        }
        proof {
            lemma_jail_map_skip(self.entries@, 0, name@);
            assert(self.entries@.subrange(0, 0) =~= Seq::<JailOSEntry>::empty());
        }
        None
    }
}

/// The jails that a run of lines lists, each line read as `entry_spec`
/// reads it and empty lines left out; the error of the first line that
/// cannot be read.
pub open spec fn entries_spec(lines: Seq<Seq<char>>) -> Result<Map<Seq<char>, u64>, ErrorView>
    decreases lines.len(),
{
    if lines.len() == 0 {
        Ok(Map::empty())
    } else {
        match entries_spec(lines.drop_last()) {
            Err(e) => Err(e),
            Ok(m) => if lines.last().len() == 0 {
                Ok(m)
            } else {
                match entry_spec(lines.last()) {
                    Err(e) => Err(e),
                    Ok(e) => Ok(m.insert(e.uuid, e.id)),
                }
            },
        }
    }
}

/// The jails that the host's list names.
pub open spec fn list_spec(reply: Seq<char>) -> Result<Map<Seq<char>, u64>, ErrorView> {
    entries_spec(split_spec(reply, '\n'))
}

/// The call that lists the jails of the host, one line for each with its
/// number and its name.
pub fn jls() -> (r: Command)
    ensures
        r@ == call("jls"@, seq!["-q"@, "jid"@, "name"@]),
{
    Command::new("jls", args3("-q", "jid", "name"))
}

/// Reads the host's list of jails.
pub fn list(reply: &str) -> (r: Result<JailList, Error>)
    ensures
        match r {
            Ok(l) => list_spec(reply@) == Ok::<Map<Seq<char>, u64>, ErrorView>(l@),
            Err(e) => list_spec(reply@) == Err::<Map<Seq<char>, u64>, ErrorView>(e@),
        },
{
    let lines = split(reply, '\n');
    let mut res = JailList::new();
    let mut i: usize = 0;
    assert(texts(lines@).subrange(0, 0) =~= Seq::<Seq<char>>::empty());
    while i < lines.len()
        invariant
            i <= lines@.len(),
            texts(lines@) == split_spec(reply@, '\n'),
            entries_spec(texts(lines@).subrange(0, i as int)) == Ok::<
                Map<Seq<char>, u64>,
                ErrorView,
            >(res@),
        decreases lines@.len() - i,
    {
        proof {
            let next = texts(lines@).subrange(0, i + 1);
            assert(next.drop_last() =~= texts(lines@).subrange(0, i as int));
            assert(next.last() == lines@[i as int]@);
        }
        if lines[i].as_str().unicode_len() != 0 {
            match deconstruct_entry(lines[i].as_str()) {
                Ok(entry) => {
                    res.insert(entry);
                },
                Err(e) => {
                    proof {
                        lemma_entries_error(texts(lines@), i + 1);
                    }
                    return Err(e);
                },
            }
        }
        i = i + 1;
    }
    assert(texts(lines@).subrange(0, i as int) =~= texts(lines@));
    Ok(res)
}

/// Once a line cannot be read, the lines after it change nothing.
proof fn lemma_entries_error(lines: Seq<Seq<char>>, k: int)
    requires
        0 <= k <= lines.len(),
        entries_spec(lines.subrange(0, k)) is Err,
    ensures
        entries_spec(lines) == entries_spec(lines.subrange(0, k)),
    decreases lines.len() - k,
{
    if k == lines.len() {
        assert(lines.subrange(0, k) =~= lines);
    } else {
        let next = lines.subrange(0, k + 1);
        assert(next.drop_last() =~= lines.subrange(0, k));
        lemma_entries_error(lines, k + 1);
    }
}

/// The view of a jail that the host may report.
pub open spec fn os_entry_view(e: Option<JailOSEntry>) -> Option<JailOSEntryView> {
    match e {
        Some(e) => Some(e@),
        None => None,
    }
}

/// A jail of the database with what the host reports of it.
#[derive(Debug)]
pub struct Jail {
    /// The entry of the jail in the index.
    pub idx: IdxEntry,
    /// The configuration of the jail.
    pub config: JailConfig,
    /// The inner jail, where it runs.
    pub inner: Option<JailOSEntry>,
    /// The outer jail, where it runs.
    pub outer: Option<JailOSEntry>,
}

/// A jail of the database, as plain values.
pub struct JailView {
    pub idx: IdxEntryView,
    pub config: JailConfigView,
    pub inner: Option<JailOSEntryView>,
    pub outer: Option<JailOSEntryView>,
}

impl View for Jail {
    type V = JailView;

    open spec fn view(&self) -> JailView {
        JailView {
            idx: self.idx@,
            config: self.config@,
            inner: os_entry_view(self.inner),
            outer: os_entry_view(self.outer),
        }
    }
}

/// The name of an interface on the host once its jail runs: the letter
/// `j`, the number of the outer jail, a colon and the name of the
/// interface inside the jail.
pub open spec fn host_name(id: u64, interface: Seq<char>) -> Seq<char> {
    "j"@ + decimal(id as nat) + ":"@ + interface
}

/// The name of an interface on the host once its jail runs.
fn host_name_string(id: u64, interface: &str) -> (r: String)
    ensures
        r@ == host_name(id, interface@),
{
    let mut s = String::from_str("j");
    let n = u64_to_string(id);
    s.append(n.as_str());
    s.append(":");
    s.append(interface);
    s
}

/// The place of the device file system of the outer jail.
pub open spec fn outer_devfs(root: Seq<char>) -> Seq<char> {
    "/"@ + root + "/root/dev"@
}

/// The place of the device file system of the inner jail.
pub open spec fn inner_devfs(root: Seq<char>) -> Seq<char> {
    "/"@ + root + "/root/jail/dev"@
}

fn outer_devfs_string(root: &str) -> (r: String)
    ensures
        r@ == outer_devfs(root@),
{
    let mut s = String::from_str("/");
    s.append(root);
    s.append("/root/dev");
    s
}

fn inner_devfs_string(root: &str) -> (r: String)
    ensures
        r@ == inner_devfs(root@),
{
    let mut s = String::from_str("/");
    s.append(root);
    s.append("/root/jail/dev");
    s
}

/// The calls that give the host's halves of the pairs their names, one for
/// each interface.
pub open spec fn rename_steps(id: u64, ifs: Seq<IFaceView>) -> Seq<StepView> {
    Seq::new(
        ifs.len(),
        |i: int|
            tolerated(
                call(
                    "/sbin/ifconfig"@,
                    seq![ifs[i].epair + "a"@, "name"@, host_name(id, ifs[i].iface)],
                ),
            ),
    )
}

/// The calls that destroy the interfaces of a jail on the host, one for
/// each interface.
pub open spec fn destroy_steps(id: u64, nics: Seq<NICView>) -> Seq<StepView> {
    Seq::new(
        nics.len(),
        |i: int|
            tolerated(call("/sbin/ifconfig"@, seq![host_name(id, nics[i].interface), "destroy"@])),
    )
}

impl JailView {
    /// The calls to make before the jail is created: the resource limits,
    /// then the device file systems of the outer and of the inner jail. The
    /// failure of any of them ends the start.
    pub open spec fn start(self) -> Seq<StepView> {
        seq![
            fatal(call("rctl"@, self.config.rctl_limits()), "Could not set jail limits"@),
            fatal(
                call("mount"@, seq!["-t"@, "devfs"@, "devfs"@, outer_devfs(self.idx.root)]),
                "Could mount outer devfs"@,
            ),
            fatal(
                call("mount"@, seq!["-t"@, "devfs"@, "devfs"@, inner_devfs(self.idx.root)]),
                "Could not remove resource limits"@,
            ),
        ]
    }

    /// The calls that stop the jail without its interfaces: the outer jail
    /// is removed, which must succeed; then the device file systems of the
    /// inner and of the outer jail are taken away and the resource limits
    /// lifted, whether or not each of these succeeds.
    pub open spec fn stop_jail(self) -> Seq<StepView> {
        seq![
            fatal(
                call("jail"@, seq!["-r"@, hyphenated_spec(self.idx.uuid)]),
                "Could not stop jail"@,
            ),
            tolerated(call("umount"@, seq![inner_devfs(self.idx.root)])),
            tolerated(call("umount"@, seq![outer_devfs(self.idx.root)])),
            tolerated(call("rctl"@, seq!["-r"@, "jail:"@ + hyphenated_spec(self.idx.uuid)])),
        ]
    }

    /// The calls that stop the jail: those of `stop_jail`, then, where the
    /// outer jail is known, the calls that destroy its interfaces.
    pub open spec fn stop(self) -> Seq<StepView> {
        match self.outer {
            Some(outer) => self.stop_jail() + destroy_steps(outer.id, self.config.nics),
            None => self.stop_jail(),
        }
    }
}

impl Jail {
    /// The calls to make, in this order, before the jail is created.
    pub fn start(&self) -> (r: Vec<Step>)
        ensures
            step_views(r@) == self@.start(),
    {
        let mut steps: Vec<Step> = Vec::new();
        let limits = self.config.rctl_limits();
        steps.push(Step::fatal(Command::new("rctl", limits), "Could not set jail limits"));
        let outer = outer_devfs_string(self.idx.root.as_str());
        steps.push(
            Step::fatal(
                Command::new("mount", args4("-t", "devfs", "devfs", outer.as_str())),
                "Could mount outer devfs",
            ),
        );
        let inner = inner_devfs_string(self.idx.root.as_str());
        steps.push(
            Step::fatal(
                Command::new("mount", args4("-t", "devfs", "devfs", inner.as_str())),
                "Could not remove resource limits",
            ),
        );
        assert(step_views(steps@) =~= self@.start());
        steps
    }

    /// The calls to make once the outer jail runs under the number `id`:
    /// each interface's half on the host gets its name.
    pub fn rename_interfaces(id: u64, ifs: &Vec<IFace>) -> (r: Vec<Step>)
        ensures
            step_views(r@) == rename_steps(id, crate::jail_config::iface_views(ifs@)),
    {
        let mut steps: Vec<Step> = Vec::new();
        let ghost views = crate::jail_config::iface_views(ifs@);
        let mut i: usize = 0;
        while i < ifs.len()
            invariant
                i <= ifs@.len(),
                views == crate::jail_config::iface_views(ifs@),
                steps@.len() == i,
                forall|j: int| 0 <= j < i ==> steps@[j]@ == rename_steps(id, views)[j],
            decreases ifs@.len() - i,
        {
            let mut half = ifs[i].epair.clone();
            half.append("a");
            let target = host_name_string(id, ifs[i].iface.as_str());
            steps.push(
                Step::tolerated(
                    Command::new("/sbin/ifconfig", args3(half.as_str(), "name", target.as_str())),
                ),
            );
            assert(views[i as int] == ifs@[i as int]@);
            i = i + 1;
        }
        assert(step_views(steps@) =~= rename_steps(id, views));
        steps
    }

    /// The calls to make, in this order, to stop the jail.
    pub fn stop(&self) -> (r: Vec<Step>)
        ensures
            step_views(r@) == self@.stop(),
    {
        let mut steps: Vec<Step> = Vec::new();
        let id = self.idx.uuid.hyphenated();
        steps.push(
            Step::fatal(Command::new("jail", args2("-r", id.as_str())), "Could not stop jail"),
        );
        let inner = inner_devfs_string(self.idx.root.as_str());
        steps.push(Step::tolerated(Command::new("umount", args1(inner.as_str()))));
        let outer = outer_devfs_string(self.idx.root.as_str());
        steps.push(Step::tolerated(Command::new("umount", args1(outer.as_str()))));
        let mut group = String::from_str("jail:");
        group.append(id.as_str());
        steps.push(Step::tolerated(Command::new("rctl", args2("-r", group.as_str()))));
        assert(step_views(steps@) =~= self@.stop_jail());
        match &self.outer {
            None => {},
            Some(outer) => {
                let ghost head = self@.stop_jail();
                let ghost tail = destroy_steps(outer.id, self@.config.nics);
                let mut i: usize = 0;
                while i < self.config.nics.len()
                    invariant
                        i <= self.config.nics@.len(),
                        head.len() == 4,
                        tail == destroy_steps(outer.id, self@.config.nics),
                        steps@.len() == 4 + i,
                        forall|j: int| 0 <= j < 4 ==> steps@[j]@ == head[j],
                        forall|j: int| 0 <= j < i ==> steps@[4 + j]@ == tail[j],
                    decreases self.config.nics@.len() - i,
                {
                    let target = host_name_string(outer.id, self.config.nics[i].interface.as_str());
                    steps.push(
                        Step::tolerated(
                            Command::new("/sbin/ifconfig", args2(target.as_str(), "destroy")),
                        ),
                    );
                    assert(self@.config.nics[i as int] == self.config.nics@[i as int]@);
                    i = i + 1;
                }
                assert(step_views(steps@) =~= head + tail);
            },
        }
        steps
    }
}

/// The arguments that create a jail, and its interfaces.
#[derive(Debug)]
pub struct CreateArgs {
    pub args: Vec<String>,
    pub ifs: Vec<IFace>,
}

/// The start-up scripts of the interfaces, one after the other.
pub open spec fn scripts(ifs: Seq<IFaceView>) -> Seq<char>
    decreases ifs.len(),
{
    if ifs.len() == 0 {
        Seq::<char>::empty()
    } else {
        scripts(ifs.drop_last()) + ifs.last().start_script
    }
}

/// The command that creates the inner jail from inside the outer one.
pub open spec fn inner_jail(id: Seq<char>, hostname: Seq<char>) -> Seq<char> {
    "jail -c persist name="@ + id + " host.hostname="@ + hostname
        + " path=/jail ip4=inherit devfs_ruleset=4 securelevel=2 sysvmsg=new sysvsem=new sysvshm=new allow.raw_sockets exec.start='sh /etc/rc'"@
}

/// What the outer jail runs when it starts: the loopback interface is
/// brought up; then come the start-up scripts of the interfaces, in their
/// order, and the creation of the inner jail.
pub open spec fn exec_start(jail: JailView, ifs: Seq<IFaceView>) -> Seq<char> {
    "/sbin/ifconfig lo0 127.0.0.1 up; "@ + scripts(ifs) + inner_jail(
        hyphenated_spec(jail.idx.uuid),
        jail.config.hostname,
    )
}

/// The arguments that do not depend on the interfaces.
pub open spec fn fixed_args(ruleset: u32, jail: JailView) -> Seq<Seq<char>> {
    seq![
        "-i"@,
        "-c"@,
        "persist"@,
        "name="@ + hyphenated_spec(jail.idx.uuid),
        "path=/"@ + jail.idx.root + "/root"@,
        "host.hostuuid="@ + hyphenated_spec(jail.idx.uuid),
        "host.hostname="@ + jail.config.hostname,
        "devfs_ruleset="@ + decimal(ruleset as nat),
        "securelevel=2"@,
        "sysvmsg=new"@,
        "sysvsem=new"@,
        "sysvshm=new"@,
        "allow.raw_sockets"@,
        "children.max=1"@,
        "vnet=new"@,
    ]
}

/// The arguments that hand the jail's halves of the pairs to the jail.
pub open spec fn vnet_args(ifs: Seq<IFaceView>) -> Seq<Seq<char>> {
    Seq::new(ifs.len(), |i: int| "vnet.interface="@ + ifs[i].epair + "b"@)
}

/// The arguments that create the outer jail: the fixed ones, one for each
/// interface, and what the jail runs when it starts.
pub open spec fn create_args_spec(ruleset: u32, jail: JailView, ifs: Seq<IFaceView>) -> Seq<
    Seq<char>,
> {
    fixed_args(ruleset, jail) + vnet_args(ifs) + seq!["exec.start="@ + exec_start(jail, ifs)]
}

/// A text made of a prefix and a value.
fn prefixed(prefix: &str, value: &str) -> (r: String)
    ensures
        r@ == prefix@ + value@,
{
    let mut s = String::from_str(prefix);
    s.append(value);
    s
}

/// The arguments that do not depend on the interfaces.
fn fixed_arg_list(config: &Config, jail: &Jail) -> (r: Vec<String>)
    ensures
        texts(r@) == fixed_args(config@.devfs_ruleset, jail@),
{
    let id = jail.idx.uuid.hyphenated();
    let mut path = String::from_str("path=/");
    path.append(jail.idx.root.as_str());
    path.append("/root");
    let ruleset = u64_to_string(config.settings.devfs_ruleset as u64);
    let mut args: Vec<String> = Vec::new();
    args.push(String::from_str("-i"));
    args.push(String::from_str("-c"));
    args.push(String::from_str("persist"));
    args.push(prefixed("name=", id.as_str()));
    args.push(path);
    args.push(prefixed("host.hostuuid=", id.as_str()));
    args.push(prefixed("host.hostname=", jail.config.hostname.as_str()));
    args.push(prefixed("devfs_ruleset=", ruleset.as_str()));
    args.push(String::from_str("securelevel=2"));
    args.push(String::from_str("sysvmsg=new"));
    args.push(String::from_str("sysvsem=new"));
    args.push(String::from_str("sysvshm=new"));
    args.push(String::from_str("allow.raw_sockets"));
    args.push(String::from_str("children.max=1"));
    args.push(String::from_str("vnet=new"));
    assert(texts(args@) =~= fixed_args(config@.devfs_ruleset, jail@));
    args
}

/// The arguments that create the outer jail of `jail` with the interfaces
/// `ifs`.
pub fn create_args(config: &Config, jail: &Jail, ifs: Vec<IFace>) -> (r: CreateArgs)
    ensures
        texts(r.args@) == create_args_spec(
            config@.devfs_ruleset,
            jail@,
            crate::jail_config::iface_views(ifs@),
        ),
        r.ifs == ifs,
{
    let ghost views = crate::jail_config::iface_views(ifs@);
    let ghost fixed = fixed_args(config@.devfs_ruleset, jail@);
    let mut args = fixed_arg_list(config, jail);
    let mut script = String::from_str("exec.start=");
    script.append("/sbin/ifconfig lo0 127.0.0.1 up; ");
    let ghost head = script@;
    let mut i: usize = 0;
    assert(views.subrange(0, 0) =~= Seq::<IFaceView>::empty());
    assert(script@ =~= head + scripts(views.subrange(0, 0)));
    while i < ifs.len()
        invariant
            i <= ifs@.len(),
            views == crate::jail_config::iface_views(ifs@),
            fixed.len() == 15,
            args@.len() == 15 + i,
            forall|j: int| 0 <= j < 15 ==> args@[j]@ == fixed[j],
            forall|j: int| 0 <= j < i ==> args@[15 + j]@ == vnet_args(views)[j],
            script@ == head + scripts(views.subrange(0, i as int)),
        decreases ifs@.len() - i,
    {
        let mut vnet = String::from_str("vnet.interface=");
        vnet.append(ifs[i].epair.as_str());
        vnet.append("b");
        args.push(vnet);
        script.append(ifs[i].start_script.as_str());
        proof {
            assert(views[i as int] == ifs@[i as int]@);
            let next = views.subrange(0, i + 1);
            assert(next.drop_last() =~= views.subrange(0, i as int));
            assert(next.last() == views[i as int]);
            assert(script@ =~= head + scripts(next));
        }
        i = i + 1;
    }
    assert(views.subrange(0, i as int) =~= views);
    let id = jail.idx.uuid.hyphenated();
    script.append("jail -c persist name=");
    script.append(id.as_str());
    script.append(" host.hostname=");
    script.append(jail.config.hostname.as_str());
    script.append(
        " path=/jail ip4=inherit devfs_ruleset=4 securelevel=2 sysvmsg=new sysvsem=new sysvshm=new allow.raw_sockets exec.start='sh /etc/rc'",
    );
    assert(script@ =~= "exec.start="@ + exec_start(jail@, views));
    args.push(script);
    assert(texts(args@) =~= create_args_spec(config@.devfs_ruleset, jail@, views));
    CreateArgs { args, ifs }
}

/// The number of the jail that the call which created it printed: the
/// first line of the output, without the white space around it.
pub open spec fn jail_id_text(reply: Seq<char>) -> Seq<char> {
    trim_spec(split_spec(reply, '\n')[0])
}

/// What the call that created a jail says: where it succeeded, the number
/// on the first line of its output, and an error where that line holds no
/// number; where it failed, its output as the error.
pub open spec fn start_jail_spec(success: bool, reply: Seq<char>) -> Result<u64, ErrorView> {
    if !success {
        Err(ErrorView::Generic(reply))
    } else {
        match parse_u64_spec(jail_id_text(reply)) {
            Some(id) => Ok(id),
            None => Err(ErrorView::Number(jail_id_text(reply))),
        }
    }
}

/// The call that creates the outer jail with the given arguments.
pub fn jail_command(args: Vec<String>) -> (r: Command)
    ensures
        r@ == call("jail"@, texts(args@)),
{
    Command::new("jail", args)
}

/// Reads the outcome of the call that created the outer jail.
pub fn start_jail(success: bool, reply: &str) -> (r: Result<u64, Error>)
    ensures
        match r {
            Ok(id) => start_jail_spec(success, reply@) == Ok::<u64, ErrorView>(id),
            Err(e) => start_jail_spec(success, reply@) == Err::<u64, ErrorView>(e@),
        },
{
    if !success {
        return Err(Error::Generic(GenericError::new(reply)));
    }
    let lines = split(reply, '\n');
    assert(texts(lines@)[0] == lines@[0]@);
    let first = trim(lines[0].as_str());
    match parse_u64(first.as_str()) {
        Some(id) => Ok(id),
        None => Err(Error::Number(NumberError::new(first.as_str()))),
    }
}

} // verus!
