use vmadm::command::Step;
use vmadm::config::{Config, Networks, Settings};
use vmadm::errors::Error;
use vmadm::jail_config::{IFace, JailConfig, NIC};
use vmadm::jails::{
    create_args, deconstruct_entry, jail_command, jls, list, start_jail, Jail, JailList,
    JailOSEntry,
};
use vmadm::jdb::{Index, JDB};
use vmadm::uuid::Uuid;

const ID: &str = "00000000-0000-0000-0000-000000000001";

fn config() -> Config {
    let mut networks = Networks::new();
    networks.insert("admin", "bridge0");
    Config {
        settings: Settings::with_defaults(String::from("pool"), None, None, None, None, networks),
    }
}

fn id(last: u8) -> Uuid {
    let mut bytes = [0u8; 16];
    bytes[15] = last;
    Uuid::from_bytes(bytes)
}

fn nic(interface: &str, primary: bool) -> NIC {
    NIC {
        interface: String::from(interface),
        mac: String::from("02:00:00:00:00:01"),
        vlan: None,
        nic_tag: String::from("admin"),
        ip: String::from("10.0.0.2"),
        netmask: String::from("255.255.255.0"),
        gateway: String::from("10.0.0.1"),
        primary,
        mtu: None,
        network_uuid: None,
    }
}

fn jail_config(nics: Vec<NIC>) -> JailConfig {
    JailConfig {
        brand: String::from("jail"),
        uuid: id(1),
        image_uuid: id(2),
        alias: String::from("a"),
        hostname: String::from("host-a"),
        autostart: false,
        max_physical_memory: 1024,
        cpu_cap: 100,
        quota: 5,
        max_shm_memory: None,
        max_locked_memory: None,
        nics,
        max_lwps: 2000,
        archive_on_delete: None,
        billing_id: None,
        do_not_inventory: None,
        dns_domain: String::from("local"),
        indestructible_delegated: None,
        indestructible_zoneroot: None,
        owner_uuid: None,
        package_name: None,
        package_version: None,
    }
}

fn jail(nics: Vec<NIC>, reply: &str) -> Jail {
    let jails = list(reply).unwrap();
    let mut db = JDB::open(&config(), None, jails).unwrap();
    let conf = jail_config(nics);
    db.insert(&conf).unwrap();
    db.get(&id(1), conf).unwrap()
}

fn lines(steps: &Vec<Step>) -> Vec<String> {
    steps.iter().map(|s| s.command.line()).collect()
}

fn failures(steps: &Vec<Step>) -> Vec<Option<String>> {
    steps.iter().map(|s| s.failure.clone()).collect()
}

#[test]
fn jail_line() {
    let e = deconstruct_entry("1 00000000-1f3e-4b11-b0ae-8494bb6ecd52").unwrap();
    assert_eq!(
        e,
        JailOSEntry { uuid: String::from("00000000-1f3e-4b11-b0ae-8494bb6ecd52"), id: 1 }
    );
    let e = deconstruct_entry("17 name and more").unwrap();
    assert_eq!(e, JailOSEntry { uuid: String::from("name"), id: 17 });
}

#[test]
fn jail_line_errors() {
    match deconstruct_entry("x name") {
        Err(Error::Number(e)) => assert_eq!(e.text, "x"),
        _ => panic!("expected an error"),
    }
    match deconstruct_entry("") {
        Err(Error::Number(e)) => assert_eq!(e.text, ""),
        _ => panic!("expected an error"),
    }
    match deconstruct_entry("12") {
        Err(Error::Generic(e)) => assert_eq!(e.msg, "NAME field missing"),
        _ => panic!("expected an error"),
    }
}

#[test]
fn jail_list() {
    let reply = "1 00000000-1f3e-4b11-b0ae-8494bb6ecd52\n2 00000000-1f3e-4b11-b0ae-8494bb6ecd52.00000000-1f3e-4b11-b0ae-8494bb6ecd52\n";
    let l = list(reply).unwrap();
    assert_eq!(l.entries.len(), 2);
    assert_eq!(l.get("00000000-1f3e-4b11-b0ae-8494bb6ecd52").unwrap().id, 1);
    assert_eq!(
        l.get("00000000-1f3e-4b11-b0ae-8494bb6ecd52.00000000-1f3e-4b11-b0ae-8494bb6ecd52")
            .unwrap()
            .id,
        2
    );
    assert!(l.get("other").is_none());
    assert!(list("").unwrap().entries.is_empty());
    assert!(list("1 a\nbroken\n").is_err());
    assert_eq!(jls().line(), "jls -q jid name");
}

#[test]
fn jail_list_later_line_wins() {
    let mut l = JailList::new();
    l.insert(JailOSEntry { uuid: String::from("a"), id: 1 });
    l.insert(JailOSEntry { uuid: String::from("a"), id: 5 });
    assert_eq!(l.get("a").unwrap().id, 5);
    assert_eq!(list("1 a\n5 a\n").unwrap().get("a").unwrap().id, 5);
}

#[test]
fn running_jail_has_outer_and_inner() {
    let reply = format!("1 {}\n2 {}.{}\n", ID, ID, ID);
    let j = jail(vec![], &reply);
    assert_eq!(j.outer.unwrap().id, 1);
    assert_eq!(j.inner.unwrap().id, 2);
    let stopped = jail(vec![], "");
    assert!(stopped.outer.is_none());
    assert!(stopped.inner.is_none());
}

#[test]
fn start_steps() {
    let j = jail(vec![nic("net0", true)], "");
    let steps = j.start();
    assert_eq!(
        lines(&steps),
        vec![
            format!(
                "rctl -a jail:{id}:memoryuse:deny=1024M jail:{id}:memorylocked:deny=1024M \
                 jail:{id}:shmsize:deny=1024M jail:{id}:pcpu:deny=100 jail:{id}:maxproc:deny=2000",
                id = ID
            ),
            format!("mount -t devfs devfs /pool/{}/root/dev", ID),
            format!("mount -t devfs devfs /pool/{}/root/jail/dev", ID),
        ]
    );
    assert_eq!(
        failures(&steps),
        vec![
            Some(String::from("Could not set jail limits")),
            Some(String::from("Could mount outer devfs")),
            Some(String::from("Could not remove resource limits")),
        ]
    );
}

#[test]
fn create_arguments() {
    let j = jail(vec![nic("net0", true)], "");
    let setup = j.config.nics[0].get_iface(&config(), &id(1), "epair0a\n").unwrap();
    let created = create_args(&config(), &j, vec![setup.iface.clone()]);
    assert_eq!(created.ifs, vec![setup.iface]);
    assert_eq!(
        created.args,
        vec![
            String::from("-i"),
            String::from("-c"),
            String::from("persist"),
            format!("name={}", ID),
            format!("path=/pool/{}/root", ID),
            format!("host.hostuuid={}", ID),
            String::from("host.hostname=host-a"),
            String::from("devfs_ruleset=4"),
            String::from("securelevel=2"),
            String::from("sysvmsg=new"),
            String::from("sysvsem=new"),
            String::from("sysvshm=new"),
            String::from("allow.raw_sockets"),
            String::from("children.max=1"),
            String::from("vnet=new"),
            String::from("vnet.interface=epair0b"),
            format!(
                "exec.start=/sbin/ifconfig lo0 127.0.0.1 up; \
                 /sbin/ifconfig epair0b name net0; \
                 /sbin/ifconfig net0 inet 10.0.0.2 255.255.255.0; \
                 /sbin/route add default -gateway 10.0.0.1; \
                 jail -c persist name={} host.hostname=host-a path=/jail ip4=inherit \
                 devfs_ruleset=4 securelevel=2 sysvmsg=new sysvsem=new sysvshm=new \
                 allow.raw_sockets exec.start='sh /etc/rc'",
                ID
            ),
        ]
    );
    assert_eq!(jail_command(vec![String::from("-i")]).line(), "jail -i");
}

#[test]
fn create_arguments_without_interfaces() {
    let j = jail(vec![], "");
    let created = create_args(&config(), &j, vec![]);
    assert_eq!(created.args.len(), 16);
    assert_eq!(
        created.args[15],
        format!(
            "exec.start=/sbin/ifconfig lo0 127.0.0.1 up; \
             jail -c persist name={} host.hostname=host-a path=/jail ip4=inherit \
             devfs_ruleset=4 securelevel=2 sysvmsg=new sysvsem=new sysvshm=new \
             allow.raw_sockets exec.start='sh /etc/rc'",
            ID
        )
    );
}

#[test]
fn jail_number_from_output() {
    assert_eq!(start_jail(true, "42\n").unwrap(), 42);
    assert_eq!(start_jail(true, " 7 \nwarning: something\n").unwrap(), 7);
    match start_jail(true, "warning\n7\n") {
        Err(Error::Number(e)) => assert_eq!(e.text, "warning"),
        _ => panic!("expected an error"),
    }
    match start_jail(true, "") {
        Err(Error::Number(e)) => assert_eq!(e.text, ""),
        _ => panic!("expected an error"),
    }
    match start_jail(false, "jail: failed") {
        Err(Error::Generic(e)) => assert_eq!(e.msg, "jail: failed"),
        _ => panic!("expected an error"),
    }
}

#[test]
fn rename_steps() {
    let ifs = vec![
        IFace {
            iface: String::from("net0"),
            epair: String::from("epair0"),
            start_script: String::new(),
        },
        IFace {
            iface: String::from("net1"),
            epair: String::from("epair3"),
            start_script: String::new(),
        },
    ];
    let steps = Jail::rename_interfaces(12, &ifs);
    assert_eq!(
        lines(&steps),
        vec![
            "/sbin/ifconfig epair0a name j12:net0",
            "/sbin/ifconfig epair3a name j12:net1"
        ]
    );
    assert_eq!(failures(&steps), vec![None, None]);
}

#[test]
fn stop_steps() {
    let reply = format!("9 {}\n10 {}.{}\n", ID, ID, ID);
    let j = jail(vec![nic("net0", true), nic("net1", false)], &reply);
    let steps = j.stop();
    assert_eq!(
        lines(&steps),
        vec![
            format!("jail -r {}", ID),
            format!("umount /pool/{}/root/jail/dev", ID),
            format!("umount /pool/{}/root/dev", ID),
            format!("rctl -r jail:{}", ID),
            String::from("/sbin/ifconfig j9:net0 destroy"),
            String::from("/sbin/ifconfig j9:net1 destroy"),
        ]
    );
    assert_eq!(
        failures(&steps),
        vec![Some(String::from("Could not stop jail")), None, None, None, None, None]
    );
}

#[test]
fn stop_steps_without_outer_jail() {
    let j = jail(vec![nic("net0", true)], "");
    assert_eq!(j.stop().len(), 4);
}

#[test]
fn index_given_at_opening_is_kept() {
    let mut db = JDB::open(&config(), None, JailList::new()).unwrap();
    db.insert(&jail_config(vec![])).unwrap();
    let index = Index { version: 0, entries: db.enumerate() };
    let again = JDB::open(&config(), Some(index), JailList::new()).unwrap();
    assert_eq!(again.enumerate().len(), 1);
}
