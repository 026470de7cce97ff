use vmadm::command::Step;
use vmadm::config::{Config, Networks, Settings};
use vmadm::errors::Error;
use vmadm::jail_config::{JailConfig, NIC};
use vmadm::jails::{list, Jail};
use vmadm::jdb::{FileOp, JDB};
use vmadm::lifecycle::{
    console, delete, destroy_datasets, reboot, start, startup, stop, update,
};
use vmadm::update::JailUpdate;
use vmadm::uuid::Uuid;
use vmadm::zfs;

const ID: &str = "00000000-0000-0000-0000-000000000001";

fn config() -> Config {
    let mut networks = Networks::new();
    networks.insert("admin", "bridge0");
    Config {
        settings: Settings::with_defaults(String::from("pool"), None, None, None, None, networks),
    }
}

fn id(last: u8) -> Uuid {
    let mut bytes = [0u8; 16];
    bytes[15] = last;
    Uuid::from_bytes(bytes)
}

fn jail_config() -> JailConfig {
    JailConfig {
        brand: String::from("jail"),
        uuid: id(1),
        image_uuid: id(2),
        alias: String::from("a"),
        hostname: String::from("host-a"),
        autostart: false,
        max_physical_memory: 1024,
        cpu_cap: 100,
        quota: 5,
        max_shm_memory: None,
        max_locked_memory: None,
        nics: vec![NIC {
            interface: String::from("net0"),
            mac: String::from("02:00:00:00:00:01"),
            vlan: None,
            nic_tag: String::from("admin"),
            ip: String::from("10.0.0.2"),
            netmask: String::from("255.255.255.0"),
            gateway: String::from("10.0.0.1"),
            primary: true,
            mtu: None,
            network_uuid: None,
        }],
        max_lwps: 2000,
        archive_on_delete: None,
        billing_id: None,
        do_not_inventory: None,
        dns_domain: String::from("local"),
        indestructible_delegated: None,
        indestructible_zoneroot: None,
        owner_uuid: None,
        package_name: None,
        package_version: None,
    }
}

fn database(reply: &str) -> JDB {
    let mut db = JDB::open(&config(), None, list(reply).unwrap()).unwrap();
    db.insert(&jail_config()).unwrap();
    db
}

fn running() -> (JDB, Jail) {
    let db = database(&format!("1 {}\n2 {}.{}\n", ID, ID, ID));
    let jail = db.get(&id(1), jail_config()).unwrap();
    (db, jail)
}

fn stopped() -> (JDB, Jail) {
    let db = database("");
    let jail = db.get(&id(1), jail_config()).unwrap();
    (db, jail)
}

fn lines(steps: &Vec<Step>) -> Vec<String> {
    steps.iter().map(|s| s.command.line()).collect()
}

fn generic<T>(r: Result<T, Error>) -> String {
    match r {
        Err(Error::Generic(e)) => e.msg,
        _ => panic!("expected a generic error"),
    }
}

#[test]
fn start_refuses_a_running_jail() {
    assert_eq!(generic(start(&running().1)), "VM is already started");
    assert_eq!(start(&stopped().1).unwrap().len(), 3);
}

#[test]
fn stop_refuses_a_stopped_jail() {
    assert_eq!(generic(stop(&stopped().1)), "VM is already stooped");
    assert_eq!(stop(&running().1).unwrap().len(), 5);
}

#[test]
fn reboot_refuses_a_stopped_jail() {
    assert_eq!(generic(reboot(&stopped().1)), "The vm is not running");
    assert_eq!(
        lines(&reboot(&running().1).unwrap()),
        lines(&stop(&running().1).unwrap())
    );
}

#[test]
fn console_runs_in_the_inner_jail() {
    assert_eq!(generic(console(&stopped().1)), "VM is not running");
    let step = console(&running().1).unwrap();
    assert_eq!(step.command.line(), "jexec 2 /bin/csh");
    assert_eq!(step.failure, Some(String::from("Failed to execute jail console")));
}

#[test]
fn delete_of_a_running_jail() {
    let (mut db, jail) = running();
    let deletion = delete(&jail);
    assert_eq!(
        lines(&deletion.stop),
        vec![
            format!("jail -r {}", ID),
            format!("umount /pool/{}/root/jail/dev", ID),
            format!("umount /pool/{}/root/dev", ID),
            format!("rctl -r jail:{}", ID),
            String::from("/sbin/ifconfig j1:net0 destroy"),
        ]
    );
    assert_eq!(
        deletion.origin.command.line(),
        format!("zfs get -p -H origin pool/{}", ID)
    );
    let reply = format!("pool/{}\torigin\tpool/image@{}\t-\n", ID, ID);
    let origin = zfs::read_origin(&reply).unwrap();
    let steps = destroy_datasets(&jail, Some(&origin));
    assert_eq!(
        lines(&steps),
        vec![format!("zfs destroy pool/{}", ID), format!("zfs destroy pool/image@{}", ID)]
    );
    assert_eq!(steps[0].failure, None);
    assert_eq!(steps[1].failure, Some(String::from("Failed destroy dataset")));
    assert_eq!(
        deletion.remove,
        vec![FileOp::RemoveConfig(id(1)), FileOp::WriteIndex]
    );
    let mut other = jail_config();
    other.uuid = id(7);
    db.insert(&other).unwrap();
    db.remove(&id(1)).unwrap();
    assert_eq!(db.find(&id(1)), None);
    assert_eq!(db.find(&id(7)), Some(0));
}

#[test]
fn delete_of_a_stopped_jail_without_origin() {
    let (_, jail) = stopped();
    let deletion = delete(&jail);
    assert!(deletion.stop.is_empty());
    assert_eq!(
        deletion.remove,
        vec![FileOp::RemoveConfig(id(1)), FileOp::WriteIndex]
    );
    assert_eq!(
        lines(&destroy_datasets(&jail, None)),
        vec![format!("zfs destroy pool/{}", ID)]
    );
}

#[test]
fn update_changes_the_configuration() {
    let (db, jail) = stopped();
    let mut change = JailUpdate::empty();
    change.alias = Some(String::from("new"));
    let c = update(&db, jail.config, &change).unwrap();
    assert_eq!(c.alias, "new");
    let mut other = jail_config();
    other.uuid = id(9);
    assert!(matches!(update(&db, other, &change), Err(Error::NotFound(_))));
}

#[test]
fn startup_does_nothing() {
    assert_eq!(startup(&config()), 0);
}
