use vmadm::jail_config::{JailConfig, NIC};
use vmadm::update::{JailUpdate, NICUpdate};
use vmadm::uuid::Uuid;

fn nic00() -> NIC {
    NIC {
        interface: String::from("net0"),
        mac: String::from("00:00:00:00:00:00"),
        vlan: None,
        nic_tag: String::from("admin"),
        ip: String::from("192.168.254.254"),
        netmask: String::from("255.255.255.0"),
        gateway: String::from("192.168.254.1"),
        primary: true,
        mtu: None,
        network_uuid: None,
    }
}

fn nic01() -> NIC {
    NIC {
        interface: String::from("net0"),
        mac: String::from("00:00:00:00:00:01"),
        vlan: None,
        nic_tag: String::from("admin"),
        ip: String::from("192.168.254.253"),
        netmask: String::from("255.255.255.0"),
        gateway: String::from("192.168.254.1"),
        primary: true,
        mtu: None,
        network_uuid: None,
    }
}

fn conf() -> JailConfig {
    JailConfig {
        brand: String::from("jail"),
        uuid: Uuid::nil(),
        image_uuid: Uuid::nil(),
        alias: String::from("test-alias"),
        hostname: String::from("test-hostname"),
        autostart: true,
        max_physical_memory: 1024,
        cpu_cap: 100,
        quota: 5,
        max_shm_memory: None,
        max_locked_memory: None,
        nics: vec![nic00(), nic01()],
        max_lwps: 2000,
        archive_on_delete: None,
        billing_id: None,
        do_not_inventory: None,
        dns_domain: String::from("local"),
        indestructible_delegated: None,
        indestructible_zoneroot: None,
        owner_uuid: None,
        package_name: None,
        package_version: None,
    }
}

fn uuid() -> Uuid {
    let bytes = [1, 2, 3, 4, 5, 6, 7, 8, 9, 10, 11, 12, 13, 14, 15, 16];
    Uuid::from_bytes(bytes)
}

#[test]
fn empty() {
    let conf = conf();
    let update = JailUpdate::empty();
    let conf1 = update.apply(conf.clone());
    assert_eq!(conf, conf1);
}

#[test]
fn alias() {
    let conf = conf();
    let mut update = JailUpdate::empty();
    let alias = String::from("changed");
    update.alias = Some(alias.clone());
    assert_eq!(alias, update.apply(conf).alias);
}

#[test]
fn hostname() {
    let conf = conf();
    let mut update = JailUpdate::empty();
    let hostname = String::from("changed");
    update.hostname = Some(hostname.clone());
    assert_eq!(hostname, update.apply(conf).hostname);
}

#[test]
fn autostart() {
    let conf = conf();
    assert_eq!(true, conf.autostart);
    let mut update = JailUpdate::empty();
    update.autostart = Some(false);
    assert_eq!(false, update.apply(conf).autostart);
}

#[test]
fn max_physical_memory() {
    let conf = conf();
    assert_eq!(1024, conf.max_physical_memory);
    let mut update = JailUpdate::empty();
    update.max_physical_memory = Some(42);
    assert_eq!(42, update.apply(conf).max_physical_memory);
}

#[test]
fn max_locked_memory() {
    let conf = conf();
    assert_eq!(None, conf.max_locked_memory);
    let mut update = JailUpdate::empty();
    update.max_locked_memory = Some(42);
    assert_eq!(42, update.apply(conf).max_locked_memory.unwrap());
}

#[test]
fn max_lwps() {
    let conf = conf();
    assert_eq!(2000, conf.max_lwps);
    let mut update = JailUpdate::empty();
    update.max_lwps = Some(42);
    assert_eq!(42, update.apply(conf).max_lwps);
}

#[test]
fn archive_on_delete() {
    let conf = conf();
    assert_eq!(None, conf.archive_on_delete);
    let mut update = JailUpdate::empty();
    update.archive_on_delete = Some(true);
    assert_eq!(true, update.apply(conf).archive_on_delete.unwrap());
}

#[test]
fn billing_id() {
    let conf = conf();
    assert_eq!(None, conf.billing_id);
    let mut update = JailUpdate::empty();
    update.billing_id = Some(uuid());
    assert_eq!(uuid(), update.apply(conf).billing_id.unwrap());
}

#[test]
fn no_not_inventory() {
    let conf = conf();
    assert_eq!(None, conf.do_not_inventory);
    let mut update = JailUpdate::empty();
    update.do_not_inventory = Some(true);
    assert_eq!(true, update.apply(conf).do_not_inventory.unwrap());
}

#[test]
fn dns_domain() {
    let conf = conf();
    let mut update = JailUpdate::empty();
    let dns_domain = String::from("changed");
    update.dns_domain = Some(dns_domain.clone());
    assert_eq!(dns_domain, update.apply(conf).dns_domain);
}

#[test]
fn owner_uuid() {
    let conf = conf();
    assert_eq!(None, conf.owner_uuid);
    let mut update = JailUpdate::empty();
    update.owner_uuid = Some(uuid());
    assert_eq!(uuid(), update.apply(conf).owner_uuid.unwrap());
}

#[test]
fn package_name() {
    let conf = conf();
    let mut update = JailUpdate::empty();
    let package_name = String::from("changed");
    update.package_name = Some(package_name.clone());
    assert_eq!(package_name, update.apply(conf).package_name.unwrap());
}

#[test]
fn package_version() {
    let conf = conf();
    let mut update = JailUpdate::empty();
    let package_version = String::from("changed");
    update.package_version = Some(package_version.clone());
    assert_eq!(package_version, update.apply(conf).package_version.unwrap());
}

#[test]
fn remove_nics() {
    let conf = conf();
    let mut update = JailUpdate::empty();
    let mac = String::from("00:00:00:00:00:00");
    update.remove_nics = vec![mac];
    assert_eq!(vec![nic01()], update.apply(conf).nics);
}

#[test]
fn cpu_cap_and_shared_memory() {
    let mut update = JailUpdate::empty();
    update.cpu_cap = Some(250);
    update.max_shm_memory = Some(64);
    let c = update.apply(conf());
    assert_eq!(250, c.cpu_cap);
    assert_eq!(Some(64), c.max_shm_memory);
}

#[test]
fn identity_and_quota_are_kept() {
    let mut update = JailUpdate::empty();
    update.alias = Some(String::from("other"));
    update.remove_nics = vec![String::from("00:00:00:00:00:01")];
    let mut before = conf();
    before.uuid = uuid();
    let after = update.apply(before.clone());
    assert_eq!(before.uuid, after.uuid);
    assert_eq!(before.image_uuid, after.image_uuid);
    assert_eq!(before.quota, after.quota);
    assert_eq!(before.brand, after.brand);
}

#[test]
fn add_nics_are_appended_after_removal() {
    let mut added = nic00();
    added.mac = String::from("00:00:00:00:00:02");
    added.interface = String::from("net1");
    let mut update = JailUpdate::empty();
    update.remove_nics = vec![String::from("00:00:00:00:00:00")];
    update.add_nics = vec![added.clone()];
    assert_eq!(vec![nic01(), added], update.apply(conf()).nics);
}

#[test]
fn update_nics_match_by_mac() {
    let mut update = JailUpdate::empty();
    update.update_nics = vec![
        NICUpdate {
            mac: String::from("00:00:00:00:00:01"),
            interface: None,
            vlan: Some(7),
            nic_tag: None,
            ip: Some(String::from("10.0.0.9")),
            netmask: None,
            gateway: None,
            primary: Some(false),
        },
        NICUpdate {
            mac: String::from("00:00:00:00:00:01"),
            interface: None,
            vlan: None,
            nic_tag: None,
            ip: Some(String::from("10.0.0.10")),
            netmask: None,
            gateway: None,
            primary: None,
        },
    ];
    let mut expected = nic01();
    expected.vlan = Some(7);
    expected.ip = String::from("10.0.0.10");
    expected.primary = false;
    assert_eq!(vec![nic00(), expected], update.apply(conf()).nics);
}

#[test]
fn applying_twice_is_applying_once() {
    let mut update = JailUpdate::empty();
    update.hostname = Some(String::from("twice"));
    update.max_lwps = Some(7);
    update.remove_nics = vec![String::from("00:00:00:00:00:00")];
    let mut readded = nic00();
    readded.ip = String::from("192.168.254.10");
    update.add_nics = vec![readded];
    let once = update.apply(conf());
    let twice = update.apply(once.clone());
    assert_eq!(once, twice);
}

#[test]
fn adding_an_interface_that_is_not_removed_repeats() {
    let mut added = nic00();
    added.mac = String::from("00:00:00:00:00:02");
    let mut update = JailUpdate::empty();
    update.add_nics = vec![added];
    let once = update.apply(conf());
    let twice = update.apply(once.clone());
    assert_eq!(3, once.nics.len());
    assert_eq!(4, twice.nics.len());
}
