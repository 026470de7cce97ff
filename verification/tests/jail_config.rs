use vmadm::config::{Config, Networks, Settings};
use vmadm::errors::{Error, ValidationError};
use vmadm::jail_config::{
    dflt_false, dflt_max_lwp, empty_nics, epair_create, errors_from, mac_from_bytes, new_mac,
    new_uuid, JailConfig, NicChecks, NIC,
};
use vmadm::uuid::Uuid;

fn config() -> Config {
    let mut networks = Networks::new();
    networks.insert("admin", "bridge0");
    Config {
        settings: Settings::with_defaults(String::from("pool"), None, None, None, None, networks),
    }
}

fn id(last: u8) -> Uuid {
    let mut bytes = [0u8; 16];
    bytes[15] = last;
    Uuid::from_bytes(bytes)
}

fn nic() -> NIC {
    NIC {
        interface: String::from("net0"),
        mac: String::from("02:00:00:00:00:01"),
        vlan: None,
        nic_tag: String::from("admin"),
        ip: String::from("10.0.0.2"),
        netmask: String::from("255.255.255.0"),
        gateway: String::from("10.0.0.1"),
        primary: true,
        mtu: None,
        network_uuid: None,
    }
}

fn jail() -> JailConfig {
    JailConfig {
        brand: String::from("jail"),
        uuid: id(1),
        image_uuid: id(2),
        alias: String::from("a"),
        hostname: String::from("host-a"),
        autostart: false,
        max_physical_memory: 1024,
        cpu_cap: 100,
        quota: 5,
        max_shm_memory: None,
        max_locked_memory: None,
        nics: vec![nic()],
        max_lwps: 2000,
        archive_on_delete: None,
        billing_id: None,
        do_not_inventory: None,
        dns_domain: String::from("local"),
        indestructible_delegated: None,
        indestructible_zoneroot: None,
        owner_uuid: None,
        package_name: None,
        package_version: None,
    }
}

fn fields(errors: &Vec<ValidationError>) -> Vec<(String, String)> {
    errors.iter().map(|e| (e.field.clone(), e.error.clone())).collect()
}

fn pair(a: &str, b: &str) -> (String, String) {
    (String::from(a), String::from(b))
}

#[test]
fn settings_defaults() {
    let c = config();
    assert_eq!(c.settings.pool, "pool");
    assert_eq!(c.settings.repo, "https://datasets.project-fifo.net/images");
    assert_eq!(c.settings.conf_dir, "/etc/jails");
    assert_eq!(c.settings.image_dir, "/var/imgadm/images");
    assert_eq!(c.settings.devfs_ruleset, 4);
    assert_eq!(c.settings.networks.get("admin"), Some(&String::from("bridge0")));
    assert_eq!(c.settings.networks.get("other"), None);
    assert!(c.settings.networks.contains_key("admin"));
}

#[test]
fn settings_given_values_are_kept() {
    let s = Settings::with_defaults(
        String::from("tank"),
        Some(String::from("http://repo")),
        Some(String::from("/conf")),
        Some(String::from("/img")),
        Some(9),
        Networks::new(),
    );
    assert_eq!(s.repo, "http://repo");
    assert_eq!(s.conf_dir, "/conf");
    assert_eq!(s.image_dir, "/img");
    assert_eq!(s.devfs_ruleset, 9);
}

#[test]
fn networks_later_entry_wins() {
    let mut n = Networks::new();
    n.insert("admin", "bridge0");
    n.insert("admin", "bridge1");
    assert_eq!(n.get("admin"), Some(&String::from("bridge1")));
}

#[test]
fn parse_defaults() {
    assert_eq!(dflt_false(), false);
    assert_eq!(dflt_max_lwp(), 2000);
    assert!(empty_nics().is_empty());
    let u = new_uuid();
    assert_eq!(u.bytes[6] >> 4, 4);
}

#[test]
fn rctl_limits_are_five_rules_after_the_flag() {
    let limits = jail().rctl_limits();
    assert_eq!(
        limits,
        vec![
            "-a",
            "jail:00000000-0000-0000-0000-000000000001:memoryuse:deny=1024M",
            "jail:00000000-0000-0000-0000-000000000001:memorylocked:deny=1024M",
            "jail:00000000-0000-0000-0000-000000000001:shmsize:deny=1024M",
            "jail:00000000-0000-0000-0000-000000000001:pcpu:deny=100",
            "jail:00000000-0000-0000-0000-000000000001:maxproc:deny=2000",
        ]
    );
}

#[test]
fn rctl_limits_use_the_memory_that_is_set() {
    let mut j = jail();
    j.max_locked_memory = Some(64);
    j.max_shm_memory = Some(32);
    let limits = j.rctl_limits();
    assert_eq!(
        limits[2],
        "jail:00000000-0000-0000-0000-000000000001:memorylocked:deny=64M"
    );
    assert_eq!(
        limits[3],
        "jail:00000000-0000-0000-0000-000000000001:shmsize:deny=32M"
    );
}

#[test]
fn valid_config_has_no_errors() {
    assert!(jail().errors(&config()).is_none());
}

#[test]
fn bad_hostname_and_ip_are_both_reported() {
    let mut j = jail();
    j.hostname = String::from("-bad");
    j.nics[0].ip = String::from("10.0.0.256");
    let errors = j.errors(&config()).unwrap();
    assert_eq!(
        fields(&errors),
        vec![pair("hostname", "Invalid hostname"), pair("nic[0]", "Invalid ip")]
    );
}

#[test]
fn every_field_has_a_value_that_fails() {
    let mut second = nic();
    second.interface = String::from("toolong0");
    second.ip = String::from("1.2.3");
    second.netmask = String::from("255.255.255.256");
    second.gateway = String::from("a.b.c.d");
    second.mac = String::from("02:00:00:00:00");
    second.nic_tag = String::from("unknown");
    let mut j = jail();
    j.hostname = String::from("bad_host");
    j.alias = String::from("");
    j.nics.push(second);
    let errors = j.errors(&config()).unwrap();
    assert_eq!(
        fields(&errors),
        vec![
            pair("hostname", "Invalid hostname"),
            pair("alias", "Invalid alias"),
            pair("nic[1]", "Invalid interface name"),
            pair("nic[1]", "Invalid ip"),
            pair("nic[1]", "Invalid netmask"),
            pair("nic[1]", "Invalid gateway"),
            pair("nic[1]", "Invalid mac"),
            pair("nic[1]", "Unknown nic_tag"),
        ]
    );
}

#[test]
fn names_at_the_edges_of_the_pattern() {
    let mut j = jail();
    j.hostname = String::from("a");
    j.alias = String::from("A-1");
    assert!(j.errors(&config()).is_none());
    j.hostname = String::from("ends-with-");
    assert_eq!(j.errors(&config()).unwrap().len(), 1);
    j.hostname = String::from("host\n");
    assert_eq!(j.errors(&config()).unwrap().len(), 1);
    j.hostname = "a".repeat(255);
    assert!(j.errors(&config()).is_none());
    j.hostname = "a".repeat(256);
    assert_eq!(j.errors(&config()).unwrap().len(), 1);
}

#[test]
fn addresses_at_the_edges_of_the_pattern() {
    let mut j = jail();
    j.nics[0].ip = String::from("255.255.255.255");
    j.nics[0].gateway = String::from("0.0.0.0");
    j.nics[0].mac = String::from("a:B:0:ff:1:2");
    j.nics[0].interface = String::from("vnet123");
    assert!(j.errors(&config()).is_none());
    j.nics[0].ip = String::from("01.2.3.4");
    j.nics[0].mac = String::from("a:b:0:fff:1:2");
    j.nics[0].interface = String::from("net1234");
    assert_eq!(
        fields(&j.errors(&config()).unwrap()),
        vec![
            pair("nic[0]", "Invalid interface name"),
            pair("nic[0]", "Invalid ip"),
            pair("nic[0]", "Invalid mac"),
        ]
    );
}

#[test]
fn errors_from_checks() {
    let ok = NicChecks {
        interface: true,
        ip: true,
        netmask: true,
        gateway: true,
        mac: true,
        nic_tag: true,
    };
    let mut bad = ok;
    bad.gateway = false;
    bad.nic_tag = false;
    assert!(errors_from(true, true, &vec![ok, ok]).is_none());
    assert!(errors_from(true, true, &vec![]).is_none());
    let errors = errors_from(true, false, &vec![ok, bad]).unwrap();
    assert_eq!(
        fields(&errors),
        vec![
            pair("alias", "Invalid alias"),
            pair("nic[1]", "Invalid gateway"),
            pair("nic[1]", "Unknown nic_tag"),
        ]
    );
}

#[test]
fn from_parsed_sets_the_memory_defaults() {
    let c = JailConfig::from_parsed(&config(), jail()).unwrap();
    assert_eq!(c.max_shm_memory, Some(1024));
    assert_eq!(c.max_locked_memory, Some(1024));
    let mut given = jail();
    given.max_shm_memory = Some(1);
    let c = JailConfig::from_parsed(&config(), given).unwrap();
    assert_eq!(c.max_shm_memory, Some(1));
    assert_eq!(c.max_locked_memory, Some(1024));
    let again = JailConfig::from_parsed(&config(), c.clone()).unwrap();
    assert_eq!(again, c);
}

#[test]
fn from_parsed_refuses_with_every_error() {
    let mut j = jail();
    j.hostname = String::from("-bad");
    j.nics[0].ip = String::from("10.0.0.256");
    let e = JailConfig::from_parsed(&config(), j).unwrap_err();
    assert_eq!(e.errors.len(), 2);
    assert_eq!(
        e.message(),
        "2 validaiton errors encountered\n  hostname: Invalid hostname\n  nic[0]: Invalid ip"
    );
}

#[test]
fn mac_rendering() {
    assert_eq!(mac_from_bytes([0, 1, 0xab, 255, 16, 9]), "0:1:ab:ff:10:9");
}

#[test]
fn fresh_mac_is_valid() {
    for _ in 0..20 {
        let mut j = jail();
        j.nics[0].mac = new_mac();
        assert!(j.errors(&config()).is_none());
    }
}

#[test]
fn interface_without_vlan() {
    let mut n = nic();
    n.primary = false;
    let setup = n.get_iface(&config(), &id(1), "epair0a\n").unwrap();
    assert_eq!(setup.iface.iface, "net0");
    assert_eq!(setup.iface.epair, "epair0");
    assert_eq!(
        setup.iface.start_script,
        "/sbin/ifconfig epair0b name net0; /sbin/ifconfig net0 inet 10.0.0.2 255.255.255.0; "
    );
    assert_eq!(setup.attach.command.line(), "/sbin/ifconfig bridge0 addm epair0a");
    assert_eq!(
        setup.attach.failure,
        Some(String::from("could not add epair to bridge"))
    );
    assert_eq!(
        setup.describe.failure,
        Some(String::from("could not set description"))
    );
    assert_eq!(setup.describe.command.program, "/sbin/ifconfig");
    assert_eq!(
        setup.describe.command.args,
        vec![
            "epair0a",
            "description",
            "VNic from jail 00000000-0000-0000-0000-000000000001"
        ]
    );
}

#[test]
fn interface_with_vlan_and_route() {
    let mut n = nic();
    n.vlan = Some(42);
    let setup = n.get_iface(&config(), &id(1), "epair7a").unwrap();
    assert_eq!(
        setup.iface.start_script,
        "/sbin/ifconfig epair7b.42 create vlan 42 vlandev epair7p; \
         /sbin/ifconfig epair7b.42 name net0; \
         /sbin/ifconfig net0 inet 10.0.0.2 255.255.255.0; \
         /sbin/route add default -gateway 10.0.0.1; "
    );
}

#[test]
fn interface_script_is_the_same_each_time() {
    let n = nic();
    let a = n.get_iface(&config(), &id(1), "epair0a\n").unwrap();
    let b = n.get_iface(&config(), &id(1), "epair0a\n").unwrap();
    assert_eq!(a.iface, b.iface);
    let c = n.get_iface(&config(), &id(1), "epair9a\n").unwrap();
    assert_eq!(
        a.iface.start_script.replace("epair0", "epair9"),
        c.iface.start_script
    );
}

#[test]
fn interface_without_bridge() {
    let mut n = nic();
    n.nic_tag = String::from("other");
    match n.get_iface(&config(), &id(1), "epair0a\n") {
        Err(Error::Generic(e)) => assert_eq!(e.msg, "bridge not configured"),
        _ => panic!("expected an error"),
    }
}

#[test]
fn epair_creation_call() {
    let step = epair_create();
    assert_eq!(step.command.line(), "/sbin/ifconfig epair create up");
    assert_eq!(step.failure, Some(String::from("could not create interface")));
}
