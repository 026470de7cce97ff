use vmadm::config::{Config, Networks, Settings};
use vmadm::errors::Error;
use vmadm::jail_config::JailConfig;
use vmadm::jails::{list, JailList};
use vmadm::jdb::{FileOp, IdxEntry, Index, JDB};
use vmadm::uuid::Uuid;

fn config() -> Config {
    Config {
        settings: Settings::with_defaults(
            String::from("pool"),
            None,
            None,
            None,
            None,
            Networks::new(),
        ),
    }
}

fn id(last: u8) -> Uuid {
    let mut bytes = [0u8; 16];
    bytes[15] = last;
    Uuid::from_bytes(bytes)
}

fn jail_config(last: u8) -> JailConfig {
    JailConfig {
        brand: String::from("jail"),
        uuid: id(last),
        image_uuid: id(200),
        alias: String::from("alias"),
        hostname: String::from("host"),
        autostart: false,
        max_physical_memory: 1024,
        cpu_cap: 100,
        quota: 5,
        max_shm_memory: None,
        max_locked_memory: None,
        nics: vec![],
        max_lwps: 2000,
        archive_on_delete: None,
        billing_id: None,
        do_not_inventory: None,
        dns_domain: String::from("local"),
        indestructible_delegated: None,
        indestructible_zoneroot: None,
        owner_uuid: None,
        package_name: None,
        package_version: None,
    }
}

fn db() -> JDB {
    JDB::open(&config(), None, JailList::new()).unwrap()
}

fn uuids(db: &JDB) -> Vec<Uuid> {
    db.enumerate().iter().map(|e| e.uuid).collect()
}

#[test]
fn open_without_index() {
    let db = db();
    assert_eq!(db.index.version, 0);
    assert!(db.enumerate().is_empty());
    assert_eq!(db.index_path(), "/etc/jails/index");
    assert_eq!(
        db.config_path(&id(1)),
        "/etc/jails/00000000-0000-0000-0000-000000000001.json"
    );
}

#[test]
fn open_refuses_an_identifier_twice() {
    let entry = |last: u8| IdxEntry {
        version: 0,
        uuid: id(last),
        root: String::from("pool/x"),
        state: String::from("installed"),
        jail_type: String::from("base"),
    };
    let index = Index { version: 0, entries: vec![entry(1), entry(2), entry(1)] };
    match JDB::open(&config(), Some(index), JailList::new()) {
        Err(Error::Conflict(e)) => assert_eq!(e.uuid, id(1)),
        _ => panic!("expected a conflict"),
    }
}

#[test]
fn insert_makes_an_entry() {
    let mut db = db();
    let e = db.insert(&jail_config(1)).unwrap();
    assert_eq!(e.version, 0);
    assert_eq!(e.uuid, id(1));
    assert_eq!(e.root, "pool/00000000-0000-0000-0000-000000000001");
    assert_eq!(e.state, "installed");
    assert_eq!(e.jail_type, "base");
    db.insert(&jail_config(2)).unwrap();
    assert_eq!(uuids(&db), vec![id(1), id(2)]);
    assert_eq!(db.find(&id(2)), Some(1));
    assert_eq!(db.find(&id(3)), None);
}

#[test]
fn insert_twice_is_a_conflict_and_changes_nothing() {
    let mut db = db();
    db.insert(&jail_config(1)).unwrap();
    db.insert(&jail_config(2)).unwrap();
    let before = db.enumerate();
    match db.insert(&jail_config(1)) {
        Err(Error::Conflict(e)) => assert_eq!(e.uuid, id(1)),
        _ => panic!("expected a conflict"),
    }
    let after = db.enumerate();
    assert_eq!(before.len(), after.len());
    for (a, b) in before.iter().zip(after.iter()) {
        assert_eq!(a.uuid, b.uuid);
        assert_eq!(a.root, b.root);
        assert_eq!(a.state, b.state);
    }
}

#[test]
fn remove_takes_the_entry_out() {
    let mut db = db();
    db.insert(&jail_config(1)).unwrap();
    db.insert(&jail_config(2)).unwrap();
    db.insert(&jail_config(3)).unwrap();
    assert_eq!(db.remove(&id(2)).unwrap(), 1);
    assert_eq!(uuids(&db), vec![id(1), id(3)]);
    assert_eq!(db.find(&id(2)), None);
    match db.remove(&id(2)) {
        Err(Error::NotFound(e)) => assert_eq!(e.uuid, id(2)),
        _ => panic!("expected a lookup error"),
    }
    assert_eq!(uuids(&db), vec![id(1), id(3)]);
}

#[test]
fn update_needs_an_entry() {
    let mut db = db();
    db.insert(&jail_config(1)).unwrap();
    assert_eq!(db.update(&jail_config(1)).unwrap(), 0);
    assert!(matches!(db.update(&jail_config(2)), Err(Error::NotFound(_))));
    assert_eq!(uuids(&db), vec![id(1)]);
}

#[test]
fn get_joins_the_running_jails() {
    let name = "00000000-0000-0000-0000-000000000001";
    let jails = list(&format!("1 {}\n2 {}.{}\n", name, name, name)).unwrap();
    let mut db = JDB::open(&config(), None, jails).unwrap();
    db.insert(&jail_config(1)).unwrap();
    db.insert(&jail_config(2)).unwrap();
    let jail = db.get(&id(1), jail_config(1)).unwrap();
    assert_eq!(jail.idx.uuid, id(1));
    assert_eq!(jail.config, jail_config(1));
    assert_eq!(jail.outer.unwrap().id, 1);
    assert_eq!(jail.inner.unwrap().id, 2);
    let other = db.get(&id(2), jail_config(2)).unwrap();
    assert!(other.outer.is_none());
    assert!(other.inner.is_none());
    assert!(matches!(db.get(&id(3), jail_config(3)), Err(Error::NotFound(_))));
}

#[test]
fn file_changes() {
    assert_eq!(
        JDB::insert_files(&id(1)),
        vec![FileOp::WriteIndex, FileOp::WriteConfig(id(1))]
    );
    assert_eq!(
        JDB::remove_files(&id(1)),
        vec![FileOp::RemoveConfig(id(1)), FileOp::WriteIndex]
    );
    assert_eq!(JDB::update_files(&id(1)), vec![FileOp::WriteConfig(id(1))]);
}

#[test]
fn undo_insert_restores_the_index() {
    let mut db = db();
    db.insert(&jail_config(1)).unwrap();
    db.insert(&jail_config(2)).unwrap();
    assert_eq!(db.undo_insert(&id(2), true), vec![FileOp::WriteIndex]);
    assert_eq!(uuids(&db), vec![id(1)]);
    assert!(db.undo_insert(&id(2), false).is_empty());
    assert_eq!(uuids(&db), vec![id(1)]);
}

#[test]
fn entries_are_equal_by_identifier() {
    let a = IdxEntry {
        version: 0,
        uuid: id(1),
        root: String::from("pool/a"),
        state: String::from("installed"),
        jail_type: String::from("base"),
    };
    let mut b = a.clone();
    b.root = String::from("pool/b");
    assert!(a == b);
    b.uuid = id(2);
    assert!(a != b);
}

#[test]
fn jail_rows() {
    let name = "00000000-0000-0000-0000-000000000001";
    let jails = list(&format!("7 {}\n", name)).unwrap();
    let mut db = JDB::open(&config(), None, jails).unwrap();
    let e1 = db.insert(&jail_config(1)).unwrap();
    let e2 = db.insert(&jail_config(2)).unwrap();
    assert_eq!(
        db.row(&e1, &jail_config(1)),
        vec![name, "OS", "1024", "running", "7", "alias"]
    );
    assert_eq!(
        db.row(&e2, &jail_config(2)),
        vec!["00000000-0000-0000-0000-000000000002", "OS", "1024", "installed", "0", "alias"]
    );
    assert_eq!(JDB::header(), vec!["UUID", "TYPE", "RAM", "STATE", "ID", "ALIAS"]);
    assert_eq!(JDB::parsable(&JDB::header()), "UUID:TYPE:RAM:STATE:ID:ALIAS");
    assert_eq!(JDB::parsable(&vec![]), "");
}
