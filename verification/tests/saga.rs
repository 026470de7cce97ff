use vmadm::command::Step;
use vmadm::config::{Config, Networks, Settings};
use vmadm::create::{CreateAction, CreateState};
use vmadm::errors::Error;
use vmadm::jail_config::{JailConfig, NIC};
use vmadm::jails::JailList;
use vmadm::jdb::{IdxEntry, JDB};
use vmadm::saga::{Move, Phase, Saga};
use vmadm::uuid::Uuid;

fn tell(len: usize, fail_at: Option<usize>) -> Vec<Move> {
    let mut saga = Saga::new(len);
    let mut moves = Vec::new();
    loop {
        let m = saga.next();
        moves.push(m);
        match m {
            Move::Finish(_) => return moves,
            Move::Forward(i) => saga.advance(Some(i) != fail_at),
            Move::Backward(_) => saga.advance(true),
        }
    }
}

#[test]
fn saga_without_failure() {
    assert_eq!(
        tell(3, None),
        vec![Move::Forward(0), Move::Forward(1), Move::Forward(2), Move::Finish(true)]
    );
    assert_eq!(tell(0, None), vec![Move::Finish(true)]);
}

#[test]
fn saga_takes_back_in_reverse() {
    assert_eq!(
        tell(3, Some(2)),
        vec![
            Move::Forward(0),
            Move::Forward(1),
            Move::Forward(2),
            Move::Backward(1),
            Move::Backward(0),
            Move::Finish(false)
        ]
    );
    assert_eq!(
        tell(3, Some(1)),
        vec![Move::Forward(0), Move::Forward(1), Move::Backward(0), Move::Finish(false)]
    );
    assert_eq!(tell(3, Some(0)), vec![Move::Forward(0), Move::Finish(false)]);
}

#[test]
fn saga_leaves_no_effect_after_a_failure() {
    for len in 0..6usize {
        for fail in 0..len {
            let mut standing: Vec<usize> = Vec::new();
            for m in tell(len, Some(fail)) {
                match m {
                    Move::Forward(i) if i != fail => standing.push(i),
                    Move::Backward(i) => {
                        assert_eq!(standing.pop(), Some(i));
                    }
                    _ => {}
                }
            }
            assert!(standing.is_empty());
        }
    }
}

#[test]
fn saga_stays_finished() {
    let mut saga = Saga::new(1);
    saga.advance(true);
    assert_eq!(saga.next(), Move::Finish(true));
    saga.advance(true);
    assert_eq!(saga.phase, Phase::Forward(1));
    let mut failed = Saga::new(1);
    failed.advance(false);
    assert_eq!(failed.next(), Move::Finish(false));
    failed.advance(true);
    assert_eq!(failed.next(), Move::Finish(false));
}

fn config() -> Config {
    let mut networks = Networks::new();
    networks.insert("admin", "bridge0");
    Config {
        settings: Settings::with_defaults(String::from("pool"), None, None, None, None, networks),
    }
}

fn id(last: u8) -> Uuid {
    let mut bytes = [0u8; 16];
    bytes[15] = last;
    Uuid::from_bytes(bytes)
}

fn jail_config() -> JailConfig {
    JailConfig {
        brand: String::from("jail"),
        uuid: id(1),
        image_uuid: id(2),
        alias: String::from("a"),
        hostname: String::from("host-a"),
        autostart: false,
        max_physical_memory: 1024,
        cpu_cap: 100,
        quota: 5,
        max_shm_memory: None,
        max_locked_memory: None,
        nics: vec![NIC {
            interface: String::from("net0"),
            mac: String::from("02:00:00:00:00:01"),
            vlan: None,
            nic_tag: String::from("admin"),
            ip: String::from("10.0.0.2"),
            netmask: String::from("255.255.255.0"),
            gateway: String::from("10.0.0.1"),
            primary: true,
            mtu: None,
            network_uuid: None,
        }],
        max_lwps: 2000,
        archive_on_delete: None,
        billing_id: None,
        do_not_inventory: None,
        dns_domain: String::from("local"),
        indestructible_delegated: None,
        indestructible_zoneroot: None,
        owner_uuid: None,
        package_name: None,
        package_version: None,
    }
}

/// Runs the creation against a database in memory and a storage that fails
/// the call whose line is `failing`; gives the log of what was done and
/// the outcome.
fn create(db: &mut JDB, failing: Option<&str>) -> (Vec<String>, Result<String, String>) {
    let conf = JailConfig::from_parsed(&config(), jail_config()).unwrap();
    let mut state = CreateState::new(&config(), conf);
    let mut saga = CreateState::saga();
    let mut log: Vec<String> = Vec::new();
    let mut error: Option<String> = None;
    loop {
        let m = saga.next();
        if let Move::Finish(ok) = m {
            assert_eq!(ok, error.is_none());
            let outcome = match error {
                None => Ok(state.created_message()),
                Some(e) => Err(e),
            };
            return (log, outcome);
        }
        let mut entry: Option<IdxEntry> = None;
        let outcome: Result<(), String> = match state.action(m) {
            Err(e) => Err(e.message()),
            Ok(CreateAction::Nothing) => Ok(()),
            Ok(CreateAction::Insert) => {
                log.push(String::from("insert"));
                match db.insert(&state.config) {
                    Ok(e) => {
                        entry = Some(e);
                        Ok(())
                    }
                    Err(e) => Err(e.message()),
                }
            }
            Ok(CreateAction::Remove(uuid)) => {
                log.push(String::from("remove index"));
                let _ = db.remove(&uuid);
                Ok(())
            }
            Ok(CreateAction::Run(Step { command, failure })) => {
                let line = command.line();
                log.push(line.clone());
                if Some(line.as_str()) == failing {
                    Err(failure.unwrap())
                } else {
                    Ok(())
                }
            }
        };
        match (m, outcome) {
            (Move::Forward(_), Ok(())) => {
                state = state.completed(m, entry);
                saga.advance(true);
            }
            (Move::Forward(_), Err(e)) => {
                error = Some(e);
                saga.advance(false);
            }
            _ => saga.advance(true),
        }
    }
}

const IMAGE: &str = "pool/00000000-0000-0000-0000-000000000002";
const JAIL: &str = "pool/00000000-0000-0000-0000-000000000001";
const SNAPSHOT: &str =
    "pool/00000000-0000-0000-0000-000000000002@00000000-0000-0000-0000-000000000001";

#[test]
fn create_inserts_snapshots_and_clones() {
    let mut db = JDB::open(&config(), None, JailList::new()).unwrap();
    let (log, outcome) = create(&mut db, None);
    assert_eq!(
        log,
        vec![
            String::from("insert"),
            format!("zfs snapshot {}", SNAPSHOT),
            format!("zfs clone {} {}", SNAPSHOT, JAIL),
        ]
    );
    assert_eq!(
        outcome,
        Ok(String::from("Created jail 00000000-0000-0000-0000-000000000001"))
    );
    assert_eq!(db.find(&id(1)), Some(0));
    assert!(IMAGE.len() < SNAPSHOT.len());
}

#[test]
fn create_failing_at_the_clone_is_taken_back() {
    let mut db = JDB::open(&config(), None, JailList::new()).unwrap();
    let failing = format!("zfs clone {} {}", SNAPSHOT, JAIL);
    let (log, outcome) = create(&mut db, Some(&failing));
    assert_eq!(
        log,
        vec![
            String::from("insert"),
            format!("zfs snapshot {}", SNAPSHOT),
            failing.clone(),
            format!("zfs destroy {}", SNAPSHOT),
            String::from("remove index"),
        ]
    );
    assert_eq!(outcome, Err(String::from("Failed to clone dataset")));
    assert!(db.enumerate().is_empty());
}

#[test]
fn create_failing_at_the_snapshot_is_taken_back() {
    let mut db = JDB::open(&config(), None, JailList::new()).unwrap();
    let failing = format!("zfs snapshot {}", SNAPSHOT);
    let (log, outcome) = create(&mut db, Some(&failing));
    assert_eq!(
        log,
        vec![String::from("insert"), failing.clone(), String::from("remove index")]
    );
    assert_eq!(outcome, Err(String::from("Failed create snapshot")));
    assert!(db.enumerate().is_empty());
}

#[test]
fn create_of_a_jail_that_is_there_takes_nothing_back() {
    let mut db = JDB::open(&config(), None, JailList::new()).unwrap();
    db.insert(&jail_config()).unwrap();
    let (log, outcome) = create(&mut db, None);
    assert_eq!(log, vec![String::from("insert")]);
    assert_eq!(
        outcome,
        Err(String::from("Duplicated UUID: 00000000-0000-0000-0000-000000000001"))
    );
    assert_eq!(db.find(&id(1)), Some(0));
}

#[test]
fn clone_needs_a_snapshot_and_an_entry() {
    let state = CreateState::new(&config(), jail_config());
    assert_eq!(state.dataset, IMAGE);
    match state.action(Move::Forward(2)) {
        Err(Error::Generic(e)) => assert_eq!(e.msg, "No snap to clone"),
        _ => panic!("expected an error"),
    }
    let state = state.completed(Move::Forward(1), None);
    assert_eq!(state.snapshot, Some(String::from(SNAPSHOT)));
    match state.action(Move::Forward(2)) {
        Err(Error::Generic(e)) => assert_eq!(e.msg, "No root to clone"),
        _ => panic!("expected an error"),
    }
    assert!(matches!(state.action(Move::Backward(2)), Ok(CreateAction::Nothing)));
    assert!(matches!(state.action(Move::Backward(1)), Ok(CreateAction::Run(_))));
}
