use vmadm::errors::Error;
use vmadm::zfs;

#[test]
fn dataset_line() {
    let e = zfs::deconstruct_entry("pool/jail\t1024\t2048\t512\t/pool/jail").unwrap();
    assert_eq!(e.name, "pool/jail");
    assert_eq!(e.used, 1024);
    assert_eq!(e.avail, 2048);
    assert_eq!(e.refer, 512);
    assert_eq!(e.mountpoint, "/pool/jail");
}

fn message(r: Result<zfs::ZFSEntry, Error>) -> String {
    match r {
        Err(e) => e.message(),
        Ok(_) => panic!("expected an error"),
    }
}

#[test]
fn dataset_line_errors() {
    assert_eq!(message(zfs::deconstruct_entry("pool")), "USED field missing");
    assert_eq!(message(zfs::deconstruct_entry("pool\t1")), "AVAIL field missing");
    assert_eq!(message(zfs::deconstruct_entry("pool\t1\t2")), "REFER field missing");
    assert_eq!(message(zfs::deconstruct_entry("pool\t1\t2\t3")), "MOUNTPOINT field missing");
    assert_eq!(message(zfs::deconstruct_entry("pool\tx\t2\t3\t/")), "invalid number: x");
    assert_eq!(message(zfs::deconstruct_entry("pool\t1\t-\t3\t/")), "invalid number: -");
    assert_eq!(message(zfs::deconstruct_entry("pool\t1\t2\t\t/")), "invalid number: ");
}

#[test]
fn dataset_list() {
    let l = zfs::read_list("pool\t1\t2\t3\t/pool\n\npool/a\t4\t5\t6\t/pool/a\n").unwrap();
    assert_eq!(l.len(), 2);
    assert_eq!(l[0].name, "pool");
    assert_eq!(l[1].name, "pool/a");
    assert_eq!(l[1].refer, 6);
    assert!(zfs::read_list("").unwrap().is_empty());
    match zfs::read_list("pool\t1\t2\t3\t/pool\nbroken\npool/a\tx\n") {
        Err(e) => assert_eq!(e.message(), "USED field missing"),
        Ok(_) => panic!("expected an error"),
    }
}

#[test]
fn origin_of_a_dataset() {
    assert_eq!(
        zfs::read_origin("pool/a\torigin\tpool/img@a\t-\n").unwrap(),
        "pool/img@a"
    );
    match zfs::read_origin("pool/a\torigin") {
        Err(e) => assert_eq!(e.message(), "PROPERTY field missing"),
        Ok(_) => panic!("expected an error"),
    }
}

#[test]
fn calls() {
    assert_eq!(zfs::list("pool").line(), "zfs list -p -H -r -d1 pool");
    assert_eq!(zfs::get("pool/a").command.line(), "zfs list -p -H pool/a");
    assert_eq!(zfs::origin("pool/a").command.line(), "zfs get -p -H origin pool/a");
    assert_eq!(zfs::create("pool/a").command.line(), "zfs create pool/a");
    assert_eq!(zfs::snapshot("pool/a", "s").command.line(), "zfs snapshot pool/a@s");
    assert_eq!(zfs::clone("pool/a@s", "pool/b").command.line(), "zfs clone pool/a@s pool/b");
    assert_eq!(zfs::destroy("pool/b").command.line(), "zfs destroy pool/b");
    assert_eq!(zfs::receive("pool/b").command.line(), "zfs receive pool/b");
    assert_eq!(zfs::snapshot_path("pool/a", "s"), "pool/a@s");
}

#[test]
fn failures() {
    assert_eq!(zfs::get("a").failure, Some(String::from("Failed to get dataset")));
    assert_eq!(zfs::origin("a").failure, Some(String::from("Failed to get dataset")));
    assert_eq!(zfs::create("a").failure, Some(String::from("Failed create dataset")));
    assert_eq!(zfs::snapshot("a", "s").failure, Some(String::from("Failed create snapshot")));
    assert_eq!(zfs::clone("a", "b").failure, Some(String::from("Failed to clone dataset")));
    assert_eq!(zfs::destroy("a").failure, Some(String::from("Failed destroy dataset")));
}
