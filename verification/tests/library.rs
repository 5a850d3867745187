use bootupd::bios::{Arch, Bios, DeviceQuery};
use bootupd::component::{
    component_update_metapath, component_updatedir, component_updatedirname, require_filetree,
    require_update_metadata, updated_content, ComponentError, Component, InstalledContent,
    ValidationResult,
};
use bootupd::daemon::{
    check_booted, check_client, daemon_step, reply_for, take_listen_socket, ActivationError,
    ClientRejected, DaemonAction, DaemonEvent, DaemonState,
};
use bootupd::efi::{validate_esp_fstype, EspError, EFI};
use bootupd::grub::{FileTreeDiff, GrubConfigs};
use bootupd::ipc::{hello_bytes, reply_outcome, DaemonToClientReply, BOOTUPD_HELLO_MSG};
use bootupd::model::{ContentMetadata, Timestamp};
use bootupd::packages::PackageSet;
use bootupd::path::{chars_of, join_path, string_of};
use bootupd::rpm::{metadata_from_parsed, parse_rpm_query, rpm_records, RpmQueryError, RpmRecord};
use bootupd::text::{int_to_text, trim_text, whitespace_tokens};

fn strings(v: &[&str]) -> Vec<String> {
    v.iter().map(|s| s.to_string()).collect()
}

fn meta(secs: i64, version: &str) -> ContentMetadata {
    ContentMetadata { timestamp: Timestamp { secs, nanos: 0 }, version: Some(version.to_string()) }
}

#[test]
fn join_path_follows_unix_rules() {
    assert_eq!(join_path("/", "boot"), "/boot");
    assert_eq!(join_path("", "boot"), "boot");
    assert_eq!(join_path("/sysroot/", "usr"), "/sysroot/usr");
    assert_eq!(join_path("/sysroot", "usr"), "/sysroot/usr");
    assert_eq!(join_path("/sysroot", "/usr"), "/usr");
    assert_eq!(join_path("a", ""), "a/");
}

#[test]
fn component_names() {
    assert_eq!(Bios::default().name(), "BIOS");
    assert_eq!(EFI::new().name(), "EFI");
    assert_eq!(GrubConfigs::default().name(), "grub-configs");
}

#[test]
fn update_paths_of_components() {
    let efi = EFI::new();
    assert_eq!(component_update_metapath("/", &efi), "/usr/lib/bootupd/updates/EFI.json");
    assert_eq!(component_updatedir("/", &efi), "/usr/lib/bootupd/updates/EFI");
    assert_eq!(
        component_update_metapath("/sysroot", &Bios::default()),
        "/sysroot/usr/lib/bootupd/updates/BIOS.json"
    );
    assert_eq!(
        component_updatedirname(&GrubConfigs::default()),
        "usr/lib/bootupd/updates/grub-configs"
    );
}

#[test]
fn metapath_is_updatedir_with_json() {
    let g = GrubConfigs::default();
    for root in ["/", "", "/a/b", "/a/b/"] {
        assert_eq!(component_update_metapath(root, &g), component_updatedir(root, &g) + ".json");
    }
}

#[test]
fn rpm_query_gives_latest_time_and_sorted_names() {
    let out = b"shim-x64-15.4-5.x86_64,1620000000 grub2-efi-x64-1:2.06-1.fc35.x86_64,1633000000 \n";
    let m = parse_rpm_query(out).ok().unwrap();
    assert_eq!(m.timestamp, Timestamp { secs: 1633000000, nanos: 0 });
    assert_eq!(
        m.version.unwrap(),
        "grub2-efi-x64-1:2.06-1.fc35.x86_64,shim-x64-15.4-5.x86_64"
    );
}

#[test]
fn rpm_query_last_record_of_a_package_wins() {
    let m = parse_rpm_query(b"b,10 a,20 b,5").ok().unwrap();
    assert_eq!(m.timestamp.secs, 20);
    assert_eq!(m.version.unwrap(), "a,b");
    let m = parse_rpm_query(b"b,30 a,20 b,5").ok().unwrap();
    assert_eq!(m.timestamp.secs, 20);
}

#[test]
fn rpm_query_empty_name_gets_no_separator() {
    let m = parse_rpm_query(b",5 a,3").ok().unwrap();
    assert_eq!(m.version.unwrap(), "a");
    assert_eq!(m.timestamp.secs, 5);
}

#[test]
fn rpm_query_splits_at_unicode_white_space() {
    let m = parse_rpm_query("\ta,1\n\u{3000}b,2\u{85}".as_bytes()).ok().unwrap();
    assert_eq!(m.version.unwrap(), "a,b");
    assert_eq!(m.timestamp.secs, 2);
}

#[test]
fn rpm_query_only_first_comma_splits() {
    let recs = rpm_records("pkg,1,2 other");
    assert_eq!(recs.len(), 2);
    assert_eq!(recs[0].name, "pkg");
    assert_eq!(recs[0].stamp.as_deref(), Some("1,2"));
    assert_eq!(recs[1].name, "other");
    assert_eq!(recs[1].stamp, None);
}

#[test]
fn rpm_query_errors() {
    match parse_rpm_query(b"a,1 foo b,zz") {
        Err(RpmQueryError::MissingBuildTime { record }) => assert_eq!(record, "foo"),
        _ => panic!("expected a missing build time"),
    }
    match parse_rpm_query(b"a,1 b,zz foo") {
        Err(RpmQueryError::InvalidBuildTime { stamp, .. }) => assert_eq!(stamp, "zz"),
        _ => panic!("expected an invalid build time"),
    }
    assert!(matches!(parse_rpm_query(b"  \n "), Err(RpmQueryError::NoPackages)));
    assert!(matches!(parse_rpm_query(&[0x61, 0x2c, 0xff]), Err(RpmQueryError::NotUtf8(_))));
}

#[test]
fn package_set_replaces_and_orders() {
    let mut set = PackageSet::new();
    assert!(set.content_metadata().is_none());
    set.insert("zz", Timestamp { secs: 3, nanos: 0 });
    set.insert("aa", Timestamp { secs: 7, nanos: 1 });
    set.insert("mm", Timestamp { secs: 7, nanos: 0 });
    set.insert("zz", Timestamp { secs: 1, nanos: 0 });
    assert_eq!(set.len(), 3);
    let m = set.content_metadata().unwrap();
    assert_eq!(m.timestamp, Timestamp { secs: 7, nanos: 1 });
    assert_eq!(m.version.unwrap(), "aa,mm,zz");
}

fn record(name: &str, stamp: Option<&str>) -> RpmRecord {
    RpmRecord { name: name.to_string(), stamp: stamp.map(|s| s.to_string()) }
}

#[test]
fn metadata_from_parsed_reports_the_first_failure() {
    let recs = vec![record("a", Some("9")), record("b", Some("x")), record("c", None)];
    let err = chrono::NaiveDateTime::parse_from_str("x", "%s").unwrap_err();
    let parsed = vec![Some(Ok(Timestamp { secs: 9, nanos: 0 })), Some(Err(err))];
    match metadata_from_parsed(&recs, &parsed) {
        Err(RpmQueryError::InvalidBuildTime { stamp, error }) => {
            assert_eq!(stamp, "x");
            assert_eq!(error, err);
        }
        _ => panic!("expected an invalid build time"),
    }
    let recs = vec![record("c", None), record("b", Some("x"))];
    match metadata_from_parsed(&recs, &vec![None]) {
        Err(RpmQueryError::MissingBuildTime { record }) => assert_eq!(record, "c"),
        _ => panic!("expected a missing build time"),
    }
    let recs = vec![record("b", Some("3")), record("a", Some("4"))];
    let parsed = vec![
        Some(Ok(Timestamp { secs: 3, nanos: 0 })),
        Some(Ok(Timestamp { secs: 4, nanos: 0 })),
    ];
    let m = metadata_from_parsed(&recs, &parsed).ok().unwrap();
    assert_eq!(m.timestamp.secs, 4);
    assert_eq!(m.version.unwrap(), "a,b");
    assert!(matches!(metadata_from_parsed(&Vec::new(), &Vec::new()), Err(RpmQueryError::NoPackages)));
}

#[test]
fn rpm_build_times_chrono_reads() {
    assert_eq!(parse_rpm_query(b"a,8210266876799").ok().unwrap().timestamp.secs, 8210266876799);
    assert_eq!(parse_rpm_query(b"a,0007").ok().unwrap().timestamp, Timestamp { secs: 7, nanos: 0 });
    for bad in ["a,8210266876800", "a,+1", "a,-1", "a,1x", "a,", "a,99999999999999999999", "a,1,2"] {
        assert!(
            matches!(parse_rpm_query(bad.as_bytes()), Err(RpmQueryError::InvalidBuildTime { .. })),
            "{}",
            bad
        );
    }
}

#[test]
fn chrono_epoch_seconds_skip_leading_white_space() {
    let t = chrono::NaiveDateTime::parse_from_str(" \u{3000}\t12", "%s").unwrap();
    assert_eq!(t.and_utc().timestamp(), 12);
    assert_eq!(t.and_utc().timestamp_subsec_nanos(), 0);
    assert!(chrono::NaiveDateTime::parse_from_str("12 ", "%s").is_err());
    assert!(chrono::NaiveDateTime::parse_from_str(" ", "%s").is_err());
}

#[test]
fn rpm_records_order_and_repeats_do_not_matter() {
    let a = parse_rpm_query(b"b,10 a,20 c,5").ok().unwrap();
    let b = parse_rpm_query(b"c,5 a,20 b,10 a,20 c,5").ok().unwrap();
    assert_eq!(a.timestamp, b.timestamp);
    assert_eq!(a.version, b.version);
}

#[test]
fn tokens_and_trim() {
    let toks = whitespace_tokens(&chars_of("  a b\t\tcd  "));
    let toks: Vec<String> = toks.iter().map(string_of).collect();
    assert_eq!(toks, strings(&["a", "b", "cd"]));
    assert!(whitespace_tokens(&chars_of(" \n ")).is_empty());
    assert_eq!(trim_text("  /dev/sda2 \n"), "/dev/sda2");
    assert_eq!(trim_text("\u{a0}x y\u{2003}"), "x y");
    assert_eq!(trim_text(" \t "), "");
}

#[test]
fn integers_as_text() {
    assert_eq!(int_to_text(0), "0");
    assert_eq!(int_to_text(7), "7");
    assert_eq!(int_to_text(1234), "1234");
    assert_eq!(int_to_text(-42), "-42");
    assert_eq!(int_to_text(i64::MIN), i64::MIN.to_string());
}

#[test]
fn bios_grub_install_command() {
    let c = Bios::grub_install_command(Arch::X86_64, "/mnt", "/dev/vda");
    assert_eq!(c.program, "/usr/sbin/grub2-install");
    assert_eq!(
        c.args,
        strings(&[
            "--target",
            "i386-pc",
            "--boot-directory",
            "/mnt/boot",
            "--modules",
            "mdraid1x part_gpt",
            "/dev/vda"
        ])
    );
    let c = Bios::grub_install_command(Arch::PowerPc64, "/", "/dev/sda1");
    assert_eq!(
        c.args,
        strings(&["--target", "powerpc-ieee1275", "--boot-directory", "/boot", "--no-nvram", "/dev/sda1"])
    );
    assert_eq!(Bios::grub_install_path("/sysroot"), "/sysroot/usr/sbin/grub2-install");
}

#[test]
fn bios_device_query_steps() {
    let mut outputs: Vec<String> = Vec::new();
    match Bios::device_query(Arch::X86_64, &outputs) {
        DeviceQuery::Run(c) => {
            assert_eq!(c.program, "findmnt");
            assert_eq!(c.args, strings(&["--noheadings", "--output", "SOURCE", "/boot"]));
        }
        DeviceQuery::Found(_) => panic!("expected a command"),
    }
    outputs.push(" /dev/vda3\n".to_string());
    match Bios::device_query(Arch::X86_64, &outputs) {
        DeviceQuery::Run(c) => {
            assert_eq!(c.program, "lsblk");
            assert_eq!(c.args, strings(&["--paths", "--noheadings", "--output", "PKNAME", "/dev/vda3"]));
        }
        DeviceQuery::Found(_) => panic!("expected a command"),
    }
    outputs.push("/dev/vda\n".to_string());
    match Bios::device_query(Arch::X86_64, &outputs) {
        DeviceQuery::Found(d) => assert_eq!(Bios::update_device(&d), "/dev/vda"),
        DeviceQuery::Run(_) => panic!("expected the device"),
    }
    match Bios::device_query(Arch::PowerPc64, &Vec::new()) {
        DeviceQuery::Run(c) => {
            assert_eq!(c.program, "realpath");
            assert_eq!(c.args, strings(&["/dev/disk/by-partlabel/PowerPC-PReP-boot"]));
        }
        DeviceQuery::Found(_) => panic!("expected a command"),
    }
}

#[test]
fn bios_update_and_validate() {
    let b = Bios::default();
    let c: InstalledContent<()> = b.update_content(Some(meta(5, "grub2-pc")));
    assert_eq!(c.meta.timestamp.secs, 5);
    assert!(c.filetree.is_none() && c.adopted_from.is_none());
    assert!(matches!(b.validate(), ValidationResult::Skip));
}

#[test]
fn efi_commands() {
    let efi = EFI::new();
    let c = efi.copy_command("/", "/mnt");
    assert_eq!(c.program, "cp");
    assert_eq!(
        c.args,
        strings(&["-rp", "--reflink=auto", "/usr/lib/bootupd/updates/EFI", "/mnt/boot/efi"])
    );
    let args = efi.rpm_query_args(&strings(&["BOOT/BOOTX64.EFI", "fedora/shimx64.efi"]));
    assert_eq!(
        args,
        strings(&[
            "-q",
            "--queryformat",
            "%{nevra},%{buildtime} ",
            "-f",
            "/boot/efi/EFI/BOOT/BOOTX64.EFI",
            "/boot/efi/EFI/fedora/shimx64.efi"
        ])
    );
    let p = efi.source_paths("/sysroot", "usr/lib/ostree-boot");
    assert_eq!(p.ostree_boot, "/sysroot/usr/lib/ostree-boot");
    assert_eq!(
        p.cruft,
        strings(&["/sysroot/usr/lib/ostree-boot/loader", "/sysroot/usr/lib/ostree-boot/grub2"])
    );
    assert_eq!(p.efi_src, "/sysroot/usr/lib/ostree-boot/efi/EFI");
    assert_eq!(p.update_dir, "/sysroot/usr/lib/bootupd/updates/EFI");
    assert_eq!(p.move_files.program, "mv");
    assert_eq!(p.move_files.args, vec![p.efi_src.clone(), p.update_dir.clone()]);
}

#[test]
fn esp_must_be_fat() {
    assert!(validate_esp_fstype(0x4d44).is_ok());
    assert!(matches!(validate_esp_fstype(0xEF53), Err(EspError::NotMsdos { fstype: 0xEF53 })));
}

#[test]
fn grub_install_and_config_paths() {
    let g = GrubConfigs::default();
    assert_eq!(g.static_config_path(), "/usr/lib/bootupd/grub2-static/grub.cfg");
    let c = g.install_command("/mnt", 7);
    assert_eq!(c.program, "cp");
    assert_eq!(
        c.args,
        strings(&["-rp", "--reflink=auto", "usr/lib/bootupd/updates/grub-configs", "/mnt/boot"])
    );
    assert_eq!(c.current_dir.as_deref(), Some("/proc/self/fd/7"));
}

#[test]
fn grub_validation_reports_changes_then_removals() {
    let g = GrubConfigs::default();
    let diff = FileTreeDiff {
        additions: Vec::new(),
        removals: strings(&["grub2/grub.cfg"]),
        changes: strings(&["grub2/grubenv", "EFI/fedora/grub.cfg"]),
    };
    match g.validate_diff(&diff) {
        ValidationResult::Errors(e) => assert_eq!(
            e,
            strings(&[
                "Changed: grub2/grubenv",
                "Changed: EFI/fedora/grub.cfg",
                "Removed: grub2/grub.cfg"
            ])
        ),
        _ => panic!("expected errors"),
    }
    let clean = FileTreeDiff { additions: Vec::new(), removals: Vec::new(), changes: Vec::new() };
    assert!(matches!(g.validate_diff(&clean), ValidationResult::Valid));
}

#[test]
fn requirements_of_components() {
    let efi = EFI::new();
    match require_update_metadata(&efi, None) {
        Err(ComponentError::NoUpdateMetadata { component }) => assert_eq!(component, "EFI"),
        _ => panic!("expected missing metadata"),
    }
    assert_eq!(require_update_metadata(&efi, Some(meta(1, "x"))).ok().unwrap().timestamp.secs, 1);
    let none: InstalledContent<u32> = updated_content(meta(2, "y"), None);
    assert!(matches!(require_filetree(&none), Err(ComponentError::NoFiletree)));
    let some: InstalledContent<u32> = updated_content(meta(2, "y"), Some(9));
    assert_eq!(*require_filetree(&some).ok().unwrap(), 9);
}

#[test]
fn hello_and_client_check() {
    assert_eq!(hello_bytes(), BOOTUPD_HELLO_MSG.as_bytes().to_vec());
    assert_eq!(hello_bytes(), b"bootupd-hello\n".to_vec());
    assert!(check_client(0, 10, &hello_bytes()).is_ok());
    assert!(matches!(
        check_client(1000, 10, &hello_bytes()),
        Err(ClientRejected::Unauthorized { pid: 10, uid: 1000 })
    ));
    match check_client(0, 10, b"bootupd-hello") {
        Err(ClientRejected::BadHello { found }) => assert_eq!(found, b"bootupd-hello".to_vec()),
        _ => panic!("expected a bad hello"),
    }
}

#[test]
fn reply_round_trip() {
    let ok = reply_outcome(reply_for(Ok(vec![1, 2, 3])));
    assert_eq!(ok, Ok(vec![1, 2, 3]));
    let err = reply_outcome(reply_for(Err("no such component".to_string())));
    assert_eq!(err, Err("internal error: no such component".to_string()));
    match reply_for(Err("x".to_string())) {
        DaemonToClientReply::Failure(m) => assert_eq!(m, "x"),
        DaemonToClientReply::Success(_) => panic!("expected a failure"),
    }
}

#[test]
fn daemon_serves_a_single_client_then_exits() {
    let (s, a) = daemon_step(DaemonState::Listening, DaemonEvent::Accepted);
    assert_eq!((s, a), (DaemonState::Serving, DaemonAction::ServeClient));
    let (s, a) = daemon_step(s, DaemonEvent::ClientFinished { ok: true });
    assert_eq!((s, a), (DaemonState::Exited { ok: true }, DaemonAction::Exit { ok: true }));
    let (s2, a2) = daemon_step(s, DaemonEvent::Accepted);
    assert_eq!((s2, a2), (s, DaemonAction::Ignore));
    assert_eq!(
        daemon_step(DaemonState::Serving, DaemonEvent::ClientFinished { ok: false }),
        (DaemonState::Exited { ok: true }, DaemonAction::Exit { ok: true })
    );
    assert_eq!(
        daemon_step(DaemonState::Listening, DaemonEvent::TimedOut),
        (DaemonState::Exited { ok: true }, DaemonAction::Exit { ok: true })
    );
    assert_eq!(
        daemon_step(DaemonState::Listening, DaemonEvent::AcceptFailed),
        (DaemonState::Exited { ok: false }, DaemonAction::Exit { ok: false })
    );
    assert_eq!(
        daemon_step(DaemonState::Serving, DaemonEvent::TimedOut),
        (DaemonState::Serving, DaemonAction::Ignore)
    );
}

#[test]
fn systemd_activation_decisions() {
    assert!(check_booted(true).is_ok());
    assert!(matches!(check_booted(false), Err(ActivationError::NotBooted)));
    assert!(matches!(take_listen_socket(vec![3, 4]), Ok(4)));
    assert!(matches!(take_listen_socket(Vec::<i32>::new()), Err(ActivationError::NoSocket)));
}
