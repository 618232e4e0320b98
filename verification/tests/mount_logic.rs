//! The mount lifecycle's decisions: layout derivation, command argument
//! vectors, port allocation, the upward root search, and best-effort
//! supervisor tear-down.

use monofs::error::{FsError, FsResult};
use monofs::hostpath::HostPath;
use monofs::mount::{
    check_mfsrun_exists, check_mount_point_empty, check_unmount_target, db_path_in,
    make_init_plan, mfs_link_path, mount_args, mount_status, port_wait_step, resolve_mfsrun,
    supervisor_args, supervisor_stop_plan, unmount_args, unmount_status, ProcessProbe, WaitStep,
    DEFAULT_MFSRUN_EXE_PATH, PORT_RETRY_DELAY_MS,
};
use monofs::ports::PortScan;
use monofs::rootfind::{RootSearch, SearchStep};
use monofs::strutil::u32_to_string;

fn host_path(names: &[&str]) -> HostPath {
    HostPath::from_segments(names.iter().map(|n| n.to_string()).collect())
}

#[test]
fn renders_numbers_in_decimal() {
    assert_eq!(u32_to_string(0), "0");
    assert_eq!(u32_to_string(7), "7");
    assert_eq!(u32_to_string(2049), "2049");
    assert_eq!(u32_to_string(4294967295), "4294967295");
}

#[test]
fn displays_absolute_paths() {
    assert_eq!(HostPath::root().display(), "/");
    assert_eq!(host_path(&["tmp", "x"]).display(), "/tmp/x");
    assert_eq!(host_path(&["tmp", "x"]).parent().display(), "/tmp");
    assert_eq!(host_path(&["tmp"]).child("y").display(), "/tmp/y");
}

#[test]
fn init_plan_derives_the_whole_layout() {
    let plan = make_init_plan(&host_path(&["tmp", "work"])).expect("named mount dir");
    assert_eq!(plan.mount_dir.display(), "/tmp/work");
    assert_eq!(plan.mfs_data_dir.display(), "/tmp/work.mfs");
    assert_eq!(plan.log_dir.display(), "/tmp/work.mfs/log");
    assert_eq!(plan.blocks_dir.display(), "/tmp/work.mfs/blocks");
    assert_eq!(plan.db_path.display(), "/tmp/work.mfs/fs.db");
    assert_eq!(plan.child_name, "work");
    assert!(matches!(
        make_init_plan(&HostPath::root()),
        Err(FsError::InvalidOperation(_))
    ));
}

#[test]
fn detach_derives_db_path_from_the_marker() {
    assert_eq!(
        mfs_link_path(&host_path(&["tmp", "work"])).display(),
        "/tmp/work/.mfs_link"
    );
    assert_eq!(
        db_path_in(&host_path(&["tmp", "work.mfs"])).display(),
        "/tmp/work.mfs/fs.db"
    );
}

#[test]
fn supervisor_invocation_follows_the_contract() {
    let plan = make_init_plan(&host_path(&["tmp", "work"])).expect("named mount dir");
    let args = supervisor_args(&plan, "127.0.0.1", 2049);
    let expect = vec![
        "supervisor",
        "--log-dir",
        "/tmp/work.mfs/log",
        "--child-name",
        "work",
        "--host",
        "127.0.0.1",
        "--port",
        "2049",
        "--store-dir",
        "/tmp/work.mfs/blocks",
        "--fs-db-path",
        "/tmp/work.mfs/fs.db",
        "--mount-dir",
        "/tmp/work",
    ];
    assert_eq!(args, expect);
}

#[test]
fn mount_and_unmount_commands_follow_the_contract() {
    let args = mount_args("127.0.0.1", 2050, &host_path(&["tmp", "work"]));
    let expect = vec![
        "-t",
        "nfs",
        "-o",
        "nolocks,vers=3,tcp,port=2050,mountport=2050,soft",
        "127.0.0.1:/",
        "/tmp/work",
    ];
    assert_eq!(args, expect);
    assert_eq!(
        unmount_args(&host_path(&["tmp", "work"]), true),
        vec!["-f", "/tmp/work"]
    );
    assert_eq!(
        unmount_args(&host_path(&["tmp", "work"]), false),
        vec!["/tmp/work"]
    );
}

#[test]
fn mfsrun_path_comes_from_the_environment_or_the_default() {
    let (p, src) = resolve_mfsrun(Some("/opt/bin/mfsrun".to_string()));
    assert_eq!(p, "/opt/bin/mfsrun");
    assert_eq!(src, "environment variable");
    let (p, src) = resolve_mfsrun(None);
    assert_eq!(p, DEFAULT_MFSRUN_EXE_PATH);
    assert_eq!(src, "default path");
    assert_eq!(
        check_mfsrun_exists(p.clone(), src.clone(), true).expect("present"),
        p
    );
    match check_mfsrun_exists(p.clone(), src.clone(), false) {
        Err(FsError::MfsrunBinaryNotFound { path, src: origin }) => {
            assert_eq!(path, p);
            assert_eq!(origin, "default path");
        },
        other => panic!("expected MfsrunBinaryNotFound, got {:?}", other),
    }
}

#[test]
fn non_empty_mount_point_is_rejected() {
    let dir = host_path(&["tmp", "x"]);
    assert!(check_mount_point_empty(&dir, false).is_ok());
    match check_mount_point_empty(&dir, true) {
        Err(FsError::MountPointNotEmpty(m)) => assert_eq!(m, "/tmp/x"),
        other => panic!("expected MountPointNotEmpty, got {:?}", other),
    }
}

#[test]
fn command_exits_are_classified() {
    assert!(mount_status(true).is_ok());
    assert!(matches!(mount_status(false), Err(FsError::MountFailed(_))));
    assert!(unmount_status(true).is_ok());
    assert!(matches!(
        unmount_status(false),
        Err(FsError::UnmountFailed(_))
    ));
    assert!(check_unmount_target(&host_path(&["tmp", "x"]), true).is_ok());
    assert!(matches!(
        check_unmount_target(&host_path(&["tmp", "x"]), false),
        Err(FsError::IoError(_))
    ));
}

#[test]
fn port_wait_retries_at_the_fixed_interval() {
    assert!(matches!(port_wait_step(true), WaitStep::Ready));
    match port_wait_step(false) {
        WaitStep::RetryAfterMs(d) => assert_eq!(d, PORT_RETRY_DELAY_MS),
        WaitStep::Ready => panic!("must retry while the port is unreachable"),
    }
}

#[test]
fn fully_occupied_port_range_is_exhausted() {
    let p = 4000u32;
    let mut scan = PortScan::new("127.0.0.1".to_string(), p, p + 2);
    // Every port of [p, p+2] is taken.
    for expected in [p, p + 1, p + 2] {
        assert_eq!(scan.candidate(), Some(expected));
        scan.mark_unavailable();
    }
    assert_eq!(scan.candidate(), None);
    match scan.exhausted_error() {
        FsError::NoAvailablePorts { host, start, end } => {
            assert_eq!(host, "127.0.0.1");
            assert_eq!(start, p);
            assert_eq!(end, p + 2);
        },
        other => panic!("expected NoAvailablePorts, got {:?}", other),
    }
}

#[test]
fn first_free_port_is_taken() {
    let p = 4000u32;
    let mut scan = PortScan::new("127.0.0.1".to_string(), p, p + 2);
    // p is taken, p+1 is free.
    assert_eq!(scan.candidate(), Some(p));
    scan.mark_unavailable();
    assert_eq!(scan.candidate(), Some(p + 1));
}

#[test]
fn root_search_finds_the_root_three_levels_up() {
    // The true root is /tmp/x; the search starts at /tmp/x/a/b/c.
    let mut search = RootSearch::new(host_path(&["tmp", "x", "a", "b", "c"]), 10);
    let marker_at = "/tmp/x";
    let mut found = None;
    for _ in 0..10 {
        let here = search.current_dir().display();
        match search.step(here == marker_at) {
            SearchStep::Found(p) => {
                found = Some(p);
                break;
            },
            SearchStep::Ascend => {},
            SearchStep::Failed(e) => panic!("search failed early: {:?}", e),
        }
    }
    assert_eq!(found.expect("root located").display(), "/tmp/x");
}

#[test]
fn root_search_without_marker_fails_no_mfs_root() {
    let mut search = RootSearch::new(host_path(&["tmp", "x", "a"]), 10);
    loop {
        match search.step(false) {
            SearchStep::Ascend => {},
            SearchStep::Failed(FsError::NoMfsRootFound(p)) => {
                assert_eq!(p, "/tmp/x/a");
                return;
            },
            other => panic!("expected NoMfsRootFound, got {:?}", other),
        }
    }
}

#[test]
fn root_search_is_bounded_by_max_depth() {
    let mut search = RootSearch::new(host_path(&["a", "b", "c", "d", "e"]), 2);
    assert!(matches!(search.step(false), SearchStep::Ascend));
    assert!(matches!(search.step(false), SearchStep::Ascend));
    match search.step(false) {
        SearchStep::Failed(FsError::MaxMfsRootSearchDepthReached { max_depth, path }) => {
            assert_eq!(max_depth, 2);
            assert_eq!(path, "/a/b/c/d/e");
        },
        other => panic!("expected MaxMfsRootSearchDepthReached, got {:?}", other),
    }
}

#[test]
fn supervisor_stop_is_best_effort() {
    // No registry row: the detach still succeeds and nothing is signalled.
    let no_row: FsResult<Option<i32>> = Ok(None);
    assert_eq!(supervisor_stop_plan(&no_row, ProcessProbe::Gone), Ok(None));
    // A failed registry query is tolerated the same way.
    let failed: FsResult<Option<i32>> = Err(FsError::Database("locked".to_string()));
    assert_eq!(supervisor_stop_plan(&failed, ProcessProbe::Alive), Ok(None));
    // A recorded PID is signalled only while the process is alive.
    let row: FsResult<Option<i32>> = Ok(Some(4242));
    assert_eq!(supervisor_stop_plan(&row, ProcessProbe::Alive), Ok(Some(4242)));
    assert_eq!(supervisor_stop_plan(&row, ProcessProbe::Gone), Ok(None));
    assert_eq!(supervisor_stop_plan(&row, ProcessProbe::ProbeFailed), Ok(None));
}
