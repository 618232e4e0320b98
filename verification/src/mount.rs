//! The pure decisions of the mount lifecycle.
//!
//! Bringing an instance up runs ten strictly sequential steps; tearing one
//! down walks up to the root, unmounts, and stops the serving subprocess by
//! its recorded PID, best-effort. Everything here is the decision half of
//! those steps: deriving the on-disk layout, building the exact command
//! argument vectors, classifying command outcomes, and choosing what to do
//! with registry and probe results. The I/O around these decisions lives
//! with the caller.

use vstd::prelude::*;
use vstd::string::StringExecFns;

use crate::error::{FsError, FsResult};
use crate::hostpath::{spec_path_string, HostPath};
use crate::strutil::{dec_digits, u32_to_string};

verus! {

/// The suffix appended to the mount directory's name to form the adjacent
/// metadata directory.
pub const MFS_DIR_SUFFIX: &'static str = "mfs";

/// The log subdirectory of the metadata directory.
pub const LOG_SUBDIR: &'static str = "log";

/// The block-store subdirectory of the metadata directory.
pub const BLOCKS_SUBDIR: &'static str = "blocks";

/// The metadata database file inside the metadata directory.
pub const FS_DB_FILENAME: &'static str = "fs.db";

/// The marker link inside the mount directory that names the metadata
/// directory.
pub const MFS_LINK_FILENAME: &'static str = ".mfs_link";

/// The environment variable that overrides the serving binary's path.
pub const MFSRUN_EXE_ENV_VAR: &'static str = "MFSRUN_EXE";

/// The compiled-in default path of the serving binary.
pub const DEFAULT_MFSRUN_EXE_PATH: &'static str = "mfsrun";

/// How long to wait between attempts to reach the serving port.
pub const PORT_RETRY_DELAY_MS: u64 = 50;

/// The default budget for following links during resolution.
pub const DEFAULT_MAX_FOLLOW_DEPTH: u32 = 40;

/// The default budget for the upward search for the MFS root.
pub const DEFAULT_MAX_ROOT_SEARCH_DEPTH: u32 = 64;

/// Everything `init` derives before touching the host: the metadata
/// directory adjacent to the mount point, its subdirectories, the database
/// file, and the name the serving subprocess runs under.
#[derive(Debug)]
pub struct InitPlan {
    /// The canonical mount directory.
    pub mount_dir: HostPath,
    /// The metadata directory: the mount directory's sibling, suffixed.
    pub mfs_data_dir: HostPath,
    /// The log directory inside the metadata directory.
    pub log_dir: HostPath,
    /// The block-store directory inside the metadata directory.
    pub blocks_dir: HostPath,
    /// The metadata database file inside the metadata directory.
    pub db_path: HostPath,
    /// The serving subprocess's child name: the mount directory's final
    /// component.
    pub child_name: String,
}

/// The name of the metadata directory that sits beside a mount directory.
pub open spec fn spec_data_dir_name(mount_last: Seq<char>) -> Seq<char> {
    mount_last + "."@ + MFS_DIR_SUFFIX@
}

/// Derives the full on-disk layout from the mount directory. A mount at the
/// filesystem root has no name to derive from and is rejected.
pub fn make_init_plan(mount_dir: &HostPath) -> (r: FsResult<InitPlan>)
    ensures
        r is Ok <==> mount_dir@.len() > 0,
        r matches Ok(p) ==> {
            &&& p.mount_dir@ == mount_dir@
            &&& p.mfs_data_dir@ == mount_dir@.drop_last().push(
                spec_data_dir_name(mount_dir@.last()),
            )
            &&& p.log_dir@ == p.mfs_data_dir@.push(LOG_SUBDIR@)
            &&& p.blocks_dir@ == p.mfs_data_dir@.push(BLOCKS_SUBDIR@)
            &&& p.db_path@ == p.mfs_data_dir@.push(FS_DB_FILENAME@)
            &&& p.child_name@ == mount_dir@.last()
        },
        r matches Err(e) ==> e matches FsError::InvalidOperation(_),
{
    if mount_dir.depth() == 0 {
        return Err(
            FsError::InvalidOperation(
                String::from_str("a mount at the filesystem root has no name"),
            ),
        );
    }
    let child_name = mount_dir.last_segment().clone();
    let mut data_name = mount_dir.last_segment().clone();
    data_name.append(".");
    data_name.append(MFS_DIR_SUFFIX);
    let mfs_data_dir = mount_dir.parent().child(data_name.as_str());
    let log_dir = mfs_data_dir.child(LOG_SUBDIR);
    let blocks_dir = mfs_data_dir.child(BLOCKS_SUBDIR);
    let db_path = mfs_data_dir.child(FS_DB_FILENAME);
    Ok(
        InitPlan {
            mount_dir: mount_dir.clone(),
            mfs_data_dir,
            log_dir,
            blocks_dir,
            db_path,
            child_name,
        },
    )
}

/// The path of the marker link inside a mount directory.
pub fn mfs_link_path(mount_dir: &HostPath) -> (p: HostPath)
    ensures
        p@ == mount_dir@.push(MFS_LINK_FILENAME@),
{
    mount_dir.child(MFS_LINK_FILENAME)
}

/// The database file inside a metadata directory, as `detach` derives it
/// after reading the marker link.
pub fn db_path_in(mfs_data_dir: &HostPath) -> (p: HostPath)
    ensures
        p@ == mfs_data_dir@.push(FS_DB_FILENAME@),
{
    mfs_data_dir.child(FS_DB_FILENAME)
}

/// Picks the serving binary's path: the environment override when set, else
/// the compiled-in default, each with the origin that failure reporting
/// names.
pub fn resolve_mfsrun(env_value: Option<String>) -> (r: (String, String))
    ensures
        env_value matches Some(v) ==> r.0@ == v@ && r.1@ == "environment variable"@,
        env_value is None ==> r.0@ == DEFAULT_MFSRUN_EXE_PATH@ && r.1@ == "default path"@,
{
    match env_value {
        Some(v) => (v, String::from_str("environment variable")),
        None => (String::from_str(DEFAULT_MFSRUN_EXE_PATH), String::from_str("default path")),
    }
}

/// Accepts the serving binary's path only where the binary exists; a
/// missing one is reported with the path and where it came from.
pub fn check_mfsrun_exists(path: String, src: String, exists: bool) -> (r: FsResult<String>)
    ensures
        r is Ok <==> exists,
        r matches Ok(p) ==> p@ == path@,
        r matches Err(e) ==> (e matches FsError::MfsrunBinaryNotFound { path: p2, src: s2 } && p2@
            == path@ && s2@ == src@),
{
    if exists {
        Ok(path)
    } else {
        Err(FsError::MfsrunBinaryNotFound { path, src })
    }
}

/// The argument vector that starts the serving subprocess, exactly as its
/// invocation contract states it.
pub fn supervisor_args(plan: &InitPlan, host: &str, port: u32) -> (args: Vec<String>)
    ensures
        args@.len() == 15,
        args@[0]@ == "supervisor"@,
        args@[1]@ == "--log-dir"@,
        args@[2]@ == spec_path_string(plan.log_dir@),
        args@[3]@ == "--child-name"@,
        args@[4]@ == plan.child_name@,
        args@[5]@ == "--host"@,
        args@[6]@ == host@,
        args@[7]@ == "--port"@,
        args@[8]@ == dec_digits(port as nat),
        args@[9]@ == "--store-dir"@,
        args@[10]@ == spec_path_string(plan.blocks_dir@),
        args@[11]@ == "--fs-db-path"@,
        args@[12]@ == spec_path_string(plan.db_path@),
        args@[13]@ == "--mount-dir"@,
        args@[14]@ == spec_path_string(plan.mount_dir@),
{
    let mut args: Vec<String> = Vec::new();
    args.push(String::from_str("supervisor"));
    args.push(String::from_str("--log-dir"));
    args.push(plan.log_dir.display());
    args.push(String::from_str("--child-name"));
    args.push(plan.child_name.clone());
    args.push(String::from_str("--host"));
    args.push(host.to_owned());
    args.push(String::from_str("--port"));
    args.push(u32_to_string(port));
    args.push(String::from_str("--store-dir"));
    args.push(plan.blocks_dir.display());
    args.push(String::from_str("--fs-db-path"));
    args.push(plan.db_path.display());
    args.push(String::from_str("--mount-dir"));
    args.push(plan.mount_dir.display());
    args
}

/// The NFS option string of the host mount command: locking disabled,
/// protocol version three over TCP, soft timeouts, and both ports pinned to
/// the allocated one.
pub open spec fn spec_mount_options(port: u32) -> Seq<char> {
    "nolocks,vers=3,tcp,port="@ + dec_digits(port as nat) + ",mountport="@ + dec_digits(
        port as nat,
    ) + ",soft"@
}

/// The argument vector of the host mount command.
pub fn mount_args(host: &str, port: u32, mount_dir: &HostPath) -> (args: Vec<String>)
    ensures
        args@.len() == 6,
        args@[0]@ == "-t"@,
        args@[1]@ == "nfs"@,
        args@[2]@ == "-o"@,
        args@[3]@ == spec_mount_options(port),
        args@[4]@ == host@ + ":/"@,
        args@[5]@ == spec_path_string(mount_dir@),
{
    let mut opts = String::from_str("nolocks,vers=3,tcp,port=");
    let rendered = u32_to_string(port);
    opts.append(rendered.as_str());
    opts.append(",mountport=");
    opts.append(rendered.as_str());
    opts.append(",soft");
    let mut source = host.to_owned();
    source.append(":/");
    let mut args: Vec<String> = Vec::new();
    args.push(String::from_str("-t"));
    args.push(String::from_str("nfs"));
    args.push(String::from_str("-o"));
    args.push(opts);
    args.push(source);
    args.push(mount_dir.display());
    args
}

/// The argument vector of the host unmount command, with the force flag
/// exactly when asked for.
pub fn unmount_args(mount_dir: &HostPath, force: bool) -> (args: Vec<String>)
    ensures
        force ==> args@.len() == 2 && args@[0]@ == "-f"@ && args@[1]@ == spec_path_string(
            mount_dir@,
        ),
        !force ==> args@.len() == 1 && args@[0]@ == spec_path_string(mount_dir@),
{
    let mut args: Vec<String> = Vec::new();
    if force {
        args.push(String::from_str("-f"));
    }
    args.push(mount_dir.display());
    args
}

/// Rejects a mount directory that still holds entries: mounting over them
/// would hide them.
pub fn check_mount_point_empty(mount_dir: &HostPath, has_entries: bool) -> (r: FsResult<()>)
    ensures
        r is Ok <==> !has_entries,
        r matches Err(e) ==> (e matches FsError::MountPointNotEmpty(m) && m@ == spec_path_string(
            mount_dir@,
        )),
{
    if has_entries {
        Err(FsError::MountPointNotEmpty(mount_dir.display()))
    } else {
        Ok(())
    }
}

/// Rejects an unmount of a mount point that does not exist.
pub fn check_unmount_target(mount_dir: &HostPath, exists: bool) -> (r: FsResult<()>)
    ensures
        r is Ok <==> exists,
        r matches Err(e) ==> (e matches FsError::IoError(m) && m@ == "mount point does not exist: "@
            + spec_path_string(mount_dir@)),
{
    if exists {
        Ok(())
    } else {
        let mut m = String::from_str("mount point does not exist: ");
        let d = mount_dir.display();
        m.append(d.as_str());
        Err(FsError::IoError(m))
    }
}

/// Classifies the host mount command's exit.
pub fn mount_status(exit_ok: bool) -> (r: FsResult<()>)
    ensures
        r is Ok <==> exit_ok,
        r matches Err(e) ==> e matches FsError::MountFailed(_),
{
    if exit_ok {
        Ok(())
    } else {
        Err(FsError::MountFailed(String::from_str("mount command exited with failure")))
    }
}

/// Classifies the host unmount command's exit.
pub fn unmount_status(exit_ok: bool) -> (r: FsResult<()>)
    ensures
        r is Ok <==> exit_ok,
        r matches Err(e) ==> e matches FsError::UnmountFailed(_),
{
    if exit_ok {
        Ok(())
    } else {
        Err(FsError::UnmountFailed(String::from_str("unmount command exited with failure")))
    }
}

/// One wait step for the serving port: done once a connection succeeded,
/// else retry after the fixed delay — the wait itself has no timeout.
pub enum WaitStep {
    /// The port accepted a connection.
    Ready,
    /// Try again after this many milliseconds.
    RetryAfterMs(u64),
}

/// Decides the next wait step from one connection attempt.
pub fn port_wait_step(connected: bool) -> (r: WaitStep)
    ensures
        connected ==> r is Ready,
        !connected ==> (r matches WaitStep::RetryAfterMs(d) && d == PORT_RETRY_DELAY_MS),
{
    if connected {
        WaitStep::Ready
    } else {
        WaitStep::RetryAfterMs(PORT_RETRY_DELAY_MS)
    }
}

/// The outcome of probing the recorded supervisor process.
pub enum ProcessProbe {
    /// The process is alive.
    Alive,
    /// The process no longer exists.
    Gone,
    /// The probe itself failed.
    ProbeFailed,
}

/// Decides the supervisor-termination step of a detach: the recorded PID is
/// signalled only where the registry had a row and the process is alive.
/// The step itself never fails — a missing row, a failed registry query, a
/// vanished process and a failed probe are all tolerated, so the lookup's
/// outcome never decides the detach's.
pub fn supervisor_stop_plan(lookup: &FsResult<Option<i32>>, probe: ProcessProbe) -> (r: FsResult<
    Option<i32>,
>)
    ensures
        lookup matches Ok(Some(p2)) ==> (if probe is Alive {
            r == Ok::<Option<i32>, FsError>(Some(*p2))
        } else {
            r == Ok::<Option<i32>, FsError>(None)
        }),
        !(lookup matches Ok(Some(_))) ==> r == Ok::<Option<i32>, FsError>(None),
{
    match lookup {
        Ok(Some(pid)) => {
            match probe {
                ProcessProbe::Alive => Ok(Some(*pid)),
                _ => Ok(None),
            }
        },
        _ => Ok(None),
    }
}

} // verus!
