//! The deployment engine as a state machine. A job says which action to run
//! next; the caller runs it, hands back its outcome, and the job decides what
//! follows, until it is done.
use vstd::prelude::*;
use vstd::string::*;
use crate::error::HammerError;
use crate::history::{lemma_spare_excludes, spare, without, lemma_listed_in_history, NAME_PREFIX, clean_plan, deployment_path, doomed, history_of, history_paths, path_of, select_rollback};
use crate::naming::{deployment_path_for, name_of_day, valid_day, Day};
use crate::order::is_sorting_of;
use crate::subvolume::{id_in_report, parse_subvolume_id};
use crate::text::{lines_of, views};

verus! {

/// The name of the long-lived container.
pub const CONTAINER_NAME: &'static str = "hammer-container-default";

/// What a job does.
#[derive(Debug, Clone, PartialEq, Eq)]
pub enum Kind {
    /// Make a read-only snapshot of the current root, named after the day.
    Deploy,
    /// Install a package into a new snapshot and boot it next.
    Install(String),
    /// Remove a package in a new snapshot and boot it next.
    Remove(String),
    /// Make another deployment the boot default.
    Switch,
    /// Prune containers and delete all but the newest deployments.
    Clean,
    /// Install a package in the container.
    ContainerInstall(String),
    /// Remove a package from the container.
    ContainerRemove(String),
    /// Update the container's package index.
    Refresh,
}

/// Where a job stands: the stage names the action that runs next.
#[derive(Debug, Clone, Copy, PartialEq, Eq)]
pub enum Stage {
    Snapshot,
    MakeWritable,
    Mount(u8),
    Body,
    Unmount,
    Seal,
    CheckTarget,
    Resolve,
    SetDefault,
    Pointer,
    Prune,
    Delete,
    FindContainer,
    MakeContainer,
    Update,
    PackageOp,
    Export,
    Done,
}

/// A package front-end command run in the container.
#[derive(Debug, Clone, PartialEq, Eq)]
pub enum AptOp {
    Update,
    Install(String),
    Remove(String),
}

/// An external step for the caller to run.
#[derive(Debug, Clone, PartialEq, Eq)]
pub enum Action {
    /// Snapshot `source` at `dest`, read-only or writable.
    Snapshot { source: String, dest: String, readonly: bool },
    /// Set the read-only property of the snapshot at `path`.
    SetReadonly { path: String, readonly: bool },
    /// Create `target` if missing and bind-mount the host's `source` there.
    BindMount { source: String, target: String },
    /// Unmount `target`.
    Unmount { target: String },
    /// Run a shell `script` chrooted into `root`.
    RunInChroot { root: String, script: String },
    /// Report on the subvolume at `path`; success carries the report on stdout.
    ShowSubvolume { path: String },
    /// Make subvolume `id` the default of the volume.
    SetDefault { id: String },
    /// Point the current pointer at `path`, replacing what it pointed to.
    PointCurrent { path: String },
    /// Succeed exactly when `path` exists.
    CheckExists { path: String },
    /// Delete the snapshot at `path`.
    DeleteSnapshot { path: String },
    /// Prune unused containers and images.
    PruneContainers,
    /// List the containers named `name`; stdout is empty when there is none.
    ListContainer { name: String },
    /// Create the container `name` from the base image, idle.
    CreateContainer { name: String },
    /// Run a package command in the container `name`.
    ContainerApt { name: String, op: AptOp },
    /// Copy `/usr/bin/<package>` out of the container to the user's binaries.
    ExportBinary { name: String, package: String },
    /// Nothing is left to run.
    Finish,
}

/// What running an action gave.
#[derive(Debug, Clone, PartialEq, Eq)]
pub struct Outcome {
    pub success: bool,
    pub stdout: String,
    pub stderr: String,
}

/// A running job of the engine.
#[derive(Debug)]
pub struct Job {
    pub kind: Kind,
    pub stage: Stage,
    /// The snapshot that seeds a new one: where the current pointer points.
    pub parent: String,
    /// The snapshot made, or switched to.
    pub target: String,
    /// Bind mounts held that are still to be torn down, the first `pending`
    /// of proc, sys, dev.
    pub pending: u8,
    /// Bind mounts whose unmount failed.
    pub stuck: u8,
    /// The first error met; the job fails with it.
    pub error: Option<HammerError>,
    /// Whether the new snapshot was sealed read-only.
    pub sealed: bool,
    /// The snapshot that this job made the boot default.
    pub boot_default: Option<String>,
    /// Whether the current pointer was moved to the target.
    pub pointer_moved: bool,
    /// Why the current pointer could not be moved, after the boot default was.
    pub pointer_warning: Option<String>,
    /// The target's subvolume id, once read.
    pub id: String,
    /// The deployments that a cleanup deletes, oldest first.
    pub doomed: Vec<String>,
    /// How many of `doomed` have been handed out.
    pub next_delete: usize,
}

pub open spec fn is_atomic(k: Kind) -> bool {
    k is Install || k is Remove
}

/// The directory of bind mount `i`: proc, sys, dev.
pub open spec fn mount_dir(i: int) -> Seq<char> {
    if i == 0 {
        "proc"@
    } else if i == 1 {
        "sys"@
    } else {
        "dev"@
    }
}

fn mount_dir_name(i: u8) -> (r: &'static str)
    ensures
        r@ == mount_dir(i as int),
{
    if i == 0 {
        "proc"
    } else if i == 1 {
        "sys"
    } else {
        "dev"
    }
}

/// The script run in the chroot for an install or a removal of `p`.
pub open spec fn chroot_script(k: Kind) -> Seq<char> {
    match k {
        Kind::Install(p) => "apt update && apt install -y "@ + p@ + " && apt autoremove -y"@,
        Kind::Remove(p) => "apt update && apt remove -y "@ + p@ + " && apt autoremove -y"@,
        _ => Seq::empty(),
    }
}

/// The path where bind mount `i` goes inside `root`.
pub open spec fn mount_target(root: Seq<char>, i: int) -> Seq<char> {
    root + "/"@ + mount_dir(i)
}

/// The action that job `j` asks for next.
pub open spec fn action_of(a: Action, j: Job) -> bool {
    match j.stage {
        Stage::Snapshot => a matches Action::Snapshot { source, dest, readonly } && source@
            == j.parent@ && dest@ == j.target@ && readonly == (j.kind is Deploy),
        Stage::MakeWritable => a matches Action::SetReadonly { path, readonly } && path@
            == j.target@ && !readonly,
        Stage::Mount(i) => a matches Action::BindMount { source, target } && source@ == "/"@
            + mount_dir(i as int) && target@ == mount_target(j.target@, i as int),
        Stage::Body => a matches Action::RunInChroot { root, script } && root@ == j.target@
            && script@ == chroot_script(j.kind),
        Stage::Unmount => a matches Action::Unmount { target } && target@ == mount_target(
            j.target@,
            j.pending - 1,
        ),
        Stage::Seal => a matches Action::SetReadonly { path, readonly } && path@ == j.target@
            && readonly,
        Stage::CheckTarget => a matches Action::CheckExists { path } && path@ == j.target@,
        Stage::Resolve => a matches Action::ShowSubvolume { path } && path@ == j.target@,
        Stage::SetDefault => a matches Action::SetDefault { id } && id@ == j.id@,
        Stage::Pointer => a matches Action::PointCurrent { path } && path@ == j.target@,
        Stage::Prune => a is PruneContainers,
        Stage::Delete => a matches Action::DeleteSnapshot { path } && path@
            == j.doomed@[j.next_delete as int]@,
        Stage::FindContainer => a matches Action::ListContainer { name } && name@
            == CONTAINER_NAME@,
        Stage::MakeContainer => a matches Action::CreateContainer { name } && name@
            == CONTAINER_NAME@,
        Stage::Update => a matches Action::ContainerApt { name, op } && name@ == CONTAINER_NAME@
            && op is Update,
        Stage::PackageOp => a matches Action::ContainerApt { name, op } && name@
            == CONTAINER_NAME@ && match j.kind {
            Kind::ContainerInstall(p) => op matches AptOp::Install(q) && q@ == p@,
            Kind::ContainerRemove(p) => op matches AptOp::Remove(q) && q@ == p@,
            _ => true,
        },
        Stage::Export => a matches Action::ExportBinary { name, package } && name@
            == CONTAINER_NAME@ && match j.kind {
            Kind::ContainerInstall(p) => package@ == p@,
            _ => true,
        },
        Stage::Done => a is Finish,
    }
}

/// Whether an outcome in the stage of `j` is a failure that the job reports.
pub open spec fn fails(j: Job, ok: bool, stdout: Seq<char>) -> bool {
    match j.stage {
        Stage::Resolve => !ok || id_in_report(stdout) is None,
        Stage::Pointer | Stage::Delete | Stage::FindContainer | Stage::Export | Stage::Done => false,
        _ => !ok,
    }
}

/// Once the deployments directory lists the name of day `d`, as it does after
/// a deploy on `d` made its snapshot, a deploy on `d` finds its target in the
/// history, and `Job::deploy` refuses it with a name collision.
pub proof fn lemma_same_day_collides(d: Day, listing: Seq<char>)
    requires
        valid_day(d),
        lines_of(listing).contains(name_of_day(d)),
    ensures
        history_of(listing).contains(path_of(name_of_day(d))),
{
    let n = name_of_day(d);
    assert(n.subrange(0, NAME_PREFIX@.len() as int) =~= NAME_PREFIX@);
    lemma_listed_in_history(lines_of(listing), n);
}

/// What a stage leads to on an outcome, given the job before the step.
pub open spec fn next_stage(j: Job, ok: bool, stdout: Seq<char>) -> Stage {
    match j.stage {
        Stage::Snapshot => if !ok {
            Stage::Done
        } else if j.kind is Deploy {
            Stage::Done
        } else {
            Stage::MakeWritable
        },
        Stage::MakeWritable => if ok {
            Stage::Mount(0)
        } else {
            Stage::Done
        },
        Stage::Mount(i) => if !ok {
            if i == 0 {
                Stage::Done
            } else {
                Stage::Unmount
            }
        } else if i < 2 {
            Stage::Mount((i + 1) as u8)
        } else {
            Stage::Body
        },
        Stage::Body => Stage::Unmount,
        Stage::Unmount => if j.pending > 1 {
            Stage::Unmount
        } else if j.error is Some || !ok {
            Stage::Done
        } else {
            Stage::Seal
        },
        Stage::Seal => if ok {
            Stage::Resolve
        } else {
            Stage::Done
        },
        Stage::CheckTarget => if ok {
            Stage::Resolve
        } else {
            Stage::Done
        },
        Stage::Resolve => if ok && id_in_report(stdout) is Some {
            Stage::SetDefault
        } else {
            Stage::Done
        },
        Stage::SetDefault => if ok {
            Stage::Pointer
        } else {
            Stage::Done
        },
        Stage::Pointer => Stage::Done,
        Stage::Prune => if j.doomed@.len() > 0 {
            Stage::Delete
        } else {
            Stage::Done
        },
        Stage::Delete => if j.next_delete + 1 < j.doomed@.len() {
            Stage::Delete
        } else {
            Stage::Done
        },
        Stage::FindContainer => if stdout.len() == 0 {
            Stage::MakeContainer
        } else {
            Stage::Update
        },
        Stage::MakeContainer => if ok {
            Stage::Update
        } else {
            Stage::Done
        },
        Stage::Update => if !ok || j.kind is Refresh {
            Stage::Done
        } else {
            Stage::PackageOp
        },
        Stage::PackageOp => if ok && j.kind is ContainerInstall {
            Stage::Export
        } else {
            Stage::Done
        },
        Stage::Export => Stage::Done,
        Stage::Done => Stage::Done,
    }
}

/// The error that a failed outcome in stage `s` gives, when no error came before.
pub open spec fn failure_of(j: Job, e: HammerError, ok: bool, stderr: Seq<char>) -> bool {
    match j.stage {
        Stage::Resolve => if ok {
            e matches HammerError::NotFound(p) && p@ == j.target@
        } else {
            e matches HammerError::BackingStore(m) && m@ == stderr
        },
        Stage::Snapshot | Stage::MakeWritable | Stage::Seal | Stage::SetDefault => e matches HammerError::BackingStore(m) && m@ == stderr,
        Stage::Mount(i) => e matches HammerError::MountFailed(d) && d@ == mount_dir(i as int),
        Stage::Body => e matches HammerError::BodyFailed(m) && m@ == stderr,
        Stage::Unmount => e matches HammerError::TeardownFailed(d) && d@ == mount_dir(j.pending - 1),
        Stage::CheckTarget => e matches HammerError::NotFound(p) && p@ == j.target@,
        Stage::Prune => e matches HammerError::PruneFailed(m) && m@ == stderr,
        Stage::MakeContainer => e matches HammerError::ContainerCreateFailed(m) && m@ == stderr,
        Stage::Update => e matches HammerError::UpdateFailed(m) && m@ == stderr,
        Stage::PackageOp => e matches HammerError::PackageOpFailed(m) && m@ == stderr,
        _ => true,
    }
}

/// The path where bind mount `i` goes inside `root`.
fn mount_path(root: &String, i: u8) -> (r: String)
    ensures
        r@ == mount_target(root@, i as int),
{
    let mut t = root.clone();
    t.append("/");
    t.append(mount_dir_name(i));
    t
}

/// The script run in the chroot for an install or a removal.
fn script_for(k: &Kind) -> (r: String)
    ensures
        r@ == chroot_script(*k),
{
    match k {
        Kind::Install(p) => {
            let mut s = String::from_str("apt update && apt install -y ");
            s.append(p.as_str());
            s.append(" && apt autoremove -y");
            s
        },
        Kind::Remove(p) => {
            let mut s = String::from_str("apt update && apt remove -y ");
            s.append(p.as_str());
            s.append(" && apt autoremove -y");
            s
        },
        _ => String::new(),
    }
}

impl Job {
    /// The invariant that every job keeps.
    pub open spec fn wf(&self) -> bool {
        &&& self.pending <= 3
        &&& self.pending + self.stuck <= 3
        &&& self.stage is Snapshot ==> self.kind is Deploy || is_atomic(self.kind)
        &&& (self.stage is MakeWritable || self.stage is Seal) ==> is_atomic(self.kind)
        &&& (self.stage is FindContainer || self.stage is MakeContainer || self.stage is Update)
            ==> (self.kind is ContainerInstall || self.kind is ContainerRemove
            || self.kind is Refresh)
        &&& self.stage is PackageOp ==> (self.kind is ContainerInstall
            || self.kind is ContainerRemove)
        &&& self.stage is Export ==> self.kind is ContainerInstall
        &&& self.stuck > 0 ==> self.error is Some
        &&& self.stage matches Stage::Mount(i) ==> i < 3 && self.pending == i && self.error is None
            && self.stuck == 0 && is_atomic(self.kind)
        &&& self.stage is Body ==> self.pending == 3 && self.error is None && self.stuck == 0
            && is_atomic(self.kind)
        &&& self.stage is Unmount ==> self.pending >= 1 && is_atomic(self.kind)
        &&& !(self.stage is Unmount || self.stage is Body || self.stage is Mount) ==> self.pending
            == 0
        &&& self.stage is Seal ==> self.error is None && self.stuck == 0 && is_atomic(self.kind)
        &&& (self.stage is Resolve || self.stage is SetDefault) ==> self.error is None
            && self.stuck == 0 && (is_atomic(self.kind) ==> self.sealed) && (is_atomic(self.kind)
            || self.kind is Switch)
        &&& self.stage is CheckTarget ==> self.kind is Switch && self.error is None
        &&& self.boot_default is Some ==> self.error is None && self.boot_default->0@
            == self.target@ && (is_atomic(self.kind) ==> self.sealed) && (is_atomic(self.kind)
            || self.kind is Switch) && (self.stage is Pointer || self.stage is Done)
        &&& self.stage is Pointer ==> self.boot_default is Some && !self.pointer_moved
        &&& self.pointer_moved ==> self.boot_default is Some
        &&& (self.stage is Done && self.error is None && (is_atomic(self.kind)
            || self.kind is Switch)) ==> self.boot_default is Some
        &&& (self.stage is Done && self.error is None && self.kind is Deploy) ==> self.sealed
        &&& self.kind is Deploy ==> self.boot_default is None && !self.pointer_moved
        &&& (self.stage is Delete ==> self.next_delete < self.doomed@.len())
        &&& (self.stage is Prune ==> self.next_delete == 0)
        &&& (self.stage is Delete || self.stage is Prune) ==> self.kind is Clean
        &&& !(self.stage is Unmount || self.stage is Done || self.stage is Delete)
            ==> self.error is None
    }

    /// A job that has run no action yet.
    pub open spec fn fresh(&self, kind: Kind, stage: Stage) -> bool {
        &&& self.kind == kind
        &&& self.stage == stage
        &&& self.untouched()
    }

    /// Nothing has been mounted, sealed, promoted or deleted yet.
    pub open spec fn untouched(&self) -> bool {
        &&& self.pending == 0
        &&& self.stuck == 0
        &&& !self.sealed
        &&& self.boot_default is None
        &&& !self.pointer_moved
        &&& self.pointer_warning is None
        &&& self.next_delete == 0
    }

    fn blank(kind: Kind, stage: Stage, parent: String, target: String) -> (r: Job)
        ensures
            r.fresh(kind, stage),
            r.parent == parent,
            r.target == target,
            r.error is None,
            r.doomed@.len() == 0,
    {
        Job {
            kind,
            stage,
            parent,
            target,
            pending: 0,
            stuck: 0,
            error: None,
            sealed: false,
            boot_default: None,
            pointer_moved: false,
            pointer_warning: None,
            id: String::new(),
            doomed: Vec::new(),
            next_delete: 0,
        }
    }

    /// A job that failed before running anything.
    fn refused(kind: Kind, e: HammerError) -> (r: Job)
        ensures
            r.fresh(kind, Stage::Done),
            r.error == Some(e),
            r.doomed@.len() == 0,
    {
        let mut j = Job::blank(kind, Stage::Done, String::new(), String::new());
        j.error = Some(e);
        j
    }

    /// Starts a snapshot of `current` named after `day`: read-only for a
    /// deploy, writable for an install or removal. The listing of the
    /// deployments directory tells whether that name is taken.
    fn snapshot_job(kind: Kind, current: &str, day: &Day, listing: &str) -> (r: Job)
        requires
            kind is Deploy || is_atomic(kind),
        ensures
            r.wf(),
            r.parent@ == current@,
            !valid_day(*day) ==> r.fresh(kind, Stage::Done) && r.error == Some(
                HammerError::InvalidDate,
            ),
            valid_day(*day) ==> r.target@ == path_of(name_of_day(*day)),
            valid_day(*day) && history_of(listing@).contains(r.target@) ==> r.fresh(
                kind,
                Stage::Done,
            ) && (if kind is Deploy {
                r.error matches Some(HammerError::NameCollision(p)) && p@ == r.target@
            } else {
                r.error matches Some(HammerError::AlreadyExists(p)) && p@ == r.target@
            }),
            valid_day(*day) && !history_of(listing@).contains(r.target@) ==> r.fresh(
                kind,
                Stage::Snapshot,
            ) && r.error is None,
    {
        let dest = match deployment_path_for(day) {
            Ok(p) => p,
            Err(e) => {
                let mut j = Job::refused(kind, e);
                j.parent = current.to_string();
                return j;
            },
        };
        let history = history_paths(listing);
        let mut i: usize = 0;
        while i < history.len()
            invariant
                i <= history@.len(),
                valid_day(*day),
                dest@ == path_of(name_of_day(*day)),
                views(history@) == history_of(listing@),
                forall|k: int| 0 <= k < i ==> history@[k]@ != dest@,
            decreases history@.len() - i,
        {
            if crate::text::starts_with(history[i].as_str(), dest.as_str())
                && history[i].unicode_len() == dest.unicode_len() {
                assert(history@[i as int]@ =~= dest@);
                assert(history_of(listing@)[i as int] == dest@);
                let e = if matches!(kind, Kind::Deploy) {
                    HammerError::NameCollision(dest.clone())
                } else {
                    HammerError::AlreadyExists(dest.clone())
                };
                let mut j = Job::refused(kind, e);
                j.parent = current.to_string();
                j.target = dest;
                return j;
            }
            assert(history@[i as int]@ != dest@) by {
                if history@[i as int]@ == dest@ {
                    assert(dest@.subrange(0, dest@.len() as int) =~= dest@);
                }
            }
            i = i + 1;
        }
        assert(!history_of(listing@).contains(dest@)) by {
            if history_of(listing@).contains(dest@) {
                let k = choose|k: int| 0 <= k < history_of(listing@).len() && history_of(listing@)[k] == dest@;
                assert(history@[k]@ == dest@);
            }
        }
        Job::blank(kind, Stage::Snapshot, current.to_string(), dest)
    }

    /// Starts a deploy: a read-only snapshot of `current` named after `day`.
    pub fn deploy(current: &str, day: &Day, listing: &str) -> (r: Job)
        ensures
            r.untouched(),
            r.wf(),
            r.kind is Deploy,
            r.parent@ == current@,
            !valid_day(*day) ==> r.stage is Done && r.error == Some(HammerError::InvalidDate),
            valid_day(*day) ==> r.target@ == path_of(name_of_day(*day)),
            valid_day(*day) && history_of(listing@).contains(r.target@) ==> r.stage is Done
                && (r.error matches Some(HammerError::NameCollision(p)) && p@ == r.target@),
            valid_day(*day) && !history_of(listing@).contains(r.target@) ==> r.stage is Snapshot
                && r.error is None,
    {
        Job::snapshot_job(Kind::Deploy, current, day, listing)
    }

    /// Starts an atomic install of `package` in a new snapshot of `current`.
    pub fn atomic_install(current: &str, day: &Day, listing: &str, package: &str) -> (r: Job)
        ensures
            r.untouched(),
            r.wf(),
            r.kind matches Kind::Install(p) && p@ == package@,
            r.parent@ == current@,
            !valid_day(*day) ==> r.stage is Done && r.error == Some(HammerError::InvalidDate),
            valid_day(*day) ==> r.target@ == path_of(name_of_day(*day)),
            valid_day(*day) && history_of(listing@).contains(r.target@) ==> r.stage is Done
                && (r.error matches Some(HammerError::AlreadyExists(p)) && p@ == r.target@),
            valid_day(*day) && !history_of(listing@).contains(r.target@) ==> r.stage is Snapshot
                && r.error is None,
    {
        Job::snapshot_job(Kind::Install(package.to_string()), current, day, listing)
    }

    /// Starts an atomic removal of `package` in a new snapshot of `current`.
    pub fn atomic_remove(current: &str, day: &Day, listing: &str, package: &str) -> (r: Job)
        ensures
            r.untouched(),
            r.wf(),
            r.kind matches Kind::Remove(p) && p@ == package@,
            r.parent@ == current@,
            !valid_day(*day) ==> r.stage is Done && r.error == Some(HammerError::InvalidDate),
            valid_day(*day) ==> r.target@ == path_of(name_of_day(*day)),
            valid_day(*day) && history_of(listing@).contains(r.target@) ==> r.stage is Done
                && (r.error matches Some(HammerError::AlreadyExists(p)) && p@ == r.target@),
            valid_day(*day) && !history_of(listing@).contains(r.target@) ==> r.stage is Snapshot
                && r.error is None,
    {
        Job::snapshot_job(Kind::Remove(package.to_string()), current, day, listing)
    }

    /// Starts a switch to the deployment named `name`, or, without a name, to
    /// the second newest deployment of the listing.
    pub fn switch(name: Option<&str>, listing: &str) -> (r: Job)
        ensures
            r.untouched(),
            r.wf(),
            r.kind is Switch,
            name matches Some(n) ==> r.stage is CheckTarget && r.error is None && r.target@
                == path_of(n@),
            name is None && history_of(listing@).len() < 2 ==> r.stage is Done && r.error
                == Some(HammerError::InsufficientHistory),
            name is None && history_of(listing@).len() >= 2 ==> r.stage is CheckTarget
                && r.error is None && exists|p: Seq<Seq<char>>|
                is_sorting_of(p, history_of(listing@)) && #[trigger] p[p.len() - 2]
                == r.target@,
    {
        match name {
            Some(n) => Job::blank(Kind::Switch, Stage::CheckTarget, String::new(), deployment_path(n)),
            None => {
                let history = history_paths(listing);
                match select_rollback(&history) {
                    Ok(t) => Job::blank(Kind::Switch, Stage::CheckTarget, String::new(), t),
                    Err(e) => Job::refused(Kind::Switch, e),
                }
            },
        }
    }

    /// Starts a cleanup: prune the containers, then delete all but the newest
    /// deployments of the listing, sparing the one the current pointer names.
    pub fn clean(current: &str, listing: &str) -> (r: Job)
        ensures
            r.wf(),
            r.untouched(),
            r.kind is Clean,
            r.stage is Prune,
            r.error is None,
            exists|p: Seq<Seq<char>>|
                is_sorting_of(p, history_of(listing@)) && #[trigger] spare(doomed(p), current@)
                    == views(r.doomed@),
            !views(r.doomed@).contains(current@),
    {
        let history = history_paths(listing);
        let mut j = Job::blank(Kind::Clean, Stage::Prune, String::new(), String::new());
        let plan = clean_plan(&history);
        j.doomed = without(&plan, current);
        proof {
            lemma_spare_excludes(views(plan@), current@);
        }
        j
    }

    /// Starts a job on the container: install or remove `package`, or, for a
    /// refresh, only update the package index.
    fn container_job(kind: Kind) -> (r: Job)
        requires
            kind is ContainerInstall || kind is ContainerRemove || kind is Refresh,
        ensures
            r.wf(),
            r.fresh(kind, Stage::FindContainer),
            r.error is None,
    {
        Job::blank(kind, Stage::FindContainer, String::new(), String::new())
    }

    /// Starts an install of `package` in the container.
    pub fn container_install(package: &str) -> (r: Job)
        ensures
            r.untouched(),
            r.wf(),
            r.kind matches Kind::ContainerInstall(p) && p@ == package@,
            r.stage is FindContainer,
            r.error is None,
    {
        Job::container_job(Kind::ContainerInstall(package.to_string()))
    }

    /// Starts a removal of `package` from the container.
    pub fn container_remove(package: &str) -> (r: Job)
        ensures
            r.untouched(),
            r.wf(),
            r.kind matches Kind::ContainerRemove(p) && p@ == package@,
            r.stage is FindContainer,
            r.error is None,
    {
        Job::container_job(Kind::ContainerRemove(package.to_string()))
    }

    /// Starts an update of the container's package index.
    pub fn refresh() -> (r: Job)
        ensures
            r.untouched(),
            r.wf(),
            r.kind is Refresh,
            r.stage is FindContainer,
            r.error is None,
    {
        Job::container_job(Kind::Refresh)
    }

    /// The action that the job asks for next.
    pub fn action(&self) -> (r: Action)
        requires
            self.wf(),
        ensures
            action_of(r, *self),
    {
        match self.stage {
            Stage::Snapshot => Action::Snapshot {
                source: self.parent.clone(),
                dest: self.target.clone(),
                readonly: matches!(self.kind, Kind::Deploy),
            },
            Stage::MakeWritable => Action::SetReadonly { path: self.target.clone(), readonly: false },
            Stage::Mount(i) => {
                let mut source = String::from_str("/");
                source.append(mount_dir_name(i));
                Action::BindMount { source, target: mount_path(&self.target, i) }
            },
            Stage::Body => Action::RunInChroot {
                root: self.target.clone(),
                script: script_for(&self.kind),
            },
            Stage::Unmount => Action::Unmount { target: mount_path(&self.target, self.pending - 1) },
            Stage::Seal => Action::SetReadonly { path: self.target.clone(), readonly: true },
            Stage::CheckTarget => Action::CheckExists { path: self.target.clone() },
            Stage::Resolve => Action::ShowSubvolume { path: self.target.clone() },
            Stage::SetDefault => Action::SetDefault { id: self.id.clone() },
            Stage::Pointer => Action::PointCurrent { path: self.target.clone() },
            Stage::Prune => Action::PruneContainers,
            Stage::Delete => Action::DeleteSnapshot { path: self.doomed[self.next_delete].clone() },
            Stage::FindContainer => Action::ListContainer { name: CONTAINER_NAME.to_string() },
            Stage::MakeContainer => Action::CreateContainer { name: CONTAINER_NAME.to_string() },
            Stage::Update => Action::ContainerApt { name: CONTAINER_NAME.to_string(), op: AptOp::Update },
            Stage::PackageOp => {
                let op = match &self.kind {
                    Kind::ContainerInstall(p) => AptOp::Install(p.clone()),
                    Kind::ContainerRemove(p) => AptOp::Remove(p.clone()),
                    _ => AptOp::Update,
                };
                Action::ContainerApt { name: CONTAINER_NAME.to_string(), op }
            },
            Stage::Export => {
                let package = match &self.kind {
                    Kind::ContainerInstall(p) => p.clone(),
                    _ => String::new(),
                };
                Action::ExportBinary { name: CONTAINER_NAME.to_string(), package }
            },
            Stage::Done => Action::Finish,
        }
    }

    /// Takes the outcome of the action that the job asked for, and moves on.
    pub fn step(&mut self, out: &Outcome)
        requires
            old(self).wf(),
        ensures
            final(self).wf(),
            final(self).stage == next_stage(*old(self), out.success, out.stdout@),
            final(self).kind == old(self).kind,
            final(self).target == old(self).target,
            final(self).parent == old(self).parent,
            final(self).doomed == old(self).doomed,
            old(self).error is Some ==> final(self).error == old(self).error,
            old(self).error is None ==> (final(self).error is Some <==> fails(
                *old(self),
                out.success,
                out.stdout@,
            )),
            old(self).error is None ==> (final(self).error matches Some(e) ==> failure_of(
                *old(self),
                e,
                out.success,
                out.stderr@,
            )),
            old(self).stage is Resolve && final(self).stage is SetDefault ==> final(self).id@
                == id_in_report(out.stdout@)->0,
            old(self).stage is Delete ==> final(self).next_delete == old(self).next_delete + 1,
            !(old(self).stage is Delete) ==> final(self).next_delete == old(self).next_delete,
            final(self).sealed == (old(self).sealed || (out.success && (old(self).stage is Seal
                || (old(self).stage is Snapshot && old(self).kind is Deploy)))),
            final(self).boot_default is Some <==> (old(self).boot_default is Some || (
            old(self).stage is SetDefault && out.success)),
            final(self).pointer_moved == (old(self).pointer_moved || (old(self).stage is Pointer
                && out.success)),
            final(self).pending == match old(self).stage {
                Stage::Mount(i) => if out.success {
                    (i + 1) as u8
                } else {
                    i
                },
                Stage::Unmount => (old(self).pending - 1) as u8,
                _ => old(self).pending,
            },
            final(self).stuck == if old(self).stage is Unmount && !out.success {
                (old(self).stuck + 1) as u8
            } else {
                old(self).stuck
            },
            old(self).stage is Pointer ==> final(self).pointer_moved == out.success && (
            !out.success ==> (final(self).pointer_warning matches Some(w) && w@ == out.stderr@)),
            // A finished install or removal that succeeded sealed its snapshot and
            // made it the boot default.
            final(self).stage is Done && is_atomic(final(self).kind) && final(self).error is None
                ==> final(self).sealed && (final(self).boot_default matches Some(b) && b@
                == final(self).target@),
            // A failed job left the boot default and the current pointer alone.
            final(self).stage is Done && final(self).error is Some
                ==> final(self).boot_default is None && !final(self).pointer_moved,
            // A finished job holds no bind mount, unless an unmount failed and
            // the job reports an error.
            final(self).stage is Done ==> final(self).pending == 0 && (final(self).stuck == 0
                || final(self).error is Some),
    {
        let ok = out.success;
        match self.stage {
            Stage::Snapshot => {
                if !ok {
                    self.error = Some(HammerError::BackingStore(out.stderr.clone()));
                    self.stage = Stage::Done;
                } else if matches!(self.kind, Kind::Deploy) {
                    self.sealed = true;
                    self.stage = Stage::Done;
                } else {
                    self.stage = Stage::MakeWritable;
                }
            },
            Stage::MakeWritable => {
                if ok {
                    self.stage = Stage::Mount(0);
                } else {
                    self.error = Some(HammerError::BackingStore(out.stderr.clone()));
                    self.stage = Stage::Done;
                }
            },
            Stage::Mount(i) => {
                if ok {
                    self.pending = i + 1;
                    if i < 2 {
                        self.stage = Stage::Mount(i + 1);
                    } else {
                        self.stage = Stage::Body;
                    }
                } else {
                    self.error = Some(HammerError::MountFailed(mount_dir_name(i).to_string()));
                    if i == 0 {
                        self.stage = Stage::Done;
                    } else {
                        self.stage = Stage::Unmount;
                    }
                }
            },
            Stage::Body => {
                if !ok {
                    self.error = Some(HammerError::BodyFailed(out.stderr.clone()));
                }
                self.stage = Stage::Unmount;
            },
            Stage::Unmount => {
                let d = self.pending - 1;
                self.pending = d;
                if !ok {
                    self.stuck = self.stuck + 1;
                    if self.error.is_none() {
                        self.error = Some(HammerError::TeardownFailed(mount_dir_name(d).to_string()));
                    }
                }
                if d > 0 {
                    self.stage = Stage::Unmount;
                } else if self.error.is_some() {
                    self.stage = Stage::Done;
                } else {
                    self.stage = Stage::Seal;
                }
            },
            Stage::Seal => {
                if ok {
                    self.sealed = true;
                    self.stage = Stage::Resolve;
                } else {
                    self.error = Some(HammerError::BackingStore(out.stderr.clone()));
                    self.stage = Stage::Done;
                }
            },
            Stage::CheckTarget => {
                if ok {
                    self.stage = Stage::Resolve;
                } else {
                    self.error = Some(HammerError::NotFound(self.target.clone()));
                    self.stage = Stage::Done;
                }
            },
            Stage::Resolve => {
                if !ok {
                    self.error = Some(HammerError::BackingStore(out.stderr.clone()));
                    self.stage = Stage::Done;
                } else {
                    match parse_subvolume_id(out.stdout.as_str()) {
                        Some(id) => {
                            self.id = id;
                            self.stage = Stage::SetDefault;
                        },
                        None => {
                            self.error = Some(HammerError::NotFound(self.target.clone()));
                            self.stage = Stage::Done;
                        },
                    }
                }
            },
            Stage::SetDefault => {
                if ok {
                    self.boot_default = Some(self.target.clone());
                    self.stage = Stage::Pointer;
                } else {
                    self.error = Some(HammerError::BackingStore(out.stderr.clone()));
                    self.stage = Stage::Done;
                }
            },
            Stage::Pointer => {
                if ok {
                    self.pointer_moved = true;
                } else {
                    self.pointer_warning = Some(out.stderr.clone());
                }
                self.stage = Stage::Done;
            },
            Stage::Prune => {
                if !ok {
                    self.error = Some(HammerError::PruneFailed(out.stderr.clone()));
                }
                if self.doomed.len() > 0 {
                    self.stage = Stage::Delete;
                } else {
                    self.stage = Stage::Done;
                }
            },
            Stage::Delete => {
                let n = self.doomed.len();
                assert(self.next_delete < n);
                self.next_delete = self.next_delete + 1;
                if self.next_delete < self.doomed.len() {
                    self.stage = Stage::Delete;
                } else {
                    self.stage = Stage::Done;
                }
            },
            Stage::FindContainer => {
                if out.stdout.unicode_len() == 0 {
                    self.stage = Stage::MakeContainer;
                } else {
                    self.stage = Stage::Update;
                }
            },
            Stage::MakeContainer => {
                if ok {
                    self.stage = Stage::Update;
                } else {
                    self.error = Some(HammerError::ContainerCreateFailed(out.stderr.clone()));
                    self.stage = Stage::Done;
                }
            },
            Stage::Update => {
                if !ok {
                    self.error = Some(HammerError::UpdateFailed(out.stderr.clone()));
                    self.stage = Stage::Done;
                } else if matches!(self.kind, Kind::Refresh) {
                    self.stage = Stage::Done;
                } else {
                    self.stage = Stage::PackageOp;
                }
            },
            Stage::PackageOp => {
                if !ok {
                    self.error = Some(HammerError::PackageOpFailed(out.stderr.clone()));
                    self.stage = Stage::Done;
                } else if matches!(self.kind, Kind::ContainerInstall(_)) {
                    self.stage = Stage::Export;
                } else {
                    self.stage = Stage::Done;
                }
            },
            Stage::Export => {
                self.stage = Stage::Done;
            },
            Stage::Done => {},
        }
    }

    /// What holds of every finished job. An install or removal that succeeded
    /// sealed its snapshot and made it the boot default; a job that failed
    /// moved neither the boot default nor the current pointer; no bind mount is
    /// held, unless an unmount failed and the job reports an error; a deploy
    /// never touches the boot default.
    pub proof fn lemma_finished(&self)
        requires
            self.wf(),
            self.stage is Done,
        ensures
            is_atomic(self.kind) && self.error is None ==> self.sealed && (
            self.boot_default matches Some(b) && b@ == self.target@),
            self.error is Some ==> self.boot_default is None && !self.pointer_moved,
            self.pending == 0,
            self.stuck == 0 || self.error is Some,
            self.kind is Deploy ==> self.boot_default is None && !self.pointer_moved,
            self.kind is Deploy && self.error is None ==> self.sealed,
    {
    }

    /// Whether the job has nothing left to run.
    pub fn is_done(&self) -> (r: bool)
        ensures
            r == (self.stage is Done),
    {
        matches!(self.stage, Stage::Done)
    }

    /// How the job ended: the first error it met, if any.
    pub fn into_result(self) -> (r: Result<(), HammerError>)
        ensures
            self.error matches Some(e) ==> r == Err::<(), HammerError>(e),
            self.error is None ==> r is Ok,
    {
        match self.error {
            Some(e) => Err(e),
            None => Ok(()),
        }
    }
}

} // verus!
