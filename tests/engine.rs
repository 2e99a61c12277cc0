use hammer::engine::{Action, AptOp, Job, Kind, Outcome, Stage};
use hammer::error::HammerError;
use hammer::naming::Day;
use std::collections::{BTreeMap, BTreeSet};

const DIR: &str = "/btrfs-root/deployments";

/// A host that keeps snapshots, the boot default, the current pointer and the
/// bind mounts in memory.
struct Host {
    snaps: BTreeMap<String, (bool, u64)>,
    default_id: u64,
    current: String,
    mounts: BTreeSet<String>,
    next_id: u64,
    prunes: usize,
    fail: Option<fn(&Action) -> bool>,
    log: Vec<Action>,
}

impl Host {
    fn new() -> Host {
        let mut snaps = BTreeMap::new();
        snaps.insert("/btrfs-root/base".to_string(), (true, 5));
        Host {
            snaps,
            default_id: 5,
            current: "/btrfs-root/base".to_string(),
            mounts: BTreeSet::new(),
            next_id: 256,
            prunes: 0,
            fail: None,
            log: Vec::new(),
        }
    }

    fn listing(&self) -> String {
        let mut s = String::new();
        for p in self.snaps.keys() {
            if let Some(name) = p.strip_prefix("/btrfs-root/deployments/") {
                s.push_str(name);
                s.push('\n');
            }
        }
        s
    }

    fn id_of(&self, name: &str) -> u64 {
        self.snaps[&format!("{}/{}", DIR, name)].1
    }

    fn perform(&mut self, a: &Action) -> Outcome {
        self.log.push(a.clone());
        let ok = |stdout: String| Outcome { success: true, stdout, stderr: String::new() };
        let bad = || Outcome { success: false, stdout: String::new(), stderr: "boom".to_string() };
        if let Some(f) = self.fail {
            if f(a) {
                return bad();
            }
        }
        match a {
            Action::Snapshot { source, dest, readonly } => {
                if self.snaps.contains_key(dest) || !self.snaps.contains_key(source) {
                    return bad();
                }
                self.snaps.insert(dest.clone(), (*readonly, self.next_id));
                self.next_id += 1;
                ok(String::new())
            }
            Action::SetReadonly { path, readonly } => match self.snaps.get_mut(path) {
                Some(s) => {
                    s.0 = *readonly;
                    ok(String::new())
                }
                None => bad(),
            },
            Action::BindMount { target, .. } => {
                self.mounts.insert(target.clone());
                ok(String::new())
            }
            Action::Unmount { target } => {
                if self.mounts.remove(target) {
                    ok(String::new())
                } else {
                    bad()
                }
            }
            Action::RunInChroot { .. } => ok(String::new()),
            Action::ShowSubvolume { path } => match self.snaps.get(path) {
                Some(s) => ok(format!("{}\n\tName: \t\tx\n\tUUID: \t\tabc\n\tSubvolume ID: \t\t{}\n\tGeneration: \t7\n", path, s.1)),
                None => bad(),
            },
            Action::SetDefault { id } => {
                self.default_id = id.parse().unwrap();
                ok(String::new())
            }
            Action::PointCurrent { path } => {
                self.current = path.clone();
                ok(String::new())
            }
            Action::CheckExists { path } => {
                if self.snaps.contains_key(path) {
                    ok(String::new())
                } else {
                    bad()
                }
            }
            Action::DeleteSnapshot { path } => {
                if self.current == *path {
                    return bad();
                }
                self.snaps.remove(path);
                ok(String::new())
            }
            Action::PruneContainers => {
                self.prunes += 1;
                ok(String::new())
            }
            Action::ListContainer { .. } => ok(String::new()),
            Action::CreateContainer { .. } => ok(String::new()),
            Action::ContainerApt { .. } => ok(String::new()),
            Action::ExportBinary { .. } => bad(),
            Action::Finish => ok(String::new()),
        }
    }

    fn run(&mut self, job: &mut Job) {
        let mut steps = 0;
        while !job.is_done() {
            let a = job.action();
            let out = self.perform(&a);
            job.step(&out);
            steps += 1;
            assert!(steps < 100);
        }
        assert_eq!(job.action(), Action::Finish);
    }
}

fn day() -> Day {
    Day { year: 2025, month: 1, day: 15 }
}

#[test]
fn deploy_makes_sealed_snapshot_without_promoting() {
    let mut host = Host::new();
    let mut job = Job::deploy(&host.current.clone(), &day(), &host.listing());
    host.run(&mut job);
    assert_eq!(job.into_result(), Ok(()));
    let s = host.snaps["/btrfs-root/deployments/hammer-2025-01-15"];
    assert!(s.0);
    assert_eq!(host.default_id, 5);
    assert_eq!(host.current, "/btrfs-root/base");
}

#[test]
fn deploy_twice_same_day_collides() {
    let mut host = Host::new();
    let mut first = Job::deploy("/btrfs-root/base", &day(), &host.listing());
    host.run(&mut first);
    assert_eq!(first.into_result(), Ok(()));
    let mut second = Job::deploy("/btrfs-root/base", &day(), &host.listing());
    let before = host.log.len();
    host.run(&mut second);
    assert_eq!(host.log.len(), before);
    assert_eq!(
        second.into_result(),
        Err(HammerError::NameCollision("/btrfs-root/deployments/hammer-2025-01-15".to_string()))
    );
}

#[test]
fn deploy_on_invalid_day_fails() {
    let host = Host::new();
    let job = Job::deploy("/btrfs-root/base", &Day { year: 2025, month: 2, day: 29 }, &host.listing());
    assert!(job.is_done());
    assert_eq!(job.into_result(), Err(HammerError::InvalidDate));
}

#[test]
fn atomic_install_success_seals_and_promotes() {
    let mut host = Host::new();
    let mut job = Job::atomic_install("/btrfs-root/base", &day(), &host.listing(), "vim");
    host.run(&mut job);
    assert!(job.sealed);
    assert!(job.pointer_moved);
    assert_eq!(job.into_result(), Ok(()));
    let s = host.snaps["/btrfs-root/deployments/hammer-2025-01-15"];
    assert!(s.0);
    assert_eq!(host.default_id, s.1);
    assert_eq!(host.current, "/btrfs-root/deployments/hammer-2025-01-15");
    assert!(host.mounts.is_empty());
    assert!(host.log.contains(&Action::RunInChroot {
        root: "/btrfs-root/deployments/hammer-2025-01-15".to_string(),
        script: "apt update && apt install -y vim && apt autoremove -y".to_string(),
    }));
    assert!(host.log.contains(&Action::BindMount {
        source: "/proc".to_string(),
        target: "/btrfs-root/deployments/hammer-2025-01-15/proc".to_string(),
    }));
    assert!(host.log.contains(&Action::SetDefault { id: "256".to_string() }));
}

#[test]
fn atomic_remove_success_uses_remove_script() {
    let mut host = Host::new();
    let mut job = Job::atomic_remove("/btrfs-root/base", &day(), &host.listing(), "vim");
    host.run(&mut job);
    assert_eq!(job.into_result(), Ok(()));
    assert!(host.log.contains(&Action::RunInChroot {
        root: "/btrfs-root/deployments/hammer-2025-01-15".to_string(),
        script: "apt update && apt remove -y vim && apt autoremove -y".to_string(),
    }));
    assert_eq!(host.default_id, host.id_of("hammer-2025-01-15"));
}

#[test]
fn atomic_install_apt_failure_leaves_writable_snapshot() {
    let mut host = Host::new();
    host.fail = Some(|a| matches!(a, Action::RunInChroot { .. }));
    let mut job = Job::atomic_install("/btrfs-root/base", &day(), &host.listing(), "vim");
    host.run(&mut job);
    assert_eq!(job.into_result(), Err(HammerError::BodyFailed("boom".to_string())));
    let s = host.snaps["/btrfs-root/deployments/hammer-2025-01-15"];
    assert!(!s.0);
    assert_eq!(host.default_id, 5);
    assert_eq!(host.current, "/btrfs-root/base");
    assert!(host.mounts.is_empty());
}

#[test]
fn atomic_install_mount_failure_rolls_back_mounts() {
    let mut host = Host::new();
    host.fail = Some(|a| matches!(a, Action::BindMount { source, .. } if source == "/dev"));
    let mut job = Job::atomic_install("/btrfs-root/base", &day(), &host.listing(), "vim");
    host.run(&mut job);
    assert_eq!(job.into_result(), Err(HammerError::MountFailed("dev".to_string())));
    assert!(host.mounts.is_empty());
    assert_eq!(host.default_id, 5);
    assert!(!host.log.iter().any(|a| matches!(a, Action::RunInChroot { .. })));
}

#[test]
fn atomic_install_teardown_failure_is_reported() {
    let mut host = Host::new();
    host.fail = Some(|a| matches!(a, Action::Unmount { target } if target.ends_with("/sys")));
    let mut job = Job::atomic_install("/btrfs-root/base", &day(), &host.listing(), "vim");
    host.run(&mut job);
    assert_eq!(job.into_result(), Err(HammerError::TeardownFailed("sys".to_string())));
    assert_eq!(host.mounts.len(), 1);
    assert_eq!(host.default_id, 5);
    // the other two were still unmounted, in reverse order
    let unmounts: Vec<&Action> = host.log.iter().filter(|a| matches!(a, Action::Unmount { .. })).collect();
    assert_eq!(unmounts.len(), 3);
}

#[test]
fn atomic_install_seal_failure_keeps_default() {
    let mut host = Host::new();
    host.fail = Some(|a| matches!(a, Action::SetReadonly { readonly: true, .. }));
    let mut job = Job::atomic_install("/btrfs-root/base", &day(), &host.listing(), "vim");
    host.run(&mut job);
    assert_eq!(job.into_result(), Err(HammerError::BackingStore("boom".to_string())));
    assert_eq!(host.default_id, 5);
    assert!(host.mounts.is_empty());
}

#[test]
fn atomic_install_set_default_failure_keeps_default() {
    let mut host = Host::new();
    host.fail = Some(|a| matches!(a, Action::SetDefault { .. }));
    let mut job = Job::atomic_install("/btrfs-root/base", &day(), &host.listing(), "vim");
    host.run(&mut job);
    assert!(job.boot_default.is_none());
    assert_eq!(job.into_result(), Err(HammerError::BackingStore("boom".to_string())));
    assert_eq!(host.default_id, 5);
    assert_eq!(host.current, "/btrfs-root/base");
    assert!(host.snaps["/btrfs-root/deployments/hammer-2025-01-15"].0);
}

#[test]
fn atomic_install_pointer_failure_is_a_warning() {
    let mut host = Host::new();
    host.fail = Some(|a| matches!(a, Action::PointCurrent { .. }));
    let mut job = Job::atomic_install("/btrfs-root/base", &day(), &host.listing(), "vim");
    host.run(&mut job);
    assert_eq!(job.pointer_warning, Some("boom".to_string()));
    assert_eq!(job.into_result(), Ok(()));
    assert_eq!(host.default_id, host.id_of("hammer-2025-01-15"));
    assert_eq!(host.current, "/btrfs-root/base");
}

#[test]
fn atomic_install_snapshot_exists_fails() {
    let mut host = Host::new();
    let mut d = Job::deploy("/btrfs-root/base", &day(), &host.listing());
    host.run(&mut d);
    let job = Job::atomic_install("/btrfs-root/base", &day(), &host.listing(), "vim");
    assert_eq!(
        job.into_result(),
        Err(HammerError::AlreadyExists("/btrfs-root/deployments/hammer-2025-01-15".to_string()))
    );
}

fn host_with(names: &[&str]) -> Host {
    let mut host = Host::new();
    for (i, n) in names.iter().enumerate() {
        host.snaps.insert(format!("{}/{}", DIR, n), (true, 300 + i as u64));
    }
    host
}

#[test]
fn switch_without_argument_rolls_back() {
    let mut host = host_with(&["hammer-a", "hammer-b", "hammer-d", "hammer-c"]);
    host.current = format!("{}/hammer-d", DIR);
    let mut job = Job::switch(None, &host.listing());
    host.run(&mut job);
    assert_eq!(job.into_result(), Ok(()));
    assert_eq!(host.default_id, host.id_of("hammer-c"));
    assert_eq!(host.current, format!("{}/hammer-c", DIR));
}

#[test]
fn switch_with_one_deployment_fails() {
    let host = host_with(&["hammer-a"]);
    let job = Job::switch(None, &host.listing());
    assert!(job.is_done());
    assert_eq!(job.into_result(), Err(HammerError::InsufficientHistory));
}

#[test]
fn switch_ignores_entries_without_prefix() {
    let host = host_with(&["hammer-a", "other"]);
    let job = Job::switch(None, &host.listing());
    assert_eq!(job.into_result(), Err(HammerError::InsufficientHistory));
}

#[test]
fn switch_to_named_deployment() {
    let mut host = host_with(&["hammer-a", "hammer-b"]);
    let mut job = Job::switch(Some("hammer-a"), &host.listing());
    host.run(&mut job);
    assert_eq!(job.into_result(), Ok(()));
    assert_eq!(host.default_id, host.id_of("hammer-a"));
}

#[test]
fn switch_to_missing_deployment_fails() {
    let mut host = host_with(&["hammer-a", "hammer-b"]);
    let mut job = Job::switch(Some("hammer-z"), &host.listing());
    host.run(&mut job);
    assert_eq!(job.into_result(), Err(HammerError::NotFound(format!("{}/hammer-z", DIR))));
    assert_eq!(host.default_id, 5);
}

#[test]
fn switch_without_id_line_is_not_found() {
    let mut job = Job::switch(Some("hammer-a"), "hammer-a\n");
    assert_eq!(job.stage, Stage::CheckTarget);
    job.step(&Outcome { success: true, stdout: String::new(), stderr: String::new() });
    assert_eq!(job.stage, Stage::Resolve);
    job.step(&Outcome { success: true, stdout: "Name: x\n".to_string(), stderr: String::new() });
    assert!(job.is_done());
    assert_eq!(job.into_result(), Err(HammerError::NotFound(format!("{}/hammer-a", DIR))));
}

#[test]
fn clean_keeps_five_newest() {
    let names = ["hammer-2025-01-07", "hammer-2025-01-01", "hammer-2025-01-03", "hammer-2025-01-02", "hammer-2025-01-05", "hammer-2025-01-04", "hammer-2025-01-06"];
    let mut host = host_with(&names);
    let mut job = Job::clean(&host.current.clone(), &host.listing());
    host.run(&mut job);
    assert_eq!(job.into_result(), Ok(()));
    assert_eq!(host.prunes, 1);
    let left: Vec<String> = host.listing().lines().map(|s| s.to_string()).collect();
    assert_eq!(left, vec!["hammer-2025-01-03", "hammer-2025-01-04", "hammer-2025-01-05", "hammer-2025-01-06", "hammer-2025-01-07"]);
    let deletes: Vec<&Action> = host.log.iter().filter(|a| matches!(a, Action::DeleteSnapshot { .. })).collect();
    assert_eq!(deletes, vec![
        &Action::DeleteSnapshot { path: format!("{}/hammer-2025-01-01", DIR) },
        &Action::DeleteSnapshot { path: format!("{}/hammer-2025-01-02", DIR) },
    ]);
}

#[test]
fn clean_with_few_deployments_deletes_nothing() {
    let mut host = host_with(&["hammer-a", "hammer-b"]);
    let mut job = Job::clean(&host.current.clone(), &host.listing());
    host.run(&mut job);
    assert_eq!(job.into_result(), Ok(()));
    assert_eq!(host.prunes, 1);
    assert_eq!(host.snaps.len(), 3);
}

#[test]
fn clean_reports_prune_failure_and_still_deletes() {
    let names = ["hammer-1", "hammer-2", "hammer-3", "hammer-4", "hammer-5", "hammer-6"];
    let mut host = host_with(&names);
    host.fail = Some(|a| matches!(a, Action::PruneContainers));
    let mut job = Job::clean(&host.current.clone(), &host.listing());
    host.run(&mut job);
    assert_eq!(job.into_result(), Err(HammerError::PruneFailed("boom".to_string())));
    assert!(!host.snaps.contains_key(&format!("{}/hammer-1", DIR)));
    assert_eq!(host.snaps.len(), 6);
}

#[test]
fn container_install_creates_container_and_exports() {
    let mut host = Host::new();
    let mut job = Job::container_install("vim");
    host.run(&mut job);
    assert_eq!(job.into_result(), Ok(()));
    assert_eq!(host.log, vec![
        Action::ListContainer { name: "hammer-container-default".to_string() },
        Action::CreateContainer { name: "hammer-container-default".to_string() },
        Action::ContainerApt { name: "hammer-container-default".to_string(), op: AptOp::Update },
        Action::ContainerApt { name: "hammer-container-default".to_string(), op: AptOp::Install("vim".to_string()) },
        Action::ExportBinary { name: "hammer-container-default".to_string(), package: "vim".to_string() },
    ]);
}

#[test]
fn container_remove_existing_container() {
    let mut job = Job::container_remove("vim");
    assert_eq!(job.action(), Action::ListContainer { name: "hammer-container-default".to_string() });
    job.step(&Outcome { success: true, stdout: "CONTAINER ID\nabc\n".to_string(), stderr: String::new() });
    assert_eq!(job.stage, Stage::Update);
    job.step(&Outcome { success: true, stdout: String::new(), stderr: String::new() });
    assert_eq!(job.action(), Action::ContainerApt { name: "hammer-container-default".to_string(), op: AptOp::Remove("vim".to_string()) });
    job.step(&Outcome { success: false, stdout: String::new(), stderr: "E: no such package".to_string() });
    assert_eq!(job.into_result(), Err(HammerError::PackageOpFailed("E: no such package".to_string())));
}

#[test]
fn container_create_failure() {
    let mut job = Job::refresh();
    job.step(&Outcome { success: true, stdout: String::new(), stderr: String::new() });
    job.step(&Outcome { success: false, stdout: String::new(), stderr: "no image".to_string() });
    assert_eq!(job.into_result(), Err(HammerError::ContainerCreateFailed("no image".to_string())));
}

#[test]
fn refresh_update_failure() {
    let mut job = Job::refresh();
    assert!(matches!(job.kind, Kind::Refresh));
    job.step(&Outcome { success: true, stdout: "x".to_string(), stderr: String::new() });
    job.step(&Outcome { success: false, stdout: String::new(), stderr: "offline".to_string() });
    assert_eq!(job.into_result(), Err(HammerError::UpdateFailed("offline".to_string())));
}

#[test]
fn refresh_success_stops_after_update() {
    let mut job = Job::refresh();
    job.step(&Outcome { success: true, stdout: "x".to_string(), stderr: String::new() });
    job.step(&Outcome { success: true, stdout: String::new(), stderr: String::new() });
    assert!(job.is_done());
    assert_eq!(job.into_result(), Ok(()));
}

#[test]
fn clean_spares_current_deployment() {
    let names = ["hammer-1", "hammer-2", "hammer-3", "hammer-4", "hammer-5", "hammer-6", "hammer-7"];
    let mut host = host_with(&names);
    host.current = format!("{}/hammer-1", DIR);
    let mut job = Job::clean(&host.current.clone(), &host.listing());
    assert_eq!(job.doomed, vec![format!("{}/hammer-2", DIR)]);
    host.run(&mut job);
    assert_eq!(job.into_result(), Ok(()));
    assert!(host.snaps.contains_key(&format!("{}/hammer-1", DIR)));
    assert!(!host.snaps.contains_key(&format!("{}/hammer-2", DIR)));
    assert!(!host.log.contains(&Action::DeleteSnapshot { path: format!("{}/hammer-1", DIR) }));
}

#[test]
fn new_jobs_are_untouched() {
    let job = Job::atomic_install("/btrfs-root/base", &day(), "", "vim");
    assert!(!job.sealed);
    assert_eq!(job.stuck, 0);
    assert_eq!(job.pending, 0);
    assert!(job.pointer_warning.is_none());
    assert!(job.boot_default.is_none());
}
