use torrentmanager::state::cache::{CachedState, ReloadableState};
use torrentmanager::state::free_space::{select_mount, stat_path, FreeSpace, MountInfo};
use torrentmanager::state::restart::RestartHandler;

#[test]
fn restart_is_reported_once() {
    let mut handler = RestartHandler::new();
    assert!(!handler.requested());
    handler.request();
    assert!(handler.requested());
    assert!(!handler.requested());
}

#[test]
fn restart_no_more_cancels_request() {
    let mut handler = RestartHandler::new();
    handler.request();
    handler.request();
    handler.no_more();
    assert!(!handler.requested());
}

struct Counter {
    reloads: u32,
}

impl ReloadableState for Counter {
    fn is_reload_of(&self, before: &Self) -> bool {
        self.reloads == before.reloads + 1
    }

    fn reload_state(&mut self) {
        self.reloads += 1;
    }
}

#[test]
fn cached_state_reloads_in_place() {
    let mut cached = CachedState::new(Counter { reloads: 0 }, 60);
    assert_eq!(cached.reload_period(), 60);
    cached.reload();
    cached.reload();
    assert_eq!(cached.state().reloads, 2);
    assert_eq!(cached.reload_period(), 60);
}

#[test]
fn free_space_text() {
    assert_eq!(FreeSpace::new(12, 100, 12).to_string(), "12% (12 / 100 GiB)");
    assert_eq!(FreeSpace::new(0, 0, 0).to_string(), "0% (0 / 0 GiB)");
}

fn mount(dev: &str, dir: &str, canonical: Option<&str>) -> MountInfo {
    MountInfo { dev_name: dev.to_string(), mount_dir: dir.to_string(), dev_canonical: canonical.map(|c| c.to_string()) }
}

#[test]
fn select_mount_prefers_deepest_directory() {
    let mounts = vec![
        mount("/dev/sda1", "/", Some("/dev/sda1")),
        mount("/dev/sdb1", "/data", Some("/dev/sdb1")),
        mount("/dev/sdc1", "/data/media", Some("/dev/sdc1")),
        mount("/dev/sdd1", "/dat", Some("/dev/sdd1")),
    ];
    assert_eq!(select_mount("/data/media/films", &mounts), Some(2));
    assert_eq!(select_mount("/data/other", &mounts), Some(1));
    assert_eq!(select_mount("/home", &mounts), Some(0));
}

#[test]
fn select_mount_prefers_device_itself() {
    let mounts = vec![mount("/dev/sda1", "/", Some("/dev/sda1")), mount("tmpfs", "/dev", None)];
    assert_eq!(select_mount("/dev/sda1", &mounts), Some(0));
}

#[test]
fn select_mount_takes_last_of_equal_depth() {
    let mounts = vec![mount("a", "/data", None), mount("b", "/data", None)];
    assert_eq!(select_mount("/data/x", &mounts), Some(1));
}

#[test]
fn select_mount_finds_nothing() {
    let mounts = vec![mount("a", "/data", None)];
    assert_eq!(select_mount("/home", &mounts), None);
    assert_eq!(select_mount("/home", &Vec::new()), None);
}

#[test]
fn stat_path_of_unnamed_mount_is_device() {
    assert_eq!(stat_path(&mount("/dev/sda1", "", None)), "/dev/sda1");
    assert_eq!(stat_path(&mount("/dev/sda1", "/data", None)), "/data");
}
