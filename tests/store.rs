use std::collections::HashMap;

use rnpmrc::store::{
    activate_profile, create_config_dir, create_profile, get_config_paths, open_profile,
    remove_profile, show_active_profile, status_message, Action, ConfigPaths, StoreError,
};

const HOME: &str = "/home/u";
const ROOT: &str = "/home/u/.rnpmrc";
const LINK: &str = "/home/u/.npmrc";

#[derive(Clone, Debug, PartialEq)]
enum Node {
    File(Vec<u8>),
    Dir,
    Link(String),
}

/// A filesystem in memory that carries out the library's actions.
#[derive(Clone, Debug, PartialEq, Default)]
struct Disk {
    nodes: HashMap<String, Node>,
}

impl Disk {
    fn resolve(&self, p: &str) -> String {
        match self.nodes.get(p) {
            Some(Node::Link(t)) => t.clone(),
            _ => p.to_string(),
        }
    }

    fn is_file(&self, p: &str) -> bool {
        matches!(self.nodes.get(&self.resolve(p)), Some(Node::File(_)))
    }

    fn is_dir(&self, p: &str) -> bool {
        matches!(self.nodes.get(&self.resolve(p)), Some(Node::Dir))
    }

    fn read(&self, p: &str) -> Option<Vec<u8>> {
        match self.nodes.get(&self.resolve(p)) {
            Some(Node::File(c)) => Some(c.clone()),
            _ => None,
        }
    }

    fn write(&mut self, p: &str, content: &[u8]) {
        let q = self.resolve(p);
        self.nodes.insert(q, Node::File(content.to_vec()));
    }

    fn link_target(&self, p: &str) -> Option<String> {
        match self.nodes.get(p) {
            Some(Node::Link(t)) => Some(t.clone()),
            _ => None,
        }
    }

    fn perform(&mut self, actions: Vec<Action>) {
        for a in actions {
            match a {
                Action::CreateDirAll { path } => {
                    if !self.is_dir(&path) {
                        assert!(!self.nodes.contains_key(&path));
                        self.nodes.insert(path, Node::Dir);
                    }
                }
                Action::CreateFile { path } => {
                    assert!(!self.nodes.contains_key(&path));
                    self.nodes.insert(path, Node::File(Vec::new()));
                }
                Action::RemoveEntry { path } => {
                    assert!(self.nodes.remove(&path).is_some());
                }
                Action::Symlink { target, link } => {
                    assert!(!self.nodes.contains_key(&link));
                    self.nodes.insert(link, Node::Link(target));
                }
                Action::RunEditor { .. } => {}
            }
        }
    }

    fn init(&mut self) {
        let actions = create_config_dir(ROOT, self.is_dir(ROOT));
        self.perform(actions);
    }

    fn create(&mut self, name: &str) -> Result<(), StoreError> {
        let p = format!("{}/.npmrc.{}", ROOT, name);
        let actions = create_profile(name, ROOT, self.is_file(&p))?;
        self.perform(actions);
        Ok(())
    }

    fn remove(&mut self, name: &str) -> Result<(), StoreError> {
        let p = format!("{}/.npmrc.{}", ROOT, name);
        let actions = remove_profile(name, ROOT, self.is_file(&p))?;
        self.perform(actions);
        Ok(())
    }

    fn activate(&mut self, name: &str) -> Result<(), StoreError> {
        let p = format!("{}/.npmrc.{}", ROOT, name);
        let present = self.nodes.contains_key(LINK);
        let actions = activate_profile(name, ROOT, HOME, self.is_file(&p), present)?;
        self.perform(actions);
        Ok(())
    }

    fn status(&self) -> Option<String> {
        let target = self.link_target(LINK);
        let target_is_file = match &target {
            Some(t) => self.is_file(t),
            None => false,
        };
        show_active_profile(ROOT, &target, target_is_file)
    }
}

fn path_of(name: &str) -> String {
    format!("{}/.npmrc.{}", ROOT, name)
}

#[test]
fn config_paths_from_home() {
    assert_eq!(
        get_config_paths(Some(HOME.to_string())),
        Ok(ConfigPaths { home_dir: HOME.to_string(), config_dir: ROOT.to_string() })
    );
}

#[test]
fn config_paths_without_home_fail() {
    assert_eq!(get_config_paths(None), Err(StoreError::HomeDirectoryUnresolved));
}

#[test]
fn config_dir_created_only_when_missing() {
    assert_eq!(
        create_config_dir(ROOT, false),
        vec![Action::CreateDirAll { path: ROOT.to_string() }]
    );
    assert!(create_config_dir(ROOT, true).is_empty());
}

#[test]
fn config_dir_init_is_idempotent() {
    let mut disk = Disk::default();
    disk.init();
    assert!(disk.is_dir(ROOT));
    let once = disk.clone();
    disk.init();
    assert_eq!(disk, once);
}

#[test]
fn create_profile_actions() {
    assert_eq!(
        create_profile("work", ROOT, false),
        Ok(vec![Action::CreateFile { path: path_of("work") }])
    );
    assert_eq!(
        create_profile("work", ROOT, true),
        Err(StoreError::AlreadyExists { path: path_of("work") })
    );
}

#[test]
fn open_profile_actions() {
    assert_eq!(
        open_profile("work", ROOT, "vi", true),
        Ok(vec![Action::RunEditor { editor: "vi".to_string(), path: path_of("work") }])
    );
    assert_eq!(
        open_profile("work", ROOT, "vi", false),
        Err(StoreError::NotFound { path: path_of("work") })
    );
}

#[test]
fn remove_profile_actions() {
    assert_eq!(
        remove_profile("work", ROOT, true),
        Ok(vec![Action::RemoveEntry { path: path_of("work") }])
    );
    assert_eq!(
        remove_profile("work", ROOT, false),
        Err(StoreError::NotFound { path: path_of("work") })
    );
}

#[test]
fn activate_profile_actions() {
    let link = Action::Symlink { target: path_of("work"), link: LINK.to_string() };
    assert_eq!(activate_profile("work", ROOT, HOME, true, false), Ok(vec![link.clone()]));
    assert_eq!(
        activate_profile("work", ROOT, HOME, true, true),
        Ok(vec![Action::RemoveEntry { path: LINK.to_string() }, link])
    );
    assert_eq!(
        activate_profile("work", ROOT, HOME, false, true),
        Err(StoreError::NotFound { path: path_of("work") })
    );
}

#[test]
fn show_active_profile_cases() {
    let target = Some(path_of("work"));
    assert_eq!(show_active_profile(ROOT, &target, true), Some(".npmrc.work".to_string()));
    assert_eq!(show_active_profile(ROOT, &target, false), None);
    assert_eq!(show_active_profile(ROOT, &None, false), None);
    assert_eq!(show_active_profile(ROOT, &Some("/etc/npmrc".to_string()), true), None);
}

#[test]
fn show_active_profile_nested_target() {
    let target = Some(format!("{}/s/f", ROOT));
    assert_eq!(show_active_profile(ROOT, &target, true), Some("f".to_string()));
}

#[test]
fn status_message_lines() {
    assert_eq!(status_message(&Some(".npmrc.work".to_string())), "\".npmrc.work\" is active");
    assert_eq!(status_message(&None), "No active profile");
}

#[test]
fn create_then_create_again_on_disk() {
    let mut disk = Disk::default();
    disk.init();
    assert_eq!(disk.create("work"), Ok(()));
    assert_eq!(disk.read(&path_of("work")), Some(Vec::new()));
    disk.write(&path_of("work"), b"registry=x");
    let before = disk.clone();
    assert_eq!(
        disk.create("work"),
        Err(StoreError::AlreadyExists { path: path_of("work") })
    );
    assert_eq!(disk, before);
    assert_eq!(disk.read(&path_of("work")), Some(b"registry=x".to_vec()));
}

#[test]
fn remove_existing_then_absent_on_disk() {
    let mut disk = Disk::default();
    disk.init();
    disk.create("work").unwrap();
    assert_eq!(disk.remove("work"), Ok(()));
    assert!(!disk.nodes.contains_key(&path_of("work")));
    let before = disk.clone();
    assert_eq!(disk.remove("work"), Err(StoreError::NotFound { path: path_of("work") }));
    assert_eq!(disk, before);
}

#[test]
fn activate_absent_keeps_link_on_disk() {
    let mut disk = Disk::default();
    disk.init();
    disk.create("a").unwrap();
    disk.activate("a").unwrap();
    let before = disk.clone();
    assert_eq!(disk.activate("ghost"), Err(StoreError::NotFound { path: path_of("ghost") }));
    assert_eq!(disk, before);
    assert_eq!(disk.link_target(LINK), Some(path_of("a")));
}

#[test]
fn activate_a_then_b_links_to_b_on_disk() {
    let mut disk = Disk::default();
    disk.init();
    disk.create("a").unwrap();
    disk.create("b").unwrap();
    disk.activate("a").unwrap();
    disk.activate("b").unwrap();
    assert_eq!(disk.link_target(LINK), Some(path_of("b")));
    disk.write(&path_of("b"), b"registry=b");
    assert_eq!(disk.read(LINK), Some(b"registry=b".to_vec()));
    assert_eq!(disk.read(&path_of("a")), Some(Vec::new()));
}

#[test]
fn activate_replaces_plain_file_on_disk() {
    let mut disk = Disk::default();
    disk.init();
    disk.nodes.insert(LINK.to_string(), Node::File(b"old".to_vec()));
    disk.create("a").unwrap();
    disk.activate("a").unwrap();
    assert_eq!(disk.link_target(LINK), Some(path_of("a")));
}

#[test]
fn status_follows_link_on_disk() {
    let mut disk = Disk::default();
    disk.init();
    assert_eq!(disk.status(), None);
    disk.create("x").unwrap();
    disk.activate("x").unwrap();
    assert_eq!(disk.status(), Some(".npmrc.x".to_string()));
    disk.remove("x").unwrap();
    assert_eq!(disk.status(), None);
    assert_eq!(disk.link_target(LINK), Some(path_of("x")));
}
