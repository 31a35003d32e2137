use imagedrive::containeritem;
use imagedrive::containeritem::ContainerItem;
use imagedrive::docker::{ls, Error, ImageDrive};
use imagedrive::dockerclient;
use imagedrive::dockerclient::{Container, DockerClient, MatchRule};
use imagedrive::hostitem;
use imagedrive::hostitem::{HostEntry, HostFile};
use imagedrive::runtime::{Reply, Request, Session, Step};
use imagedrive::{AddResult, Item, DB};
use std::collections::BTreeMap;

const IMAGE: &str = "registry.example/store:latest";
const ABC: &str = "ba7816bf8f01cfea414140de5dae2223b00361a396177a9cb410ff61f20015ad";
const EMPTY: &str = "e3b0c44298fc1c149afbf4c8996fb92427ae41e4649b934ca495991b7852b855";

/// The files of a container: each path with what the file holds.
type Files = BTreeMap<String, String>;

/// A runtime that keeps everything in memory.
struct Runtime {
    host: BTreeMap<String, HostEntry>,
    containers: Vec<(Container, bool, Files)>,
    images: BTreeMap<String, Files>,
    registry: BTreeMap<String, Files>,
    logged_in: bool,
    asked: Vec<Request>,
}

fn exit(success: bool, stdout: &str, stderr: &str) -> Reply {
    Reply::Exit { success, stdout: stdout.to_string(), stderr: stderr.to_string() }
}

fn children(files: &Files, dir: &str) -> Vec<String> {
    let prefix = format!("{}/", dir.trim_end_matches('/'));
    let mut names: Vec<String> = Vec::new();
    for path in files.keys() {
        if let Some(rest) = path.strip_prefix(&prefix) {
            let name = rest.split('/').next().unwrap().to_string();
            if !name.is_empty() && !names.contains(&name) {
                names.push(name);
            }
        }
    }
    names
}

fn is_dir(files: &Files, dir: &str) -> bool {
    files.contains_key(&format!("{}/", dir)) || !children(files, dir).is_empty()
}

fn list(files: &Files, dir: &str) -> Reply {
    if !is_dir(files, dir) {
        return exit(false, "", &format!("ls: {}: No such file or directory\n", dir));
    }
    let mut out = String::new();
    for name in children(files, dir) {
        out.push_str(&name);
        out.push('\n');
    }
    exit(true, &out, "")
}

fn remove_tree(files: &mut Files, path: &str) {
    let below = format!("{}/", path);
    files.retain(|p, _| p != path && !p.starts_with(&below));
}

fn run_inside(files: &mut Files, cmd: &str) -> Reply {
    if cmd == "cat /checksum/data/*/* | sort" {
        let mut records: Vec<String> = files
            .iter()
            .filter(|(p, _)| p.starts_with("/checksum/data/") && !p.ends_with('/'))
            .map(|(_, text)| text.clone())
            .collect();
        if records.is_empty() {
            return exit(true, "", "cat: can't open '/checksum/data/*/*': No such file or directory\n");
        }
        records.sort();
        return exit(true, &records.concat(), "");
    }
    if let Some(rest) = cmd.strip_prefix("mkdir -p ") {
        let (dir, then) = rest.split_once(" && ").unwrap();
        files.entry(format!("{}/", dir)).or_insert_with(String::new);
        if let Some(listed) = then.strip_prefix("ls ") {
            return list(files, listed);
        }
        let (text, path) = then.strip_prefix("echo ").unwrap().split_once(" > ").unwrap();
        files.insert(path.to_string(), format!("{}\n", text));
        return exit(true, "", "");
    }
    if let Some(dir) = cmd.strip_prefix("ls ") {
        return list(files, dir);
    }
    if let Some(path) = cmd.strip_prefix("cat ") {
        return match files.get(path) {
            Some(text) => exit(true, text, ""),
            None => exit(false, "", &format!("cat: can't open '{}': No such file or directory\n", path)),
        };
    }
    if let Some(paths) = cmd.strip_prefix("rm -rf ") {
        for path in paths.split(' ') {
            remove_tree(files, path);
        }
        return exit(true, "", "");
    }
    exit(false, "", &format!("sh: {}: not found\n", cmd))
}

impl Runtime {
    fn new() -> Runtime {
        let mut files = Files::new();
        files.insert("/data/".to_string(), String::new());
        let mut images = BTreeMap::new();
        images.insert(IMAGE.to_string(), files.clone());
        Runtime {
            host: BTreeMap::new(),
            containers: Vec::new(),
            images,
            registry: BTreeMap::new(),
            logged_in: true,
            asked: Vec::new(),
        }
    }

    fn files_of(&mut self, id: &str) -> Option<&mut Files> {
        self.containers.iter_mut().find(|(c, _, _)| c.id == id).map(|(_, _, files)| files)
    }

    fn working(&self) -> &Files {
        &self.containers.iter().find(|(_, running, _)| *running).unwrap().2
    }

    fn shell(&mut self, command: &str) -> Reply {
        if let Some(rest) = command.strip_prefix("docker exec -i ") {
            let (id, quoted) = rest.split_once(" sh -c \"").unwrap();
            let cmd = quoted.strip_suffix('"').unwrap();
            return match self.files_of(id) {
                Some(files) => run_inside(files, cmd),
                None => exit(false, "", "Error: No such container\n"),
            };
        }
        if let Some(rest) = command.strip_prefix("docker cp ") {
            let (from, to) = rest.split_once(' ').unwrap();
            if let Some((id, path)) = to.split_once(':') {
                if !self.host.contains_key(from) {
                    return exit(false, "", "no such file on the host");
                }
                let files = self.files_of(id).unwrap();
                files.insert(path.to_string(), format!("copy of {}", from));
                return exit(true, "", "");
            }
            let (id, path) = from.split_once(':').unwrap();
            let files = self.files_of(id).unwrap().clone();
            if !is_dir(&files, path) {
                return exit(false, "", "no such path in the container");
            }
            self.host.insert(to.to_string(), HostEntry::Directory(Vec::new()));
            return exit(true, "", "");
        }
        if let Some(rest) = command.strip_prefix("docker commit -m \"commit by sync\" ") {
            let (id, image) = rest.split_once(' ').unwrap();
            let files = self.files_of(id).unwrap().clone();
            self.images.insert(image.to_string(), files);
            return exit(true, "", "");
        }
        if let Some(image) = command.strip_prefix("docker push ") {
            if !self.logged_in {
                return exit(false, "", "denied: requested access to the resource is denied");
            }
            let files = self.images.get(image).unwrap().clone();
            self.registry.insert(image.to_string(), files);
            return exit(true, "", "");
        }
        if command == "docker login registry.example --username=user --password=secret" {
            self.logged_in = true;
            return exit(true, "Login Succeeded\n", "");
        }
        if let Some(image) = command.strip_prefix("docker pull ") {
            return match self.registry.get(image) {
                Some(files) => {
                    self.images.insert(image.to_string(), files.clone());
                    exit(true, "", "")
                }
                None => exit(false, "", "not found in the registry"),
            };
        }
        if let Some(image) = command.strip_prefix("docker rmi ") {
            return match self.images.remove(image) {
                Some(_) => exit(true, "", ""),
                None => exit(false, "", "No such image"),
            };
        }
        exit(false, "", "unknown command")
    }

    fn perform(&mut self, request: &Request) -> Reply {
        self.asked.push(request.clone());
        match request {
            Request::ListContainers { all } => Reply::Containers(
                self.containers
                    .iter()
                    .filter(|(_, running, _)| *all || *running)
                    .map(|(c, _, _)| c.clone())
                    .collect(),
            ),
            Request::CreateContainer { image } => match self.images.get(image) {
                None => Reply::Failed(format!("no such image: {}", image)),
                Some(files) => {
                    let id = format!("c{}", self.containers.len() + 1);
                    let made = Container { id: id.clone(), image: image.clone() };
                    self.containers.push((made, false, files.clone()));
                    Reply::Created(id)
                }
            },
            Request::StartContainer { container } => {
                match self.containers.iter_mut().find(|(c, _, _)| &c.id == container) {
                    None => Reply::Failed("no such container".to_string()),
                    Some(found) => {
                        found.1 = true;
                        Reply::Done
                    }
                }
            }
            Request::RemoveContainer { container } => {
                self.containers.retain(|(c, _, _)| &c.id != container);
                Reply::Done
            }
            Request::Shell { command } => self.shell(command),
            Request::ReadHost { path } => {
                Reply::Host(self.host.get(path).cloned().unwrap_or(HostEntry::Missing))
            }
        }
    }

    fn drive<T>(&mut self, mut operation: impl FnMut(&mut Session) -> Step<T>) -> T {
        let mut replies: Vec<Reply> = Vec::new();
        loop {
            let step = operation(&mut Session::new(&replies));
            match step {
                Step::Done(value) => return value,
                Step::Ask(request) => replies.push(self.perform(&request)),
            }
        }
    }

    fn commands(&self) -> Vec<String> {
        self.asked
            .iter()
            .filter_map(|r| match r {
                Request::Shell { command } => Some(command.clone()),
                _ => None,
            })
            .collect()
    }

    fn count(&self, prefix: &str) -> usize {
        self.commands().iter().filter(|c| c.starts_with(prefix)).count()
    }
}

fn drive() -> ImageDrive {
    ImageDrive::new(IMAGE, "registry.example", "user", "secret")
}

fn strings(items: &[&str]) -> Vec<String> {
    items.iter().map(|s| s.to_string()).collect()
}

fn host_file(runtime: &mut Runtime, path: &str, content: &str) {
    runtime.host.insert(path.to_string(), HostEntry::File(content.as_bytes().to_vec()));
}

#[test]
fn an_empty_store_has_no_entries() {
    let mut runtime = Runtime::new();
    let store = drive();
    assert_eq!(runtime.drive(|s| store.entries(s)), Ok(vec![]));
    assert_eq!(
        runtime.asked,
        vec![
            Request::ListContainers { all: false },
            Request::CreateContainer { image: IMAGE.to_string() },
            Request::ListContainers { all: true },
            Request::StartContainer { container: "c1".to_string() },
            Request::Shell { command: "docker exec -i c1 sh -c \"ls /data\"".to_string() },
        ]
    );
}

#[test]
fn the_working_container_is_made_once() {
    let mut runtime = Runtime::new();
    let store = drive();
    assert_eq!(runtime.drive(|s| store.entries(s)), Ok(vec![]));
    assert_eq!(runtime.drive(|s| store.entries(s)), Ok(vec![]));
    assert_eq!(runtime.containers.len(), 1);
}

#[test]
fn scenario_add_then_add_again_under_another_name() {
    let mut runtime = Runtime::new();
    let store = drive();
    host_file(&mut runtime, "/home/u/cat.png", "abc");
    assert_eq!(
        runtime.drive(|s| store.add(s, "photos", "/home/u/cat.png", None)),
        Ok(AddResult::Succ)
    );
    assert_eq!(runtime.drive(|s| store.items(s, "photos")), Ok(strings(&["cat.png"])));
    assert_eq!(
        runtime.drive(|s| store.add(s, "photos", "/home/u/cat.png", Some("cat2.png"))),
        Ok(AddResult::ExistedItem("cat.png".to_string()))
    );
    assert_eq!(runtime.drive(|s| store.items(s, "photos")), Ok(strings(&["cat.png"])));
    assert_eq!(runtime.drive(|s| store.entries(s)), Ok(strings(&["photos"])));
}

#[test]
fn add_copies_the_item_and_writes_its_ledger_record() {
    let mut runtime = Runtime::new();
    let store = drive();
    host_file(&mut runtime, "/home/u/cat.png", "abc");
    assert_eq!(
        runtime.drive(|s| store.add(s, "photos", "/home/u/cat.png", None)),
        Ok(AddResult::Succ)
    );
    assert_eq!(
        runtime.commands(),
        strings(&[
            "docker exec -i c1 sh -c \"mkdir -p /data/photos && ls /data/photos\"",
            "docker cp /home/u/cat.png c1:/data/photos/cat.png",
            &format!(
                "docker exec -i c1 sh -c \"mkdir -p /checksum/data/photos && echo {} > /checksum/data/photos/cat.png\"",
                ABC
            ),
        ])
    );
    assert_eq!(
        runtime.working().get("/checksum/data/photos/cat.png"),
        Some(&format!("{}\n", ABC))
    );
    assert!(runtime.working().contains_key("/data/photos/cat.png"));
}

#[test]
fn adding_the_same_bytes_twice_stores_one_copy() {
    let mut runtime = Runtime::new();
    let store = drive();
    host_file(&mut runtime, "/home/u/a.txt", "abc");
    host_file(&mut runtime, "/tmp/b.txt", "abc");
    assert_eq!(runtime.drive(|s| store.add(s, "docs", "/home/u/a.txt", None)), Ok(AddResult::Succ));
    assert_eq!(runtime.count("docker cp "), 1);
    assert_eq!(
        runtime.drive(|s| store.add(s, "docs", "/home/u/a.txt", None)),
        Ok(AddResult::ExistedItem("a.txt".to_string()))
    );
    assert_eq!(
        runtime.drive(|s| store.add(s, "docs", "/tmp/b.txt", None)),
        Ok(AddResult::ExistedItem("a.txt".to_string()))
    );
    assert_eq!(runtime.count("docker cp "), 1);
    assert_eq!(runtime.drive(|s| store.items(s, "docs")), Ok(strings(&["a.txt"])));
}

#[test]
fn the_same_bytes_under_another_entry_are_stored_again() {
    let mut runtime = Runtime::new();
    let store = drive();
    host_file(&mut runtime, "/home/u/a.txt", "abc");
    assert_eq!(runtime.drive(|s| store.add(s, "docs", "/home/u/a.txt", None)), Ok(AddResult::Succ));
    assert_eq!(runtime.drive(|s| store.add(s, "more", "/home/u/a.txt", None)), Ok(AddResult::Succ));
    assert_eq!(runtime.drive(|s| store.entries(s)), Ok(strings(&["docs", "more"])));
}

#[test]
fn the_first_match_in_listing_order_wins() {
    let mut runtime = Runtime::new();
    let store = drive();
    assert_eq!(runtime.drive(|s| store.entries(s)), Ok(vec![]));
    {
        let files = runtime.files_of("c1").unwrap();
        for name in ["b", "a", "c"] {
            files.insert(format!("/data/docs/{}", name), "bytes".to_string());
            let digest = if name == "a" { EMPTY } else { ABC };
            files.insert(format!("/checksum/data/docs/{}", name), format!("{}\n", digest));
        }
    }
    host_file(&mut runtime, "/home/u/x", "abc");
    runtime.asked.clear();
    assert_eq!(
        runtime.drive(|s| store.add(s, "docs", "/home/u/x", None)),
        Ok(AddResult::ExistedItem("b".to_string()))
    );
    assert_eq!(
        runtime.commands(),
        strings(&[
            "docker exec -i c1 sh -c \"mkdir -p /data/docs && ls /data/docs\"",
            "docker exec -i c1 sh -c \"cat /checksum/data/docs/a\"",
            "docker exec -i c1 sh -c \"cat /checksum/data/docs/b\"",
        ])
    );
}

#[test]
fn different_bytes_are_stored_side_by_side() {
    let mut runtime = Runtime::new();
    let store = drive();
    host_file(&mut runtime, "/home/u/a.txt", "abc");
    host_file(&mut runtime, "/home/u/b.txt", "");
    assert_eq!(runtime.drive(|s| store.add(s, "docs", "/home/u/a.txt", None)), Ok(AddResult::Succ));
    assert_eq!(runtime.drive(|s| store.add(s, "docs", "/home/u/b.txt", None)), Ok(AddResult::Succ));
    assert_eq!(runtime.drive(|s| store.items(s, "docs")), Ok(strings(&["a.txt", "b.txt"])));
    assert_eq!(
        runtime.working().get("/checksum/data/docs/b.txt"),
        Some(&format!("{}\n", EMPTY))
    );
}

#[test]
fn a_directory_is_added_by_the_digest_of_its_files() {
    let mut runtime = Runtime::new();
    let store = drive();
    let file = |name: &str, content: &str| HostFile {
        path: vec![name.as_bytes().to_vec()],
        content: content.as_bytes().to_vec(),
    };
    runtime.host.insert(
        "/home/u/dir".to_string(),
        HostEntry::Directory(vec![file("z", "c"), file("a", "ab")]),
    );
    host_file(&mut runtime, "/home/u/whole", "abc");
    assert_eq!(runtime.drive(|s| store.add(s, "docs", "/home/u/dir", None)), Ok(AddResult::Succ));
    assert_eq!(
        runtime.drive(|s| store.add(s, "docs", "/home/u/whole", None)),
        Ok(AddResult::ExistedItem("dir".to_string()))
    );
}

#[test]
fn adding_what_is_not_there_fails() {
    let mut runtime = Runtime::new();
    let store = drive();
    assert_eq!(
        runtime.drive(|s| store.add(s, "photos", "/home/u/none.png", None)),
        Err(Error::NotExistItem("/home/u/none.png".to_string()))
    );
    assert_eq!(runtime.asked, vec![Request::ReadHost { path: "/home/u/none.png".to_string() }]);
}

#[test]
fn adding_what_cannot_be_staged_fails() {
    let mut runtime = Runtime::new();
    let store = drive();
    runtime.host.insert("/dev/null".to_string(), HostEntry::Other);
    runtime.host.insert("/".to_string(), HostEntry::Directory(Vec::new()));
    runtime.host.insert("/locked".to_string(), HostEntry::Unreadable("permission denied".to_string()));
    assert_eq!(
        runtime.drive(|s| store.add(s, "e", "/dev/null", None)),
        Err(Error::HostItemError(hostitem::Error::BadPath("/dev/null".to_string())))
    );
    assert_eq!(
        runtime.drive(|s| store.add(s, "e", "/", None)),
        Err(Error::HostItemError(hostitem::Error::BadPath("/".to_string())))
    );
    assert_eq!(
        runtime.drive(|s| store.add(s, "e", "/locked", None)),
        Err(Error::HostItemError(hostitem::Error::IOError("permission denied".to_string())))
    );
    assert_eq!(runtime.containers.len(), 0);
}

#[test]
fn add_reports_a_host_that_cannot_be_read() {
    let store = drive();
    let replies = vec![Reply::Failed("stat failed".to_string())];
    assert_eq!(
        store.add(&mut Session::new(&replies), "e", "/x", None),
        Step::Done(Err(Error::HostItemError(hostitem::Error::IOError("stat failed".to_string()))))
    );
    let replies = vec![Reply::Done];
    assert_eq!(
        store.add(&mut Session::new(&replies), "e", "/x", None),
        Step::Done(Err(Error::DockerError(dockerclient::Error::DefaultError(
            "unexpected reply".to_string()
        ))))
    );
}

#[test]
fn add_reports_a_runtime_that_fails() {
    let store = drive();
    let replies = vec![
        Reply::Host(HostEntry::File(b"abc".to_vec())),
        Reply::Failed("no daemon".to_string()),
    ];
    assert_eq!(
        store.add(&mut Session::new(&replies), "e", "/x", None),
        Step::Done(Err(Error::DockerError(dockerclient::Error::DefaultError(
            "no daemon".to_string()
        ))))
    );
}

#[test]
fn add_reports_diagnostics_of_the_listing() {
    let store = drive();
    let replies = vec![
        Reply::Host(HostEntry::File(b"abc".to_vec())),
        Reply::Containers(vec![Container { id: "c1".to_string(), image: IMAGE.to_string() }]),
        exit(true, "a\n", "mkdir: read-only file system\n"),
    ];
    assert_eq!(
        store.add(&mut Session::new(&replies), "e", "/x", None),
        Step::Done(Err(Error::ExecError("mkdir: read-only file system\n".to_string())))
    );
}

#[test]
fn add_reports_an_item_without_a_ledger_record() {
    let mut runtime = Runtime::new();
    let store = drive();
    assert_eq!(runtime.drive(|s| store.entries(s)), Ok(vec![]));
    runtime.files_of("c1").unwrap().insert("/data/docs/orphan".to_string(), "bytes".to_string());
    host_file(&mut runtime, "/home/u/x", "abc");
    assert_eq!(
        runtime.drive(|s| store.add(s, "docs", "/home/u/x", None)),
        Err(Error::ContainerItemError(containeritem::Error::ExecError(
            "cat: can't open '/checksum/data/docs/orphan': No such file or directory\n".to_string()
        )))
    );
    assert_eq!(runtime.count("docker cp "), 0);
}

#[test]
fn add_reports_a_ledger_record_that_is_no_digest() {
    let mut runtime = Runtime::new();
    let store = drive();
    assert_eq!(runtime.drive(|s| store.entries(s)), Ok(vec![]));
    {
        let files = runtime.files_of("c1").unwrap();
        files.insert("/data/docs/odd".to_string(), "bytes".to_string());
        files.insert("/checksum/data/docs/odd".to_string(), "not a digest\n".to_string());
    }
    host_file(&mut runtime, "/home/u/x", "abc");
    assert_eq!(
        runtime.drive(|s| store.add(s, "docs", "/home/u/x", None)),
        Err(Error::ContainerItemError(containeritem::Error::LedgerInconsistency(
            "not a digest\n".to_string()
        )))
    );
}

#[test]
fn add_reports_a_copy_that_fails() {
    let store = drive();
    let working = Container { id: "c1".to_string(), image: IMAGE.to_string() };
    let replies = vec![
        Reply::Host(HostEntry::File(b"abc".to_vec())),
        Reply::Containers(vec![working]),
        exit(true, "", ""),
        exit(false, "", "no space left"),
    ];
    assert_eq!(
        store.add(&mut Session::new(&replies), "e", "/x", None),
        Step::Done(Err(Error::DockerError(dockerclient::Error::CopyError(
            "no space left".to_string()
        ))))
    );
}

#[test]
fn add_reports_a_ledger_write_that_fails() {
    let store = drive();
    let working = Container { id: "c1".to_string(), image: IMAGE.to_string() };
    let replies = vec![
        Reply::Host(HostEntry::File(b"abc".to_vec())),
        Reply::Containers(vec![working]),
        exit(true, "", ""),
        exit(true, "", ""),
        exit(true, "", "sh: can't create /checksum/data/e/x: Read-only file system\n"),
    ];
    assert_eq!(
        store.add(&mut Session::new(&replies), "e", "/x", None),
        Step::Done(Err(Error::ExecError(
            "sh: can't create /checksum/data/e/x: Read-only file system\n".to_string()
        )))
    );
}

#[test]
fn items_of_a_missing_entry_is_an_error() {
    let mut runtime = Runtime::new();
    let store = drive();
    assert_eq!(
        runtime.drive(|s| store.items(s, "nothing")),
        Err(Error::ExecError("ls: /data/nothing: No such file or directory\n".to_string()))
    );
    assert_eq!(runtime.commands(), strings(&["docker exec -i c1 sh -c \"ls /data/nothing\""]));
}

#[test]
fn items_makes_the_one_listing_of_the_entry() {
    let mut runtime = Runtime::new();
    let store = drive();
    host_file(&mut runtime, "/home/u/b.txt", "abc");
    host_file(&mut runtime, "/home/u/a.txt", "");
    assert_eq!(runtime.drive(|s| store.add(s, "docs", "/home/u/b.txt", None)), Ok(AddResult::Succ));
    assert_eq!(runtime.drive(|s| store.add(s, "docs", "/home/u/a.txt", None)), Ok(AddResult::Succ));
    let before = runtime.working().clone();
    runtime.asked.clear();
    assert_eq!(runtime.drive(|s| store.items(s, "docs")), Ok(strings(&["a.txt", "b.txt"])));
    assert_eq!(
        runtime.asked,
        vec![
            Request::ListContainers { all: false },
            Request::Shell { command: "docker exec -i c1 sh -c \"ls /data/docs\"".to_string() },
        ]
    );
    assert_eq!(runtime.working(), &before);
}

#[test]
fn items_come_back_in_the_order_of_the_listing() {
    let store = drive();
    let working = Container { id: "c1".to_string(), image: IMAGE.to_string() };
    let replies = vec![Reply::Containers(vec![working]), exit(true, "zeta\nalpha\n mid \n", "")];
    assert_eq!(
        store.items(&mut Session::new(&replies), "docs"),
        Step::Done(Ok(strings(&["zeta", "alpha", "mid"])))
    );
}

#[test]
fn items_of_an_empty_entry_is_an_empty_list() {
    let mut runtime = Runtime::new();
    let store = drive();
    host_file(&mut runtime, "/home/u/a.txt", "abc");
    assert_eq!(runtime.drive(|s| store.add(s, "docs", "/home/u/a.txt", None)), Ok(AddResult::Succ));
    assert_eq!(runtime.drive(|s| store.delete(s, "docs", Some("a.txt"))), Ok(()));
    assert_eq!(runtime.drive(|s| store.items(s, "docs")), Ok(vec![]));
}

#[test]
fn ls_reports_diagnostics() {
    let mut runtime = Runtime::new();
    let cli = DockerClient::new();
    assert_eq!(
        runtime.drive(|s| ls(&cli, s, IMAGE, "/nowhere")),
        Err(Error::ExecError("ls: /nowhere: No such file or directory\n".to_string()))
    );
    assert_eq!(runtime.drive(|s| ls(&cli, s, IMAGE, "/data")), Ok(vec![]));
}

#[test]
fn a_deleted_item_is_gone_with_its_ledger_record() {
    let mut runtime = Runtime::new();
    let store = drive();
    host_file(&mut runtime, "/home/u/a.txt", "abc");
    host_file(&mut runtime, "/home/u/b.txt", "");
    assert_eq!(runtime.drive(|s| store.add(s, "docs", "/home/u/a.txt", None)), Ok(AddResult::Succ));
    assert_eq!(runtime.drive(|s| store.add(s, "docs", "/home/u/b.txt", None)), Ok(AddResult::Succ));
    runtime.asked.clear();
    assert_eq!(runtime.drive(|s| store.delete(s, "docs", Some("a.txt"))), Ok(()));
    assert_eq!(
        runtime.commands(),
        strings(&["docker exec -i c1 sh -c \"rm -rf /data/docs/a.txt /checksum/data/docs/a.txt\""])
    );
    assert_eq!(runtime.drive(|s| store.items(s, "docs")), Ok(strings(&["b.txt"])));
    assert!(!runtime.working().contains_key("/checksum/data/docs/a.txt"));
    assert!(runtime.working().contains_key("/checksum/data/docs/b.txt"));
    assert_eq!(runtime.drive(|s| store.add(s, "docs", "/home/u/a.txt", None)), Ok(AddResult::Succ));
}

#[test]
fn a_deleted_entry_is_gone_with_its_ledger() {
    let mut runtime = Runtime::new();
    let store = drive();
    host_file(&mut runtime, "/home/u/a.txt", "abc");
    assert_eq!(runtime.drive(|s| store.add(s, "docs", "/home/u/a.txt", None)), Ok(AddResult::Succ));
    assert_eq!(runtime.drive(|s| store.add(s, "keep", "/home/u/a.txt", None)), Ok(AddResult::Succ));
    runtime.asked.clear();
    assert_eq!(runtime.drive(|s| store.delete(s, "docs", None)), Ok(()));
    assert_eq!(
        runtime.commands(),
        strings(&["docker exec -i c1 sh -c \"rm -rf /data/docs /checksum/data/docs\""])
    );
    assert_eq!(runtime.drive(|s| store.entries(s)), Ok(strings(&["keep"])));
    assert_eq!(
        runtime.drive(|s| store.items(s, "docs")),
        Err(Error::ExecError("ls: /data/docs: No such file or directory\n".to_string()))
    );
    assert!(runtime.working().keys().all(|p| !p.starts_with("/checksum/data/docs")));
    assert!(runtime.working().contains_key("/checksum/data/keep/a.txt"));
}

#[test]
fn delete_reports_diagnostics() {
    let store = drive();
    let working = Container { id: "c1".to_string(), image: IMAGE.to_string() };
    let replies =
        vec![Reply::Containers(vec![working]), exit(true, "", "rm: read-only file system\n")];
    assert_eq!(
        store.delete(&mut Session::new(&replies), "docs", None),
        Step::Done(Err(Error::ExecError("rm: read-only file system\n".to_string())))
    );
}

#[test]
fn export_copies_the_entry_out() {
    let mut runtime = Runtime::new();
    let store = drive();
    host_file(&mut runtime, "/home/u/a.txt", "abc");
    assert_eq!(runtime.drive(|s| store.add(s, "docs", "/home/u/a.txt", None)), Ok(AddResult::Succ));
    runtime.asked.clear();
    assert_eq!(runtime.drive(|s| store.export_to_dir(s, "/tmp/out", "docs")), Ok(()));
    assert_eq!(runtime.commands(), strings(&["docker cp c1:/data/docs /tmp/out"]));
    assert_eq!(
        runtime.drive(|s| store.export_to_dir(s, "/tmp/out", "nothing")),
        Err(Error::DockerError(dockerclient::Error::CopyError(
            "no such path in the container".to_string()
        )))
    );
}

#[test]
fn sync_commits_what_changed_and_pushes() {
    let mut runtime = Runtime::new();
    let store = drive();
    host_file(&mut runtime, "/home/u/a.txt", "abc");
    assert_eq!(runtime.drive(|s| store.add(s, "docs", "/home/u/a.txt", None)), Ok(AddResult::Succ));
    runtime
        .images
        .get_mut(IMAGE)
        .unwrap()
        .insert("/checksum/data/old/x".to_string(), format!("{}\n", EMPTY));
    runtime.asked.clear();
    assert_eq!(runtime.drive(|s| store.sync(s)), Ok(()));
    assert_eq!(
        runtime.commands(),
        strings(&[
            "docker exec -i c1 sh -c \"cat /checksum/data/*/* | sort\"",
            "docker exec -i c2 sh -c \"cat /checksum/data/*/* | sort\"",
            &format!("docker commit -m \"commit by sync\" c1 {}", IMAGE),
            &format!("docker push {}", IMAGE),
        ])
    );
    assert!(runtime.registry.get(IMAGE).unwrap().contains_key("/checksum/data/docs/a.txt"));
}

#[test]
fn a_second_sync_commits_nothing_and_pushes_again() {
    let mut runtime = Runtime::new();
    let store = drive();
    host_file(&mut runtime, "/home/u/a.txt", "abc");
    assert_eq!(runtime.drive(|s| store.add(s, "docs", "/home/u/a.txt", None)), Ok(AddResult::Succ));
    runtime
        .images
        .get_mut(IMAGE)
        .unwrap()
        .insert("/checksum/data/old/x".to_string(), format!("{}\n", EMPTY));
    assert_eq!(runtime.drive(|s| store.sync(s)), Ok(()));
    assert_eq!(runtime.count("docker commit "), 1);
    assert_eq!(runtime.count("docker push "), 1);
    assert_eq!(runtime.drive(|s| store.sync(s)), Ok(()));
    assert_eq!(runtime.count("docker commit "), 1);
    assert_eq!(runtime.count("docker push "), 2);
}

#[test]
fn sync_logs_in_when_the_push_is_refused() {
    let mut runtime = Runtime::new();
    runtime.logged_in = false;
    let store = drive();
    host_file(&mut runtime, "/home/u/a.txt", "abc");
    assert_eq!(runtime.drive(|s| store.add(s, "docs", "/home/u/a.txt", None)), Ok(AddResult::Succ));
    runtime
        .images
        .get_mut(IMAGE)
        .unwrap()
        .insert("/checksum/data/old/x".to_string(), format!("{}\n", EMPTY));
    assert_eq!(runtime.drive(|s| store.sync(s)), Ok(()));
    assert_eq!(runtime.count("docker push "), 2);
    assert_eq!(runtime.count("docker login "), 1);
    assert!(runtime.registry.contains_key(IMAGE));
}

#[test]
fn sync_reports_a_ledger_that_cannot_be_read() {
    let mut runtime = Runtime::new();
    let store = drive();
    assert_eq!(
        runtime.drive(|s| store.sync(s)),
        Err(Error::ExecError(
            "cat: can't open '/checksum/data/*/*': No such file or directory\n".to_string()
        ))
    );
    assert_eq!(runtime.count("docker push "), 0);
}

#[test]
fn sync_reports_a_commit_that_fails() {
    let store = drive();
    let working = Container { id: "c1".to_string(), image: IMAGE.to_string() };
    let fresh = Container { id: "c2".to_string(), image: IMAGE.to_string() };
    let replies = vec![
        Reply::Containers(vec![working.clone()]),
        Reply::Containers(vec![working.clone()]),
        Reply::Created("c2".to_string()),
        Reply::Containers(vec![working, fresh]),
        Reply::Done,
        exit(true, "aa\n", ""),
        exit(true, "bb\n", ""),
        exit(false, "", "cannot commit"),
    ];
    assert_eq!(
        store.sync(&mut Session::new(&replies)),
        Step::Done(Err(Error::DockerError(dockerclient::Error::CommitError(
            "cannot commit".to_string()
        ))))
    );
}

#[test]
fn signatures_are_compared_without_the_white_space_around_them() {
    let store = drive();
    let working = Container { id: "c1".to_string(), image: IMAGE.to_string() };
    let fresh = Container { id: "c2".to_string(), image: IMAGE.to_string() };
    let mut replies = vec![
        Reply::Containers(vec![working.clone()]),
        Reply::Created("c2".to_string()),
        Reply::Containers(vec![working, fresh]),
        Reply::Done,
        exit(true, "aa\nbb\n", ""),
        exit(true, "\naa\nbb", ""),
    ];
    assert_eq!(store.diff_container_with_image(&mut Session::new(&replies)), Step::Done(Ok(false)));
    replies[5] = exit(true, "aa\nbc\n", "");
    assert_eq!(store.diff_container_with_image(&mut Session::new(&replies)), Step::Done(Ok(true)));
    let one = vec![exit(true, "  aa\nbb \n", "")];
    assert_eq!(
        store.get_checksum_str(&mut Session::new(&one), "c1"),
        Step::Done(Ok("aa\nbb".to_string()))
    );
}

#[test]
fn sync_from_remote_overwrites_the_local_image() {
    let mut runtime = Runtime::new();
    let store = drive();
    let mut remote = Files::new();
    remote.insert("/data/".to_string(), String::new());
    remote.insert("/data/remote/x".to_string(), "bytes".to_string());
    runtime.registry.insert(IMAGE.to_string(), remote.clone());
    assert_eq!(runtime.drive(|s| store.sync_from_remote(s)), Ok(()));
    assert_eq!(
        runtime.commands(),
        strings(&[&format!("docker rmi {}", IMAGE), &format!("docker pull {}", IMAGE)])
    );
    assert_eq!(runtime.images.get(IMAGE), Some(&remote));
}

#[test]
fn sync_from_remote_pulls_even_when_nothing_could_be_removed() {
    let mut runtime = Runtime::new();
    let store = drive();
    runtime.images.clear();
    runtime.registry.insert(IMAGE.to_string(), Files::new());
    assert_eq!(runtime.drive(|s| store.sync_from_remote(s)), Ok(()));
    assert!(runtime.images.contains_key(IMAGE));
    runtime.registry.clear();
    assert_eq!(
        runtime.drive(|s| store.sync_from_remote(s)),
        Err(Error::DockerError(dockerclient::Error::DefaultError(
            "not found in the registry".to_string()
        )))
    );
}

#[test]
fn a_stored_item_is_made_from_its_ledger_record() {
    let mut item =
        ContainerItem::new("/data/photos/cat.png", IMAGE, &format!("{}\n", ABC)).unwrap();
    assert_eq!(item.id(), "cat.png");
    assert_eq!(item.srcpath(), "/data/photos/cat.png");
    assert_eq!(item.image(), IMAGE);
    assert_eq!(imagedrive::hexcode::encode(&item.hash()), ABC);
    let upper = ContainerItem::new("/data/photos/cat.png", IMAGE, &ABC.to_uppercase());
    assert_eq!(imagedrive::hexcode::encode(&upper.unwrap().hash()), ABC);
}

#[test]
fn a_stored_item_needs_a_path_with_a_name() {
    for path in ["/", "/data/photos/..", "data/photos/cat.png", "", "/./"] {
        match ContainerItem::new(path, IMAGE, ABC) {
            Err(containeritem::Error::BadPath(p)) => assert_eq!(p, path),
            _ => panic!("{:?}", path),
        }
    }
}

#[test]
fn a_stored_item_needs_a_digest_of_full_length() {
    for ledger in ["", "\n", "abcd", "zz", &ABC[1..], &format!("{}00", ABC), "not a digest"] {
        match ContainerItem::new("/data/photos/cat.png", IMAGE, ledger) {
            Err(containeritem::Error::LedgerInconsistency(text)) => assert_eq!(text, ledger),
            _ => panic!("{:?}", ledger),
        }
    }
}

#[test]
fn reading_a_stored_item_asks_for_its_ledger_record() {
    let cli = DockerClient::new();
    let working = Container { id: "c1".to_string(), image: IMAGE.to_string() };
    let mut replies = vec![Reply::Containers(vec![working])];
    assert_eq!(
        ContainerItem::read(&cli, &mut Session::new(&replies), "/data/photos/cat.png", IMAGE)
            .map_ask(),
        Some(Request::Shell {
            command: "docker exec -i c1 sh -c \"cat /checksum/data/photos/cat.png\"".to_string()
        })
    );
    replies.push(exit(true, &format!("{}\n", ABC), ""));
    match ContainerItem::read(&cli, &mut Session::new(&replies), "/data/photos/cat.png", IMAGE) {
        Step::Done(Ok(mut item)) => {
            assert_eq!(item.id(), "cat.png");
            assert_eq!(imagedrive::hexcode::encode(&item.hash()), ABC);
        }
        _ => panic!(),
    }
    let none = vec![];
    match ContainerItem::read(&cli, &mut Session::new(&none), "/", IMAGE) {
        Step::Done(Err(containeritem::Error::BadPath(p))) => assert_eq!(p, "/"),
        _ => panic!(),
    }
    let failed = vec![Reply::Failed("no daemon".to_string())];
    match ContainerItem::read(&cli, &mut Session::new(&failed), "/data/e/i", IMAGE) {
        Step::Done(Err(containeritem::Error::DockerError(e))) => {
            assert_eq!(e, dockerclient::Error::DefaultError("no daemon".to_string()))
        }
        _ => panic!(),
    }
}

trait MapAsk {
    fn map_ask(self) -> Option<Request>;
}

impl<T> MapAsk for Step<T> {
    fn map_ask(self) -> Option<Request> {
        match self {
            Step::Ask(request) => Some(request),
            Step::Done(_) => None,
        }
    }
}

#[test]
fn a_store_can_want_its_exact_image() {
    let store = drive().matching_by(MatchRule::Exact);
    let other = Container { id: "c1".to_string(), image: "registry.example/store:old".to_string() };
    let replies = vec![Reply::Containers(vec![other.clone()])];
    assert_eq!(
        store.entries(&mut Session::new(&replies)),
        Step::Ask(Request::CreateContainer { image: IMAGE.to_string() })
    );
    let store = drive();
    assert_eq!(
        store.entries(&mut Session::new(&replies)),
        Step::Ask(Request::Shell { command: "docker exec -i c1 sh -c \"ls /data\"".to_string() })
    );
}

#[test]
fn the_store_and_its_error_have_a_text() {
    assert_eq!(drive().to_text(), format!("imagedrive: {}", IMAGE));
    assert_eq!(ImageDrive::new("busybox", "", "", "").to_text(), "imagedrive: busybox");
    assert_eq!(Error::NotExistItem("/x".to_string()).to_text(), "imagedrive error");
    assert_eq!(Error::ExecError("ls: failed".to_string()).to_text(), "imagedrive error");
}

#[test]
fn a_registry_port_is_part_of_the_repository() {
    let mut runtime = Runtime::new();
    runtime.images.insert("localhost:5000/drive:v1".to_string(), Files::new());
    runtime.containers.push((
        Container { id: "c1".to_string(), image: "localhost:5000/other:v1".to_string() },
        true,
        Files::new(),
    ));
    let store = ImageDrive::new("localhost:5000/drive:v1", "localhost:5000", "user", "secret");
    assert_eq!(
        runtime.drive(|s| store.items(s, "docs")),
        Err(Error::ExecError("ls: /data/docs: No such file or directory\n".to_string()))
    );
    assert_eq!(runtime.containers.len(), 2);
    assert_eq!(runtime.containers[1].0.image, "localhost:5000/drive:v1");
    assert_eq!(runtime.commands(), strings(&["docker exec -i c2 sh -c \"ls /data/docs\""]));
}

#[test]
fn every_digest_has_32_bytes() {
    let mut stored = ContainerItem::new("/data/e/i", IMAGE, ABC).unwrap();
    assert_eq!(stored.hash().len(), 32);
    for content in ["", "abc", "a longer content than one block of the hash function takes in"] {
        let found = HostEntry::File(content.as_bytes().to_vec());
        let mut item = imagedrive::hostitem::HostItem::new("/x", None, &found).unwrap();
        assert_eq!(item.hash().len(), 32);
        assert_eq!(item.hash().len(), 32);
    }
}
