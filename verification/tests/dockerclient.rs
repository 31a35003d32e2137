use imagedrive::dockerclient::{Container, DockerClient, Error, MatchRule};
use imagedrive::runtime::{Reply, Request, Session, Step};
use imagedrive::utils::{get_or_run, run};

fn container(id: &str, image: &str) -> Container {
    Container { id: id.to_string(), image: image.to_string() }
}

fn exit(success: bool, stdout: &str, stderr: &str) -> Reply {
    Reply::Exit { success, stdout: stdout.to_string(), stderr: stderr.to_string() }
}

fn shell(command: &str) -> Request {
    Request::Shell { command: command.to_string() }
}

fn account() -> DockerClient {
    DockerClient::new_with_logininfo("registry.example", "user", "secret")
}

#[test]
fn a_session_hands_out_its_replies_in_order() {
    let replies = vec![Reply::Done, Reply::Created("c1".to_string())];
    let mut session = Session::new(&replies);
    assert_eq!(session.call(Request::ListContainers { all: true }), Step::Done(&Reply::Done));
    assert_eq!(
        session.call(Request::ListContainers { all: false }),
        Step::Done(&Reply::Created("c1".to_string()))
    );
    assert_eq!(
        session.call(Request::StartContainer { container: "c1".to_string() }),
        Step::Ask(Request::StartContainer { container: "c1".to_string() })
    );
    assert_eq!(
        session.call(Request::ListContainers { all: false }),
        Step::Ask(Request::ListContainers { all: false })
    );
}

#[test]
fn ps_asks_for_the_listing() {
    let cli = DockerClient::new();
    let replies = vec![];
    assert_eq!(
        cli.ps(&mut Session::new(&replies), true),
        Step::Ask(Request::ListContainers { all: true })
    );
    assert_eq!(
        cli.ps(&mut Session::new(&replies), false),
        Step::Ask(Request::ListContainers { all: false })
    );
}

#[test]
fn ps_returns_what_was_listed() {
    let cli = DockerClient::new();
    let listed = vec![container("c1", "busybox:latest"), container("c2", "store:1")];
    let replies = vec![Reply::Containers(listed.clone())];
    assert_eq!(cli.ps(&mut Session::new(&replies), true), Step::Done(Ok(listed)));
    let replies = vec![Reply::Containers(vec![])];
    assert_eq!(cli.ps(&mut Session::new(&replies), true), Step::Done(Ok(vec![])));
}

#[test]
fn ps_reports_failure_and_strange_replies() {
    let cli = DockerClient::new();
    let replies = vec![Reply::Failed("no daemon".to_string())];
    assert_eq!(
        cli.ps(&mut Session::new(&replies), true),
        Step::Done(Err(Error::DefaultError("no daemon".to_string())))
    );
    let replies = vec![Reply::Done];
    assert_eq!(
        cli.ps(&mut Session::new(&replies), true),
        Step::Done(Err(Error::DefaultError("unexpected reply".to_string())))
    );
}

#[test]
fn create_looks_the_new_container_up() {
    let cli = DockerClient::new();
    let mut replies = vec![];
    assert_eq!(
        cli.create(&mut Session::new(&replies), "busybox:latest"),
        Step::Ask(Request::CreateContainer { image: "busybox:latest".to_string() })
    );
    replies.push(Reply::Created("c2".to_string()));
    assert_eq!(
        cli.create(&mut Session::new(&replies), "busybox:latest"),
        Step::Ask(Request::ListContainers { all: true })
    );
    replies.push(Reply::Containers(vec![
        container("c1", "busybox:latest"),
        container("c2", "busybox:latest"),
    ]));
    assert_eq!(
        cli.create(&mut Session::new(&replies), "busybox:latest"),
        Step::Done(Ok(container("c2", "busybox:latest")))
    );
}

#[test]
fn create_fails_when_the_container_is_not_listed() {
    let cli = DockerClient::new();
    let replies = vec![
        Reply::Created("c9".to_string()),
        Reply::Containers(vec![container("c1", "busybox:latest")]),
    ];
    assert_eq!(
        cli.create(&mut Session::new(&replies), "busybox:latest"),
        Step::Done(Err(Error::CreateError("not found created container: c9".to_string())))
    );
    let replies = vec![Reply::Failed("no such image".to_string())];
    assert_eq!(
        cli.create(&mut Session::new(&replies), "nothing"),
        Step::Done(Err(Error::DefaultError("no such image".to_string())))
    );
    let replies = vec![Reply::Created("c9".to_string()), Reply::Failed("gone".to_string())];
    assert_eq!(
        cli.create(&mut Session::new(&replies), "busybox"),
        Step::Done(Err(Error::DefaultError("gone".to_string())))
    );
}

#[test]
fn start_and_remove_name_the_container() {
    let cli = DockerClient::new();
    let none = vec![];
    assert_eq!(
        cli.start(&mut Session::new(&none), "c1"),
        Step::Ask(Request::StartContainer { container: "c1".to_string() })
    );
    assert_eq!(
        cli.remove(&mut Session::new(&none), "c1"),
        Step::Ask(Request::RemoveContainer { container: "c1".to_string() })
    );
    let done = vec![Reply::Done];
    assert_eq!(cli.start(&mut Session::new(&done), "c1"), Step::Done(Ok(())));
    assert_eq!(cli.remove(&mut Session::new(&done), "c1"), Step::Done(Ok(())));
    let failed = vec![Reply::Failed("not found".to_string())];
    assert_eq!(
        cli.start(&mut Session::new(&failed), "c1"),
        Step::Done(Err(Error::DefaultError("not found".to_string())))
    );
}

#[test]
fn exec_wraps_the_command() {
    let cli = DockerClient::new();
    let mut replies = vec![];
    assert_eq!(
        cli.exec(&mut Session::new(&replies), "c1", "ls /data"),
        Step::Ask(shell("docker exec -i c1 sh -c \"ls /data\""))
    );
    replies.push(exit(false, "out\n", "err\n"));
    assert_eq!(
        cli.exec(&mut Session::new(&replies), "c1", "ls /data"),
        Step::Done(Ok(("out\n".to_string(), "err\n".to_string())))
    );
    let replies = vec![Reply::Failed("no shell".to_string())];
    assert_eq!(
        cli.exec(&mut Session::new(&replies), "c1", "ls"),
        Step::Done(Err(Error::DefaultError("no shell".to_string())))
    );
}

#[test]
fn copy_in_and_out_build_the_command() {
    let cli = DockerClient::new();
    let none = vec![];
    assert_eq!(
        cli.copy_in(&mut Session::new(&none), "c1", "/home/u/cat.png", "/data/photos/cat.png"),
        Step::Ask(shell("docker cp /home/u/cat.png c1:/data/photos/cat.png"))
    );
    assert_eq!(
        cli.copy_out(&mut Session::new(&none), "c1", "/data/photos", "/tmp/out"),
        Step::Ask(shell("docker cp c1:/data/photos /tmp/out"))
    );
    let ok = vec![exit(true, "", "")];
    assert_eq!(cli.copy_in(&mut Session::new(&ok), "c1", "a", "b"), Step::Done(Ok(())));
    let bad = vec![exit(false, "", "no such file")];
    assert_eq!(
        cli.copy_out(&mut Session::new(&bad), "c1", "a", "b"),
        Step::Done(Err(Error::CopyError("no such file".to_string())))
    );
}

#[test]
fn remove_file_removes_recursively() {
    let cli = DockerClient::new();
    let none = vec![];
    assert_eq!(
        cli.remove_file(&mut Session::new(&none), "c1", "/data/photos"),
        Step::Ask(shell("docker exec -i c1 sh -c \"rm -rf /data/photos\""))
    );
    let ok = vec![exit(true, "", "warning")];
    assert_eq!(cli.remove_file(&mut Session::new(&ok), "c1", "/data/photos"), Step::Done(Ok(())));
}

#[test]
fn commit_builds_the_command() {
    let cli = DockerClient::new();
    let none = vec![];
    assert_eq!(
        cli.commit(&mut Session::new(&none), "c1", "test commit", "test-commit:latest"),
        Step::Ask(shell("docker commit -m \"test commit\" c1 test-commit:latest"))
    );
    let ok = vec![exit(true, "sha256:1\n", "")];
    assert_eq!(cli.commit(&mut Session::new(&ok), "c1", "m", "i"), Step::Done(Ok(())));
    let bad = vec![exit(false, "", "no such container")];
    assert_eq!(
        cli.commit(&mut Session::new(&bad), "c1", "m", "i"),
        Step::Done(Err(Error::CommitError("no such container".to_string())))
    );
}

#[test]
fn pull_and_remove_image_build_the_command() {
    let cli = DockerClient::new();
    let none = vec![];
    assert_eq!(cli.pull(&mut Session::new(&none), "store:1"), Step::Ask(shell("docker pull store:1")));
    assert_eq!(
        cli.remove_image(&mut Session::new(&none), "store:1"),
        Step::Ask(shell("docker rmi store:1"))
    );
    let bad = vec![exit(false, "", "denied")];
    assert_eq!(
        cli.pull(&mut Session::new(&bad), "store:1"),
        Step::Done(Err(Error::DefaultError("denied".to_string())))
    );
    let ok = vec![exit(true, "", "")];
    assert_eq!(cli.remove_image(&mut Session::new(&ok), "store:1"), Step::Done(Ok(())));
}

#[test]
fn a_push_that_succeeds_is_not_repeated() {
    let cli = account();
    let mut replies = vec![];
    assert_eq!(cli.push(&mut Session::new(&replies), "store:1"), Step::Ask(shell("docker push store:1")));
    replies.push(exit(true, "", ""));
    assert_eq!(cli.push(&mut Session::new(&replies), "store:1"), Step::Done(Ok(())));
}

#[test]
fn a_refused_push_logs_in_and_pushes_once_more() {
    let cli = account();
    let mut replies = vec![exit(false, "", "denied")];
    assert_eq!(
        cli.push(&mut Session::new(&replies), "store:1"),
        Step::Ask(shell("docker login registry.example --username=user --password=secret"))
    );
    replies.push(exit(true, "Login Succeeded", ""));
    assert_eq!(cli.push(&mut Session::new(&replies), "store:1"), Step::Ask(shell("docker push store:1")));
    replies.push(exit(true, "", ""));
    assert_eq!(cli.push(&mut Session::new(&replies), "store:1"), Step::Done(Ok(())));
}

#[test]
fn a_second_refusal_ends_the_push() {
    let cli = account();
    let replies =
        vec![exit(false, "", "denied"), exit(true, "", ""), exit(false, "", "still denied")];
    assert_eq!(
        cli.push(&mut Session::new(&replies), "store:1"),
        Step::Done(Err(Error::PushError("still denied".to_string())))
    );
}

#[test]
fn a_failed_login_ends_the_push() {
    let cli = account();
    let replies = vec![exit(false, "", "denied"), exit(false, "", "bad password")];
    assert_eq!(
        cli.push(&mut Session::new(&replies), "store:1"),
        Step::Done(Err(Error::LoginError("bad password".to_string())))
    );
}

#[test]
fn a_refused_push_without_an_account_ends_at_once() {
    let cli = DockerClient::new();
    let replies = vec![exit(false, "", "denied")];
    assert_eq!(
        cli.push(&mut Session::new(&replies), "store:1"),
        Step::Done(Err(Error::PushError("denied".to_string())))
    );
}

#[test]
fn a_push_that_cannot_run_is_a_default_error() {
    let cli = account();
    let replies = vec![Reply::Failed("no docker".to_string())];
    assert_eq!(
        cli.push(&mut Session::new(&replies), "store:1"),
        Step::Done(Err(Error::DefaultError("no docker".to_string())))
    );
}

#[test]
fn squash_removes_the_container_either_way() {
    let cli = DockerClient::new();
    let mut replies = vec![
        Reply::Created("c7".to_string()),
        Reply::Containers(vec![container("c7", "test-squash")]),
    ];
    assert_eq!(
        cli.squash(&mut Session::new(&replies), "test-squash", "new-test-squash"),
        Step::Ask(shell("docker export c7 | docker import - new-test-squash"))
    );
    replies.push(exit(false, "", "disk full"));
    assert_eq!(
        cli.squash(&mut Session::new(&replies), "test-squash", "new-test-squash"),
        Step::Ask(Request::RemoveContainer { container: "c7".to_string() })
    );
    replies.push(Reply::Failed("busy".to_string()));
    assert_eq!(
        cli.squash(&mut Session::new(&replies), "test-squash", "new-test-squash"),
        Step::Done(Err(Error::SquashError("disk full".to_string())))
    );
    replies[2] = exit(true, "", "");
    assert_eq!(
        cli.squash(&mut Session::new(&replies), "test-squash", "new-test-squash"),
        Step::Done(Ok(()))
    );
}

#[test]
fn get_or_run_takes_the_first_container_of_the_repository() {
    let cli = DockerClient::new();
    let mut replies = vec![];
    assert_eq!(
        get_or_run(&cli, &mut Session::new(&replies), "store:2"),
        Step::Ask(Request::ListContainers { all: false })
    );
    replies.push(Reply::Containers(vec![
        container("c1", "busybox:latest"),
        container("c2", "store:1"),
        container("c3", "store:2"),
    ]));
    assert_eq!(
        get_or_run(&cli, &mut Session::new(&replies), "store:2"),
        Step::Done(Ok(container("c2", "store:1")))
    );
    assert_eq!(
        get_or_run(&cli, &mut Session::new(&replies), "store"),
        Step::Done(Ok(container("c2", "store:1")))
    );
}

#[test]
fn get_or_run_makes_a_container_when_none_runs() {
    let cli = DockerClient::new();
    let mut replies = vec![Reply::Containers(vec![container("c1", "busybox:latest")])];
    assert_eq!(
        get_or_run(&cli, &mut Session::new(&replies), "store:2"),
        Step::Ask(Request::CreateContainer { image: "store:2".to_string() })
    );
    replies.push(Reply::Created("c4".to_string()));
    replies.push(Reply::Containers(vec![
        container("c1", "busybox:latest"),
        container("c4", "store:2"),
    ]));
    assert_eq!(
        get_or_run(&cli, &mut Session::new(&replies), "store:2"),
        Step::Ask(Request::StartContainer { container: "c4".to_string() })
    );
    replies.push(Reply::Done);
    assert_eq!(
        get_or_run(&cli, &mut Session::new(&replies), "store:2"),
        Step::Done(Ok(container("c4", "store:2")))
    );
}

#[test]
fn get_or_run_passes_failures_on() {
    let cli = DockerClient::new();
    let replies = vec![Reply::Failed("no daemon".to_string())];
    assert_eq!(
        get_or_run(&cli, &mut Session::new(&replies), "store"),
        Step::Done(Err(Error::DefaultError("no daemon".to_string())))
    );
    let replies = vec![
        Reply::Containers(vec![]),
        Reply::Created("c4".to_string()),
        Reply::Containers(vec![container("c4", "store")]),
        Reply::Failed("cannot start".to_string()),
    ];
    assert_eq!(
        get_or_run(&cli, &mut Session::new(&replies), "store"),
        Step::Done(Err(Error::DefaultError("cannot start".to_string())))
    );
}

#[test]
fn run_always_makes_a_new_container() {
    let cli = DockerClient::new();
    let mut replies = vec![];
    assert_eq!(
        run(&cli, &mut Session::new(&replies), "store:1"),
        Step::Ask(Request::CreateContainer { image: "store:1".to_string() })
    );
    replies.push(Reply::Created("c5".to_string()));
    replies.push(Reply::Containers(vec![container("c2", "store:1"), container("c5", "store:1")]));
    replies.push(Reply::Done);
    assert_eq!(
        run(&cli, &mut Session::new(&replies), "store:1"),
        Step::Done(Ok(container("c5", "store:1")))
    );
}

#[test]
fn the_exact_rule_wants_the_same_reference() {
    let cli = DockerClient::new().matching_by(MatchRule::Exact);
    assert_eq!(cli.match_rule(), MatchRule::Exact);
    assert_eq!(DockerClient::new().match_rule(), MatchRule::Repository);
    let replies = vec![Reply::Containers(vec![
        container("c1", "busybox:latest"),
        container("c2", "store:1"),
        container("c3", "store:2"),
    ])];
    assert_eq!(
        get_or_run(&cli, &mut Session::new(&replies), "store:2"),
        Step::Done(Ok(container("c3", "store:2")))
    );
    assert_eq!(
        get_or_run(&cli, &mut Session::new(&replies), "store"),
        Step::Ask(Request::CreateContainer { image: "store".to_string() })
    );
    let by_repository = DockerClient::new();
    assert_eq!(
        get_or_run(&by_repository, &mut Session::new(&replies), "store:2"),
        Step::Done(Ok(container("c2", "store:1")))
    );
}

/// A docker daemon that keeps its containers and images in memory.
struct Docker {
    containers: Vec<(Container, bool)>,
    images: Vec<String>,
    host: Vec<String>,
}

impl Docker {
    fn new() -> Docker {
        Docker {
            containers: Vec::new(),
            images: vec!["busybox".to_string(), "busybox:latest".to_string()],
            host: vec!["Cargo.toml".to_string()],
        }
    }

    fn has(&self, id: &str) -> bool {
        self.containers.iter().any(|(c, _)| c.id == id)
    }

    fn shell(&mut self, command: &str) -> Reply {
        if let Some(rest) = command.strip_prefix("docker cp ") {
            let (from, to) = rest.split_once(' ').unwrap();
            let id = to.split_once(':').unwrap().0;
            if self.host.iter().any(|p| p == from) && self.has(id) {
                return exit(true, "", "");
            }
            return exit(false, "", "no such file or container");
        }
        if let Some(rest) = command.strip_prefix("docker commit -m \"") {
            let (_, rest) = rest.split_once("\" ").unwrap();
            let (id, image) = rest.split_once(' ').unwrap();
            if !self.has(id) {
                return exit(false, "", "no such container");
            }
            self.images.push(image.to_string());
            return exit(true, "sha256:0\n", "");
        }
        if let Some(rest) = command.strip_prefix("docker exec -i ") {
            let (id, cmd) = rest.split_once(" sh -c \"").unwrap();
            let running = self.containers.iter().any(|(c, up)| c.id == id && *up);
            if running && cmd == "ls\"" {
                return exit(true, "bin\ndev\netc\nhome\n", "");
            }
            return exit(false, "", "cannot run");
        }
        if let Some(rest) = command.strip_prefix("docker export ") {
            let (id, image) = rest.split_once(" | docker import - ").unwrap();
            if !self.has(id) {
                return exit(false, "", "no such container");
            }
            self.images.push(image.to_string());
            return exit(true, "", "");
        }
        exit(false, "", "unknown command")
    }

    fn perform(&mut self, request: &Request) -> Reply {
        match request {
            Request::ListContainers { all } => Reply::Containers(
                self.containers
                    .iter()
                    .filter(|(_, up)| *all || *up)
                    .map(|(c, _)| c.clone())
                    .collect(),
            ),
            Request::CreateContainer { image } => {
                if !self.images.contains(image) {
                    return Reply::Failed(format!("no such image: {}", image));
                }
                let id = format!("c{}", self.containers.len() + 1);
                self.containers.push((container(&id, image), false));
                Reply::Created(id)
            }
            Request::StartContainer { container } => {
                match self.containers.iter_mut().find(|(c, _)| &c.id == container) {
                    Some(found) => {
                        found.1 = true;
                        Reply::Done
                    }
                    None => Reply::Failed("no such container".to_string()),
                }
            }
            Request::RemoveContainer { container } => {
                self.containers.retain(|(c, _)| &c.id != container);
                Reply::Done
            }
            Request::Shell { command } => self.shell(command),
            Request::ReadHost { .. } => Reply::Failed("not a daemon's business".to_string()),
        }
    }

    fn drive<T>(&mut self, mut operation: impl FnMut(&mut Session) -> Step<T>) -> T {
        let mut replies: Vec<Reply> = Vec::new();
        loop {
            let step = operation(&mut Session::new(&replies));
            match step {
                Step::Done(value) => return value,
                Step::Ask(request) => replies.push(self.perform(&request)),
            }
        }
    }
}

#[test]
fn ps() {
    let mut docker = Docker::new();
    let cli = DockerClient::new();
    let cs = docker.drive(|s| cli.ps(s, true));
    assert!(cs.is_ok());
}

#[test]
fn create() {
    let mut docker = Docker::new();
    let cli = DockerClient::new();
    let r = docker.drive(|s| cli.create(s, "busybox:latest"));
    println!("{:?}", r);
    assert!(r.is_ok());
}

#[test]
fn copy_in() {
    let mut docker = Docker::new();
    let cli = DockerClient::new();
    let c = docker.drive(|s| cli.create(s, "busybox:latest"));
    assert!(c.is_ok());
    let id = c.unwrap().id;
    let r = docker.drive(|s| cli.copy_in(s, &*id, "Cargo.toml", "/"));
    println!("{:?}", r);
    assert!(r.is_ok());
}

#[test]
fn commit() {
    let mut docker = Docker::new();
    let cli = DockerClient::new();
    let c_ = docker.drive(|s| cli.create(s, "busybox:latest"));
    assert!(c_.is_ok());
    let c = c_.unwrap();
    let r = docker.drive(|s| cli.copy_in(s, &*c.id, "Cargo.toml", "/"));
    assert!(r.is_ok());
    let r = docker.drive(|s| cli.commit(s, &*c.id, "test commit", "test-commit:latest"));
    assert!(r.is_ok());
}

#[test]
fn exec() {
    let mut docker = Docker::new();
    let cli = DockerClient::new();
    let c_ = docker.drive(|s| cli.create(s, "busybox:latest"));
    assert!(c_.is_ok());
    let c = c_.unwrap();
    docker.drive(|s| cli.start(s, &c.id)).unwrap();
    let r_ = docker.drive(|s| cli.exec(s, &c.id, "ls"));
    assert!(r_.is_ok());
    let r = r_.unwrap();
    let out: &str = &r.0;
    println!("{:?}", out.to_owned());
}

#[test]
fn squash() {
    let mut docker = Docker::new();
    let cli = DockerClient::new();
    let c = docker.drive(|s| cli.create(s, "busybox")).unwrap();
    let _ = docker.drive(|s| cli.copy_in(s, &c.id, "Cargo.toml", "/")).unwrap();
    let _ = docker.drive(|s| cli.commit(s, &c.id, "add cargo toml", "test-squash")).unwrap();
    assert!(docker.drive(|s| cli.squash(s, "test-squash", "new-test-squash")).is_ok());
}

#[test]
fn the_container_of_another_repository_on_the_same_registry_does_not_work() {
    let cli = DockerClient::new();
    let mut replies =
        vec![Reply::Containers(vec![container("c1", "localhost:5000/other:v1")])];
    assert_eq!(
        get_or_run(&cli, &mut Session::new(&replies), "localhost:5000/drive:v1"),
        Step::Ask(Request::CreateContainer { image: "localhost:5000/drive:v1".to_string() })
    );
    replies.push(Reply::Created("n".to_string()));
    replies.push(Reply::Containers(vec![
        container("c1", "localhost:5000/other:v1"),
        container("n", "localhost:5000/drive:v1"),
    ]));
    replies.push(Reply::Done);
    assert_eq!(
        get_or_run(&cli, &mut Session::new(&replies), "localhost:5000/drive:v1"),
        Step::Done(Ok(container("n", "localhost:5000/drive:v1")))
    );
}

#[test]
fn a_container_of_the_same_repository_works_whatever_its_tag() {
    let cli = DockerClient::new();
    let replies = vec![Reply::Containers(vec![
        container("c1", "localhost:5000/other:v1"),
        container("c2", "localhost:5000/drive:v0"),
        container("c3", "localhost:5000/drive:v1"),
    ])];
    assert_eq!(
        get_or_run(&cli, &mut Session::new(&replies), "localhost:5000/drive:v1"),
        Step::Done(Ok(container("c2", "localhost:5000/drive:v0")))
    );
    assert_eq!(
        get_or_run(&cli, &mut Session::new(&replies), "localhost:5000/drive"),
        Step::Done(Ok(container("c2", "localhost:5000/drive:v0")))
    );
    assert_eq!(
        get_or_run(&cli, &mut Session::new(&replies), "localhost:5000/other:latest"),
        Step::Done(Ok(container("c1", "localhost:5000/other:v1")))
    );
}
