use nous::add::{nous_add, nous_add_address, nous_add_resource, infer_resource, RepoWorld, TargetFacts};
use nous::address::Address;
use nous::path::ancestors;
use nous::repo::{
    enclosing_nous_repo, enclosing_nous_repo_incl, is_nous_file, is_nous_repo, nous_file_path,
    nous_init, validate_nous_repo, DirProbe, EntryInfo, EntryKind, NousError,
};
use nous::resource::{FetchAction, Fetchable, Resource};

type Probe = DirProbe<u32>;

fn repo_probe(dir: &str) -> Probe {
    DirProbe {
        kind: Ok(EntryKind::Dir),
        entries: Some(vec![
            EntryInfo { path: format!("{}/src", dir), kind: Some(EntryKind::Dir) },
            EntryInfo { path: nous_file_path(dir), kind: Some(EntryKind::File) },
        ]),
        nous_kind: Ok(EntryKind::File),
    }
}

fn plain_dir_probe(dir: &str) -> Probe {
    DirProbe {
        kind: Ok(EntryKind::Dir),
        entries: Some(vec![EntryInfo { path: format!("{}/notes.txt", dir), kind: Some(EntryKind::File) }]),
        nous_kind: Err(2),
    }
}

fn missing_probe() -> Probe {
    DirProbe { kind: Err(2), entries: None, nous_kind: Err(2) }
}

fn message<E>(e: &NousError<E>) -> String {
    match e {
        NousError::Io(_) => "io".to_string(),
        NousError::NotFound(m) => format!("not found: {}", m),
        NousError::InvalidInput(m) => format!("invalid: {}", m),
        NousError::UnsupportedRemote(u) => format!("remote: {}", u),
    }
}

#[test]
fn nous_file_path_examples() {
    assert_eq!(nous_file_path("/home/u/proj"), "/home/u/proj/.nous");
    assert_eq!(nous_file_path("/home/u/proj/"), "/home/u/proj/.nous");
    assert_eq!(nous_file_path(""), ".nous");
}

#[test]
fn nous_file_recognised() {
    assert!(is_nous_file("/p/.nous", Some(EntryKind::File)));
    assert!(!is_nous_file("/p/.nous", Some(EntryKind::Dir)));
    assert!(!is_nous_file("/p/.nous", None));
    assert!(!is_nous_file("/p/x.nous", Some(EntryKind::File)));
    assert!(is_nous_file(&nous_file_path("/any/dir"), Some(EntryKind::File)));
}

#[test]
fn repo_recognised() {
    assert!(is_nous_repo(&repo_probe("/p")));
    assert!(!is_nous_repo(&plain_dir_probe("/p")));
    assert!(!is_nous_repo(&missing_probe()));
    let unreadable: Probe = DirProbe { kind: Ok(EntryKind::Dir), entries: None, nous_kind: Ok(EntryKind::File) };
    assert!(!is_nous_repo(&unreadable));
    let not_dir: Probe = DirProbe { kind: Ok(EntryKind::File), ..repo_probe("/p") };
    assert!(!is_nous_repo(&not_dir));
}

/// Probes of the ancestors of `path`: a repository at each of `repos`.
fn ancestor_probes(path: &str, repos: &[&str]) -> Vec<Probe> {
    ancestors(path)
        .iter()
        .map(|a| if repos.contains(&a.as_str()) { repo_probe(a) } else { plain_dir_probe(a) })
        .collect()
}

#[test]
fn ancestors_nearest_first() {
    assert_eq!(ancestors("/a/b/c"), vec!["/a/b".to_string(), "/a".to_string(), "/".to_string()]);
    assert_eq!(ancestors("x/y"), vec!["x".to_string(), "".to_string()]);
    assert!(ancestors("/").is_empty());
}

#[test]
fn enclosing_of_nous_file_is_its_directory() {
    let path = "/home/u/proj/.nous";
    let r = enclosing_nous_repo(path, Some(EntryKind::File), &ancestor_probes(path, &[]));
    assert_eq!(r, Some("/home/u/proj".to_string()));
}

#[test]
fn enclosing_of_directory_is_nearest_repo() {
    let path = "/home/u/proj/sub";
    let r = enclosing_nous_repo(path, Some(EntryKind::Dir), &ancestor_probes(path, &["/home/u/proj"]));
    assert_eq!(r, Some("/home/u/proj".to_string()));
    let none = enclosing_nous_repo(path, Some(EntryKind::Dir), &ancestor_probes(path, &[]));
    assert_eq!(none, None);
    let root = enclosing_nous_repo("/", Some(EntryKind::Dir), &ancestor_probes("/", &[]));
    assert_eq!(root, None);
}

#[test]
fn enclosing_searches_every_ancestor() {
    let path = "/a/b/c";
    let deep = enclosing_nous_repo(path, Some(EntryKind::Dir), &ancestor_probes(path, &["/a"]));
    assert_eq!(deep, Some("/a".to_string()));
    let nearest = enclosing_nous_repo(path, Some(EntryKind::Dir), &ancestor_probes(path, &["/a", "/a/b"]));
    assert_eq!(nearest, Some("/a/b".to_string()));
    let at_root = enclosing_nous_repo(path, Some(EntryKind::Dir), &ancestor_probes(path, &["/"]));
    assert_eq!(at_root, Some("/".to_string()));
}

#[test]
fn enclosing_incl_prefers_the_directory_itself() {
    let r = enclosing_nous_repo_incl("/p/q", &repo_probe("/p/q"), &ancestor_probes("/p/q", &["/p"]));
    assert_eq!(r, Some("/p/q".to_string()));
    let up = enclosing_nous_repo_incl("/p/q", &plain_dir_probe("/p/q"), &ancestor_probes("/p/q", &["/p"]));
    assert_eq!(up, Some("/p".to_string()));
    let none = enclosing_nous_repo_incl("/p/q", &plain_dir_probe("/p/q"), &ancestor_probes("/p/q", &[]));
    assert_eq!(none, None);
}

#[test]
fn validate_accepts_repo() {
    assert!(validate_nous_repo("/p", repo_probe("/p")).is_ok());
}

#[test]
fn validate_errors() {
    let e = validate_nous_repo("/p", missing_probe()).unwrap_err();
    assert!(matches!(e, NousError::Io(2)));
    let no_file: Probe = DirProbe { nous_kind: Err(7), ..plain_dir_probe("/p") };
    assert!(matches!(validate_nous_repo("/p", no_file).unwrap_err(), NousError::Io(7)));
    let nous_dir: Probe = DirProbe { nous_kind: Ok(EntryKind::Dir), ..plain_dir_probe("/p") };
    assert_eq!(message(&validate_nous_repo("/p", nous_dir).unwrap_err()), "not found: .nous file not found");
    let file: Probe = DirProbe { kind: Ok(EntryKind::File), ..plain_dir_probe("/p") };
    assert_eq!(message(&validate_nous_repo("/p", file).unwrap_err()), "invalid: /p is not a directory");
}

#[test]
fn init_plans_description_file() {
    let plan = nous_init("/home/u/proj", plain_dir_probe("/home/u/proj")).ok().unwrap();
    assert_eq!(plan.nous_file, "/home/u/proj/.nous");
    assert_eq!(plan.project_name, "proj");
}

#[test]
fn init_errors() {
    let again = nous_init("/p", repo_probe("/p")).err().unwrap();
    assert_eq!(message(&again), "invalid: /p is already a nous repo");
    let file: Probe = DirProbe { kind: Ok(EntryKind::File), ..plain_dir_probe("/p") };
    assert_eq!(message(&nous_init("/p", file).err().unwrap()), "invalid: /p is not a directory");
    assert!(matches!(nous_init("/p", missing_probe()).err().unwrap(), NousError::Io(2)));
}

#[test]
fn initialised_repo_is_found_and_valid() {
    let plan = nous_init("/w/proj", plain_dir_probe("/w/proj")).ok().unwrap();
    let after = DirProbe {
        kind: Ok(EntryKind::Dir),
        entries: Some(vec![EntryInfo { path: plan.nous_file.clone(), kind: Some(EntryKind::File) }]),
        nous_kind: Ok(EntryKind::File),
    };
    assert!(is_nous_repo(&after));
    assert_eq!(enclosing_nous_repo_incl("/w/proj", &after, &ancestor_probes("/w/proj", &[])), Some("/w/proj".to_string()));
    assert!(nous_init("/w/proj", after).is_err());
    assert!(validate_nous_repo("/w/proj", repo_probe("/w/proj")).is_ok());
}

fn file_target(contents: &[u8]) -> TargetFacts {
    TargetFacts { kind: Some(EntryKind::File), is_git_repository: false, contents: Some(contents.to_vec()) }
}

fn world_in_repo(cwd: &str) -> RepoWorld<u32> {
    RepoWorld { cwd: Ok(cwd.to_string()), here: repo_probe(cwd), ancestors: ancestor_probes(cwd, &[]) }
}

#[test]
fn infer_file_resource() {
    let addr = Address::Local("/data/notes.txt".to_string());
    match infer_resource(&addr, &file_target(b"abc")) {
        Some(Resource::File(f)) => {
            assert_eq!(f.name, "notes.txt");
            assert_eq!(f.dest_dir, "notes");
            assert_eq!(f.hash.len(), 32);
            assert_eq!(f.hash[0], 0xba);
            assert!(matches!(f.origin, Some(Address::Local(ref p)) if p == "/data/notes.txt"));
        },
        _ => panic!("expected a file"),
    }
}

#[test]
fn infer_git_resource() {
    let addr = Address::Local("/src/tool".to_string());
    let t = TargetFacts { kind: Some(EntryKind::Dir), is_git_repository: true, contents: None };
    match infer_resource(&addr, &t) {
        Some(Resource::GitRepository(g)) => {
            assert_eq!(g.name, "tool");
            assert_eq!(g.dest_dir, "tool");
        },
        _ => panic!("expected a repository"),
    }
}

#[test]
fn infer_nothing() {
    let addr = Address::Local("/src/plain".to_string());
    let t = TargetFacts { kind: Some(EntryKind::Dir), is_git_repository: false, contents: None };
    assert!(infer_resource(&addr, &t).is_none());
    let gone = TargetFacts { kind: None, is_git_repository: false, contents: None };
    assert!(infer_resource(&addr, &gone).is_none());
}

#[test]
fn add_file_to_enclosing_repo() {
    let plan = nous_add("/data/file.txt".to_string(), &file_target(b""), world_in_repo("/w/proj")).ok().unwrap();
    assert_eq!(plan.nous_file, "/w/proj/.nous");
    match plan.resource.fetch() {
        FetchAction::Symlink { target, link } => {
            assert_eq!(target, "/data/file.txt");
            assert_eq!(link, "file/file.txt");
        },
        _ => panic!("expected a link"),
    }
}

#[test]
fn add_from_subdirectory_uses_parent_repo() {
    let world = RepoWorld { cwd: Ok("/w/proj/sub".to_string()), here: plain_dir_probe("/w/proj/sub"), ancestors: ancestor_probes("/w/proj/sub", &["/w/proj"]) };
    let plan = nous_add("/data/file.txt".to_string(), &file_target(b"x"), world).ok().unwrap();
    assert_eq!(plan.nous_file, "/w/proj/.nous");
    let deeper = RepoWorld { cwd: Ok("/w/proj/a/b".to_string()), here: plain_dir_probe("/w/proj/a/b"), ancestors: ancestor_probes("/w/proj/a/b", &["/w/proj"]) };
    let plan = nous_add("/data/file.txt".to_string(), &file_target(b"x"), deeper).ok().unwrap();
    assert_eq!(plan.nous_file, "/w/proj/.nous");
}

#[test]
fn add_errors() {
    let remote = nous_add("https://example.com/x".to_string(), &file_target(b""), world_in_repo("/w")).err().unwrap();
    assert_eq!(message(&remote), "remote: https://example.com/x");
    let t = TargetFacts { kind: None, is_git_repository: false, contents: None };
    let unknown = nous_add("/nowhere".to_string(), &t, world_in_repo("/w")).err().unwrap();
    assert_eq!(message(&unknown), "invalid: I don't understand the meaning of that resource!");
    let outside = RepoWorld { cwd: Ok("/w".to_string()), here: plain_dir_probe("/w"), ancestors: ancestor_probes("/w", &[]) };
    let e = nous_add("/data/f".to_string(), &file_target(b""), outside).err().unwrap();
    assert_eq!(message(&e), "invalid: working directory not contained in a nous repo");
    let no_cwd = RepoWorld { cwd: Err(9), here: missing_probe(), ancestors: vec![] };
    assert!(matches!(nous_add("/data/f".to_string(), &file_target(b""), no_cwd).err().unwrap(), NousError::Io(9)));
    let broken = RepoWorld { cwd: Ok("/w".to_string()), here: DirProbe { nous_kind: Ok(EntryKind::Dir), ..repo_probe("/w") }, ancestors: ancestor_probes("/w", &[]) };
    assert_eq!(message(&nous_add("/data/f".to_string(), &file_target(b""), broken).err().unwrap()), "not found: .nous file not found");
}

#[test]
fn add_address_and_resource_directly() {
    let plan = nous_add_address(Address::Local("/r/tool".to_string()),
        &TargetFacts { kind: Some(EntryKind::Dir), is_git_repository: true, contents: None },
        world_in_repo("/w")).ok().unwrap();
    assert!(matches!(plan.resource, Resource::GitRepository(_)));
    let res = infer_resource(&Address::Local("/r/a.txt".to_string()), &file_target(b"a")).unwrap();
    let plan = nous_add_resource(res, world_in_repo("/w/p")).ok().unwrap();
    assert_eq!(plan.nous_file, "/w/p/.nous");
}

#[test]
fn validate_agrees_with_repo_check() {
    for probe_of in [repo_probe as fn(&str) -> Probe, plain_dir_probe] {
        let ok = validate_nous_repo("/v", probe_of("/v")).is_ok();
        assert_eq!(ok, is_nous_repo(&probe_of("/v")));
    }
}

#[test]
fn nous_file_leads_back_up_to_trailing_noise() {
    for (dir, expected) in [("/w/p/", "/w/p"), ("/w/p/.", "/w/p"), ("/w/p", "/w/p"), ("/", "/"), (".", ".")] {
        let f = nous_file_path(dir);
        let r = enclosing_nous_repo(&f, Some(EntryKind::File), &ancestor_probes(&f, &[]));
        assert_eq!(r, Some(expected.to_string()), "from {:?}", dir);
    }
}
