use sbom_scanner::npm::{
    aggregate_resolutions, clean_github_repo_url, packages_from_fields, registry_url,
    resolve_reply, select_npm_packages, Package, RegistryReply, ResolveFailure, SbomEntry,
};

#[test]
fn clean_url_git_plus_https() {
    let r = clean_github_repo_url("git+https://github.com/owner/repo.git");
    assert_eq!(r.as_deref(), Some("https://github.com/owner/repo"));
}

#[test]
fn clean_url_git_protocol() {
    let r = clean_github_repo_url("git://github.com/owner/repo.git");
    assert_eq!(r.as_deref(), Some("https://github.com/owner/repo"));
}

#[test]
fn clean_url_ssh_form() {
    let r = clean_github_repo_url("git@github.com:owner/repo.git");
    assert_eq!(r.as_deref(), Some("https://github.com/owner/repo"));
}

#[test]
fn clean_url_www_subdomain() {
    let r = clean_github_repo_url("https://www.github.com/owner/repo");
    assert_eq!(r.as_deref(), Some("https://github.com/owner/repo"));
}

#[test]
fn clean_url_bare_host_gets_scheme() {
    let r = clean_github_repo_url("github.com/owner/repo");
    assert_eq!(r.as_deref(), Some("https://github.com/owner/repo"));
}

#[test]
fn clean_url_idempotent_on_variants() {
    let variants = [
        "git+https://github.com/owner/repo.git",
        "git://github.com/owner/repo.git",
        "git@github.com:owner/repo.git",
        "https://www.github.com/owner/repo",
    ];
    for v in variants {
        let once = clean_github_repo_url(v).unwrap();
        let twice = clean_github_repo_url(&once).unwrap();
        assert_eq!(once, "https://github.com/owner/repo");
        assert_eq!(twice, once);
    }
}

#[test]
fn clean_url_rejects_other_hosts() {
    assert_eq!(clean_github_repo_url("https://gitlab.com/owner/repo"), None);
    assert_eq!(clean_github_repo_url("git+ssh://bitbucket.org/owner/repo.git"), None);
    assert_eq!(clean_github_repo_url(""), None);
}

#[test]
fn registry_url_shape() {
    let p = Package { name: "left-pad".to_string(), version: "1.3.0".to_string() };
    assert_eq!(registry_url(&p), "https://registry.npmjs.org/left-pad/1.3.0");
}

#[test]
fn resolve_reply_success() {
    let reply = RegistryReply::Repository("git+https://github.com/stevemao/left-pad.git".to_string());
    let r = resolve_reply(&reply);
    assert_eq!(r.unwrap(), "https://github.com/stevemao/left-pad");
}

#[test]
fn resolve_reply_classifies_each_failure() {
    assert_eq!(
        resolve_reply(&RegistryReply::Failure(404)).unwrap_err(),
        ResolveFailure::RegistryStatus(404)
    );
    assert_eq!(
        resolve_reply(&RegistryReply::Malformed).unwrap_err(),
        ResolveFailure::MalformedBody
    );
    assert_eq!(
        resolve_reply(&RegistryReply::NoRepository).unwrap_err(),
        ResolveFailure::MissingRepository
    );
    assert_eq!(
        resolve_reply(&RegistryReply::Repository("https://gitlab.com/a/b".to_string()))
            .unwrap_err(),
        ResolveFailure::RepositoryNotGithub
    );
}

fn three_packages() -> Vec<Package> {
    vec![
        Package { name: "a".to_string(), version: "1.0.0".to_string() },
        Package { name: "b".to_string(), version: "2.0.0".to_string() },
        Package { name: "c".to_string(), version: "3.0.0".to_string() },
    ]
}

#[test]
fn aggregate_all_ok_preserves_each_package() {
    let packages = three_packages();
    let outcomes: Vec<Result<String, ResolveFailure>> = vec![
        Ok("https://github.com/x/a".to_string()),
        Ok("https://github.com/x/b".to_string()),
        Ok("https://github.com/x/c".to_string()),
    ];
    let r = aggregate_resolutions(&packages, &outcomes).unwrap();
    assert_eq!(r.len(), 3);
    for (i, (p, url)) in r.iter().enumerate() {
        assert_eq!(p.name, packages[i].name);
        assert_eq!(p.version, packages[i].version);
        assert_eq!(url, outcomes[i].as_ref().unwrap());
    }
}

#[test]
fn aggregate_fails_fast_on_first_error() {
    let packages = three_packages();
    let outcomes: Vec<Result<String, ResolveFailure>> = vec![
        Ok("https://github.com/x/a".to_string()),
        Err(ResolveFailure::RegistryStatus(500)),
        Err(ResolveFailure::MissingRepository),
    ];
    let b = aggregate_resolutions(&packages, &outcomes).unwrap_err();
    assert_eq!(b.package.name, "b");
    assert_eq!(b.package.version, "2.0.0");
    assert_eq!(b.failure, ResolveFailure::RegistryStatus(500));
}

#[test]
fn select_strips_prefix_exactly_once_and_drops_the_rest() {
    let entries = vec![
        SbomEntry { name: "npm:left-pad".to_string(), version: "1.3.0".to_string() },
        SbomEntry { name: "pip:requests".to_string(), version: "2.0".to_string() },
        SbomEntry { name: "npm:npm:odd".to_string(), version: "0.1".to_string() },
        SbomEntry { name: "plain".to_string(), version: "9.9".to_string() },
    ];
    let r = select_npm_packages(&entries);
    assert_eq!(r.len(), 2);
    assert_eq!(r[0].name, "left-pad");
    assert_eq!(r[0].version, "1.3.0");
    assert_eq!(r[1].name, "npm:odd");
    assert_eq!(r[1].version, "0.1");
}

#[test]
fn select_empty_list() {
    let r = select_npm_packages(&Vec::new());
    assert!(r.is_empty());
}

#[test]
fn packages_from_fields_defaults_missing_to_empty() {
    let fields = vec![
        (Some("a".to_string()), Some("1".to_string())),
        (None, Some("2".to_string())),
        (Some("c".to_string()), None),
    ];
    let r = packages_from_fields(&fields);
    assert_eq!(r.len(), 3);
    assert_eq!(r[0].name, "a");
    assert_eq!(r[0].version, "1");
    assert_eq!(r[1].name, "");
    assert_eq!(r[1].version, "2");
    assert_eq!(r[2].name, "c");
    assert_eq!(r[2].version, "");
}
