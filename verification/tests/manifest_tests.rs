use repoteer::manifest::{default_manifest_path, Manifest, ManifestError, Repo, VCService};

#[test]
fn from_toml_str_single() {
    let s = r#"
            [[repos]]
            url = "git@github.com:testuser/testrepo.git"
            service = "Git"
            path = "/home/foo/testrepo"
        "#;
    let should_be = Manifest {
        repos: vec![Repo {
            url: "git@github.com:testuser/testrepo.git".to_string(),
            service: VCService::Git,
            path: "/home/foo/testrepo".to_string(),
            is_bare: None,
        }],
    };
    assert_eq!(Manifest::from_toml_str(s).unwrap(), should_be);
}

#[test]
fn from_toml_str_multi() {
    let s = r#"
            [[repos]]
            url = "git@github.com:testuser/testrepo.git"
            service = "Git"
            path = "/home/foo/testrepo"

            [[repos]]
            url = "git@bitbucket.com:bbuser/somerepo.git"
            service = "Git"
            path = "/home/bar/somerepo"

            [[repos]]
            url = "git@gitlab.com:gitlabuser/gitlabrepo.git"
            service = "Git"
            path = "/root/gitlabrepo"
        "#;
    let should_be = Manifest {
        repos: vec![
            Repo {
                url: "git@github.com:testuser/testrepo.git".to_string(),
                service: VCService::Git,
                path: "/home/foo/testrepo".to_string(),
                is_bare: None,
            },
            Repo {
                url: "git@bitbucket.com:bbuser/somerepo.git".to_string(),
                service: VCService::Git,
                path: "/home/bar/somerepo".to_string(),
                is_bare: None,
            },
            Repo {
                url: "git@gitlab.com:gitlabuser/gitlabrepo.git".to_string(),
                service: VCService::Git,
                path: "/root/gitlabrepo".to_string(),
                is_bare: None,
            },
        ],
    };
    assert_eq!(Manifest::from_toml_str(s).unwrap(), should_be);
}

#[test]
fn from_toml_str_empty_repos() {
    let s = r#"
            [[repos]]
        "#;
    assert!(Manifest::from_toml_str(s).is_err());
}

#[test]
fn from_toml_str_empty_string() {
    let s = "";
    assert!(Manifest::from_toml_str(s).is_err());
}

#[test]
fn parses_is_bare_true_and_false() {
    let s = "[[repos]]\nurl = \"u1\"\nservice = \"Git\"\npath = \"/p1\"\nis_bare = true\n[[repos]]\nurl = \"u2\"\nservice = \"Git\"\npath = \"/p2\"\nis_bare = false\n";
    let m = Manifest::from_toml_str(s).unwrap();
    assert_eq!(m.repos.len(), 2);
    assert_eq!(m.repos[0].is_bare, Some(true));
    assert_eq!(m.repos[1].is_bare, Some(false));
}

#[test]
fn comments_and_blank_lines_are_ignored() {
    let s = "# managed repositories\n\n[[repos]]\n# the url\nurl = \"u\"\nservice = \"Git\"\npath = \"/p\"\n";
    let m = Manifest::from_toml_str(s).unwrap();
    assert_eq!(m.repos.len(), 1);
    assert_eq!(m.repos[0].url, "u");
}

#[test]
fn empty_input_reports_missing_repos() {
    assert_eq!(Manifest::from_toml_str("").unwrap_err(), ManifestError::MissingRepos);
    assert_eq!(Manifest::from_toml_str("   \n\t\n").unwrap_err(), ManifestError::MissingRepos);
}

#[test]
fn malformed_line_reports_syntax_error() {
    let s = "[[repos]]\nthis line has no assignment\n";
    assert_eq!(Manifest::from_toml_str(s).unwrap_err(), ManifestError::SyntaxError);
    let s2 = "[[repos]]\nurl = unquoted\n";
    assert_eq!(Manifest::from_toml_str(s2).unwrap_err(), ManifestError::SyntaxError);
}

#[test]
fn key_before_header_is_refused() {
    let s = "url = \"u\"\n[[repos]]\n";
    assert_eq!(Manifest::from_toml_str(s).unwrap_err(), ManifestError::KeyOutsideRecord);
}

#[test]
fn duplicate_key_is_refused() {
    let s = "[[repos]]\nurl = \"a\"\nurl = \"b\"\n";
    assert_eq!(Manifest::from_toml_str(s).unwrap_err(), ManifestError::DuplicateKey);
}

#[test]
fn unrecognized_service_is_refused() {
    let s = "[[repos]]\nurl = \"u\"\nservice = \"Subversion\"\npath = \"/p\"\n";
    assert_eq!(Manifest::from_toml_str(s).unwrap_err(), ManifestError::UnrecognizedService);
}

#[test]
fn missing_fields_are_reported() {
    let no_url = "[[repos]]\nservice = \"Git\"\npath = \"/p\"\n";
    assert_eq!(Manifest::from_toml_str(no_url).unwrap_err(), ManifestError::MissingUrl);
    let no_service = "[[repos]]\nurl = \"u\"\npath = \"/p\"\n";
    assert_eq!(Manifest::from_toml_str(no_service).unwrap_err(), ManifestError::MissingService);
    let no_path = "[[repos]]\nurl = \"u\"\nservice = \"Git\"\n";
    assert_eq!(Manifest::from_toml_str(no_path).unwrap_err(), ManifestError::MissingPath);
}

#[test]
fn empty_required_fields_are_reported() {
    let empty_url = "[[repos]]\nurl = \"\"\nservice = \"Git\"\npath = \"/p\"\n";
    assert_eq!(Manifest::from_toml_str(empty_url).unwrap_err(), ManifestError::EmptyUrl);
    let empty_path = "[[repos]]\nurl = \"u\"\nservice = \"Git\"\npath = \"\"\n";
    assert_eq!(Manifest::from_toml_str(empty_path).unwrap_err(), ManifestError::EmptyPath);
}

#[test]
fn serializes_to_canonical_text() {
    let m = Manifest {
        repos: vec![
            Repo {
                url: "git@github.com:alice/dots.git".to_string(),
                service: VCService::Git,
                path: "/home/alice/dots".to_string(),
                is_bare: None,
            },
            Repo {
                url: "u2".to_string(),
                service: VCService::Git,
                path: "/p2".to_string(),
                is_bare: Some(true),
            },
        ],
    };
    let expected = "[[repos]]\nurl = \"git@github.com:alice/dots.git\"\nservice = \"Git\"\npath = \"/home/alice/dots\"\n[[repos]]\nurl = \"u2\"\nservice = \"Git\"\npath = \"/p2\"\nis_bare = true\n";
    assert_eq!(m.to_toml_string(), expected);
}

#[test]
fn parse_then_serialize_round_trips() {
    let s = r#"
            # fleet
            [[repos]]
            url = "git@github.com:testuser/testrepo.git"
            service = "Git"
            path = "/home/foo/testrepo"
            is_bare = false

            [[repos]]
            url = "https://example.com/r.git"
            service = "Git"
            path = "/srv/r"
        "#;
    let first = Manifest::from_toml_str(s).unwrap();
    let text = first.to_toml_string();
    let second = Manifest::from_toml_str(&text).unwrap();
    assert_eq!(first, second);
}

#[test]
fn default_manifest_location_under_home() {
    assert_eq!(
        default_manifest_path("/home/alice"),
        "/home/alice/.config/repoteer/manifest.toml"
    );
}
