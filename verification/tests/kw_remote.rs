use std::collections::HashMap;

use patch_hub::infra::{EnvTrait, FileSystemTrait};
use patch_hub::kw::remote::{
    parse_remote_config, resolve_deploy_remote, select_deploy_remote, KwRemote, RemoteRefusal,
};


    /// The example from kw's own writer (`src/kw_remote.sh`) / the
    /// integration plan: two hosts, default on the second, fields indented.
    const PLAN_FIXTURE: &str = "\
#kw-default=arch-test
Host steamos
  Hostname steamdeck
  Port 8888
  User jozzi
Host arch-test
  Hostname arch-tm
  Port 22
  User abc
";

    /// Lab deploy-smoke file: IdentityFile must not break parsing, and
    /// User root must land on the endpoint.
    const LAB_FIXTURE: &str = "\
#kw-default=ph-dut
Host ph-dut
  Hostname lima-ph-dut.internal
  Port 22
  User root
  IdentityFile /opt/ph-lab/keys/lab_ed25519
";

    fn pick(content: &str) -> Result<KwRemote, RemoteRefusal> {
        select_deploy_remote(&parse_remote_config(content))
    }

    fn remote(name: &str, hostname: &str, port: u16, user: Option<&str>) -> KwRemote {
        KwRemote {
            name: name.to_string(),
            hostname: hostname.to_string(),
            port,
            user: user.map(str::to_string),
        }
    }

    #[test]
    fn plan_fixture_picks_the_default_host() {
        let parsed = parse_remote_config(PLAN_FIXTURE);
        assert_eq!(Some("arch-test"), parsed.default.as_deref());
        assert_eq!(
            vec![
                remote("steamos", "steamdeck", 8888, Some("jozzi")),
                remote("arch-test", "arch-tm", 22, Some("abc")),
            ],
            parsed.hosts
        );
        assert_eq!("abc@arch-tm:22", pick(PLAN_FIXTURE).unwrap().endpoint());
    }

    #[test]
    fn lab_fixture_ignores_identity_file() {
        let chosen = pick(LAB_FIXTURE).unwrap();
        assert_eq!(
            remote("ph-dut", "lima-ph-dut.internal", 22, Some("root")),
            chosen
        );
        assert_eq!("root@lima-ph-dut.internal:22", chosen.endpoint());
    }

    #[test]
    fn single_host_without_default_is_used() {
        let content = "\
Host dut
  Hostname 192.0.2.10
  User root
";
        let chosen = pick(content).unwrap();
        assert_eq!(remote("dut", "192.0.2.10", 22, Some("root")), chosen);
        assert_eq!("root@192.0.2.10:22", chosen.endpoint());
    }

    #[test]
    fn port_defaults_to_22_when_unset() {
        let content = "\
Host dut
 Hostname box
";
        let chosen = pick(content).unwrap();
        assert_eq!(22, chosen.port);
        assert_eq!(None, chosen.user);
        assert_eq!("box:22", chosen.endpoint());
    }

    #[test]
    fn multiple_hosts_without_default_are_refused() {
        let content = "\
Host a
  Hostname one
Host b
  Hostname two
";
        assert_eq!(Err(RemoteRefusal::NoDefault { count: 2 }), pick(content));
    }

    #[test]
    fn missing_default_host_is_refused() {
        let content = "\
#kw-default=missing
Host dut
  Hostname box
";
        assert_eq!(
            Err(RemoteRefusal::DefaultNotFound {
                name: "missing".to_string()
            }),
            pick(content)
        );
    }

    #[test]
    fn empty_file_is_no_remotes() {
        assert_eq!(Err(RemoteRefusal::NoRemotesConfigured), pick(""));
        assert_eq!(
            Err(RemoteRefusal::NoRemotesConfigured),
            pick("# just a comment\n")
        );
    }

    #[test]
    fn reordered_fields_and_comments_inside_a_stanza_are_tolerated() {
        // kw used to assume Hostname/Port/User on the three lines after
        // Host; that broke on comments and reordering. We key-match.
        let content = "\
#kw-default=origin
Host origin
# Port 33
  User root
  Port 2222
  Hostname 192.0.2.1
Host other
  Hostname 192.0.2.2
  Port 22
  User other
";
        let chosen = pick(content).unwrap();
        assert_eq!(remote("origin", "192.0.2.1", 2222, Some("root")), chosen);
    }

    #[test]
    fn keys_are_matched_case_insensitively() {
        let content = "\
Host dut
  hostname Box
  PORT 2222
  user Root
";
        assert_eq!(
            remote("dut", "Box", 2222, Some("Root")),
            pick(content).unwrap()
        );
    }

    #[test]
    fn last_kw_default_and_duplicate_host_win() {
        let content = "\
#kw-default=first
Host dut
  Hostname old
#kw-default=dut
Host dut
  Hostname new
  Port 2222
";
        let parsed = parse_remote_config(content);
        assert_eq!(Some("dut"), parsed.default.as_deref());
        assert_eq!(vec![remote("dut", "new", 2222, None)], parsed.hosts);
    }

    #[test]
    fn incomplete_hosts_are_dropped() {
        let no_hostname = "\
Host dut
  Port 22
  User root
";
        assert_eq!(Err(RemoteRefusal::NoRemotesConfigured), pick(no_hostname));

        let bad_port = "\
Host dut
  Hostname box
  Port not-a-port
";
        assert_eq!(Err(RemoteRefusal::NoRemotesConfigured), pick(bad_port));

        let zero_port = "\
Host dut
  Hostname box
  Port 0
";
        assert_eq!(Err(RemoteRefusal::NoRemotesConfigured), pick(zero_port));
    }

    #[test]
    fn default_pointing_at_an_incomplete_host_is_not_found() {
        let content = "\
#kw-default=broken
Host broken
  Port 22
Host ok
  Hostname box
";
        assert_eq!(
            Err(RemoteRefusal::DefaultNotFound {
                name: "broken".to_string()
            }),
            pick(content)
        );
    }

    #[test]
    fn last_line_without_newline_still_counts() {
        let content = "Host dut\n  Hostname box\n  User root";
        assert_eq!(
            remote("dut", "box", 22, Some("root")),
            pick(content).unwrap()
        );
    }

    #[test]
    fn host_name_is_the_first_token_like_kw() {
        // kw's `cut -d ' ' -f2` keeps only the first word after Host.
        let content = "\
Host dut extra
  Hostname box
";
        assert_eq!("dut", pick(content).unwrap().name);
    }

    #[test]
    fn refusal_messages_are_actionable() {
        assert!(RemoteRefusal::NoRemotesConfigured
            .message()
            .contains("kw remote --set-default"));
        assert!(RemoteRefusal::NoDefault { count: 2 }
            .message()
            .contains("2 remotes"));
        assert!(RemoteRefusal::DefaultNotFound {
            name: "gone".to_string()
        }
        .message()
        .contains("gone"));
    }

struct FakeFs {
    files: HashMap<String, String>,
    unreadable: Vec<String>,
}

impl FileSystemTrait for FakeFs {
    fn is_file(&self, path: &str) -> bool {
        self.files.contains_key(path) || self.unreadable.iter().any(|p| p == path)
    }

    fn is_dir(&self, _path: &str) -> bool {
        false
    }

    fn path_exists(&self, path: &str) -> bool {
        self.is_file(path)
    }

    fn read_to_string(&self, path: &str) -> Option<String> {
        self.files.get(path).cloned()
    }

    fn read_dir(&self, _path: &str) -> Option<Vec<String>> {
        None
    }

    fn modified(&self, _path: &str) -> Option<u64> {
        None
    }

    fn create_dir_all(&self, _path: &str) -> Result<(), String> {
        Ok(())
    }

    fn write(&self, _path: &str, _contents: &[u8]) -> Result<(), String> {
        Err("read-only".to_string())
    }

    fn rename(&self, _from: &str, _to: &str) -> Result<(), String> {
        Err("read-only".to_string())
    }
}

fn fs_with_files(files: &[(&str, &str)]) -> FakeFs {
    FakeFs {
        files: files
            .iter()
            .map(|(path, content)| (path.to_string(), content.to_string()))
            .collect(),
        unreadable: Vec::new(),
    }
}

struct FakeEnv {
    xdg: Option<String>,
    home: Option<String>,
}

impl EnvTrait for FakeEnv {
    fn var(&self, key: &str) -> Option<String> {
        match key {
            "XDG_CONFIG_HOME" => self.xdg.clone(),
            "HOME" => self.home.clone(),
            _ => None,
        }
    }

    fn which(&self, _program: &str) -> bool {
        false
    }
}

fn env_with(xdg: Option<&str>, home: Option<&str>) -> FakeEnv {
    FakeEnv {
        xdg: xdg.map(str::to_string),
        home: home.map(str::to_string),
    }
}

    #[test]
    fn resolve_prefers_the_tree_remote_config() {
        let fs = fs_with_files(&[
            ("/home/user/linux/.kw/remote.config", LAB_FIXTURE),
            ("/xdg/kw/remote.config", "Host other\n Hostname elsewhere\n"),
        ]);
        let env = env_with(Some("/xdg"), Some("/home/user"));

        let chosen = resolve_deploy_remote(&fs, &env, "/home/user/linux").unwrap();
        assert_eq!("ph-dut", chosen.name);
    }

    #[test]
    fn resolve_falls_back_to_xdg_config_when_the_tree_has_none() {
        let fs = fs_with_files(&[(
            "/xdg/kw/remote.config",
            "Host dut\n Hostname box\n User root\n",
        )]);
        let env = env_with(Some("/xdg"), Some("/home/user"));

        let chosen = resolve_deploy_remote(&fs, &env, "/home/user/linux").unwrap();
        assert_eq!("root@box:22", chosen.endpoint());
    }

    #[test]
    fn resolve_treats_empty_xdg_config_home_as_unset() {
        let fs = fs_with_files(&[(
            "/home/user/.config/kw/remote.config",
            "Host dut\n Hostname box\n",
        )]);
        let env = env_with(Some(""), Some("/home/user"));

        let chosen = resolve_deploy_remote(&fs, &env, "/kernel").unwrap();
        assert_eq!("box:22", chosen.endpoint());
    }

    #[test]
    fn resolve_with_no_files_is_no_remotes() {
        let fs = fs_with_files(&[]);
        let env = env_with(Some("/xdg"), Some("/home/user"));

        assert_eq!(
            Err(RemoteRefusal::NoRemotesConfigured),
            resolve_deploy_remote(&fs, &env, "/kernel")
        );
    }

    #[test]
    fn local_file_does_not_fall_through_when_empty() {
        // A present local file is the tree's config even if it names no
        // hosts: guessing the home copy would deploy somewhere else.
        let fs = fs_with_files(&[
            ("/kernel/.kw/remote.config", "# nothing yet\n"),
            ("/xdg/kw/remote.config", "Host dut\n Hostname box\n"),
        ]);
        let env = env_with(Some("/xdg"), Some("/home/user"));

        assert_eq!(
            Err(RemoteRefusal::NoRemotesConfigured),
            resolve_deploy_remote(&fs, &env, "/kernel")
        );
    }

#[test]
fn unreadable_local_file_does_not_fall_through() {
    let fs = FakeFs {
        files: HashMap::new(),
        unreadable: vec!["/kernel/.kw/remote.config".to_string()],
    };
    let env = env_with(Some("/xdg"), Some("/home/user"));

    assert_eq!(
        Err(RemoteRefusal::NoRemotesConfigured),
        resolve_deploy_remote(&fs, &env, "/kernel")
    );
}

    #[test]
    fn resolve_without_home_or_xdg_and_no_local_file_is_no_remotes() {
        let fs = fs_with_files(&[]);
        let env = env_with(None, None);

        assert_eq!(
            Err(RemoteRefusal::NoRemotesConfigured),
            resolve_deploy_remote(&fs, &env, "/kernel")
        );
    }
