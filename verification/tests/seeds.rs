use blackhole_linux::cloud_init::{
    generate_instance_id, hash_password_sha512, iso_tool_failed, pick_iso_tool, SeedSpec,
};

/// A hash in the shape that the tools print.
const HASH: &str = "$6$saltsaltsaltsalt$abcdefghijklmnopqrstuvwxyzABCDEFGHIJKLMNOPQRSTUVWXYZ0123456789./abcdefghijklmnopqrstuv";

fn rendered(spec: &SeedSpec) -> String {
    spec.render_user_data(Some(HASH), None).unwrap()
}

fn assert_looks_like_sha512crypt(passwd_line: &str) {
    let h = passwd_line
        .trim_start()
        .strip_prefix("passwd: '")
        .and_then(|s| s.strip_suffix('\''))
        .unwrap_or_else(|| panic!("not a `passwd: '...'` line: {:?}", passwd_line));
    assert!(h.starts_with("$6$"), "not sha512crypt: {:?}", h);
    assert!(h.len() >= 90, "hash too short: {:?}", h);
}

fn passwd_line(ud: &str) -> &str {
    ud.lines()
        .find(|l| l.trim_start().starts_with("passwd: "))
        .expect("user-data should have a passwd line")
}

#[test]
fn user_data_with_default_password_when_no_keys() {
    let spec = SeedSpec::default();
    assert_eq!(spec.password_to_hash(), Some("bhx"));
    let ud = rendered(&spec);
    assert!(ud.starts_with("#cloud-config\n"));
    assert!(ud.contains("name: bhx"));
    assert_looks_like_sha512crypt(passwd_line(&ud));
    assert!(ud.contains("ssh_pwauth: true"));
    assert!(!ud.contains("ssh_authorized_keys"));
    assert!(!ud.contains("plain_text_passwd"));
    assert!(!ud.contains("chpasswd"));
}

#[test]
fn user_data_locks_password_when_keys_supplied_without_password() {
    let spec = SeedSpec {
        ssh_keys: vec!["ssh-ed25519 AAAA test@host".into()],
        ..SeedSpec::default()
    };
    assert_eq!(spec.password_to_hash(), None);
    let ud = rendered(&spec);
    assert!(ud.contains("ssh_authorized_keys:"));
    assert!(ud.contains("ssh-ed25519 AAAA test@host"));
    assert!(ud.contains("lock_passwd: true"));
    assert!(!ud.contains("passwd: '"));
    assert!(!ud.contains("chpasswd"));
    assert!(!ud.contains("plain_text_passwd"));
    assert!(!ud.contains("ssh_pwauth: true"));
}

#[test]
fn user_data_uses_explicit_password_with_keys() {
    let spec = SeedSpec {
        password: Some("hunter2".into()),
        ssh_keys: vec!["ssh-ed25519 AAAA".into()],
        ..SeedSpec::default()
    };
    assert_eq!(spec.password_to_hash(), Some("hunter2"));
    let ud = rendered(&spec);
    assert_looks_like_sha512crypt(passwd_line(&ud));
    assert!(!ud.contains("hunter2"));
    assert!(ud.contains("ssh-ed25519 AAAA"));
}

#[test]
fn user_data_uses_custom_user() {
    let spec = SeedSpec {
        user: Some("operator".into()),
        ..SeedSpec::default()
    };
    let ud = rendered(&spec);
    assert!(ud.contains("name: operator"));
    assert!(!ud.contains("name: bhx"));
    assert_eq!(ud.matches("name: operator").count(), 1);
}

#[test]
fn extra_user_data_is_concatenated_verbatim() {
    let spec = SeedSpec {
        extra_user_data: Some("packages:\n  - tmux\n".into()),
        ..SeedSpec::default()
    };
    let ud = rendered(&spec);
    assert!(ud.contains("packages:"));
    assert!(ud.contains("- tmux"));
    assert!(ud.ends_with("\n\npackages:\n  - tmux\n"));
}

#[test]
fn meta_data_uses_default_hostname_and_random_instance_id() {
    let spec = SeedSpec::default();
    let md = spec.render_meta_data(&generate_instance_id(77, 1_700_000_000_000_000_000));
    assert!(md.contains("local-hostname: bhx-guest"));
    assert!(md.contains("instance-id: iid-bhx-"));
}

#[test]
fn meta_data_uses_explicit_instance_id() {
    let spec = SeedSpec {
        instance_id: Some("v42".into()),
        hostname: Some("worker-3".into()),
        ..SeedSpec::default()
    };
    let md = spec.render_meta_data("ignored");
    assert!(md.contains("instance-id: v42"));
    assert!(md.contains("local-hostname: worker-3"));
}

fn strip_cloud_config_header(ud: &str) -> &str {
    ud.strip_prefix("#cloud-config\n").unwrap_or(ud)
}

#[test]
fn user_data_with_hostile_password_is_valid_yaml() {
    for hostile in ["hunter\"two", "back\\slash", "quo'te", "with\nnewline"] {
        let spec = SeedSpec {
            password: Some(hostile.into()),
            ..SeedSpec::default()
        };
        let ud = rendered(&spec);
        assert!(!ud.contains(hostile), "plaintext leaked: {:?}", hostile);
        let parsed: std::result::Result<serde_yaml_ng::Value, _> =
            serde_yaml_ng::from_str(strip_cloud_config_header(&ud));
        parsed.unwrap_or_else(|e| panic!("user-data for {:?} failed YAML parse: {}", hostile, e));
    }
}

#[test]
fn user_data_with_hostile_user_is_valid_yaml() {
    for hostile in ["op-1", "op_one", "op.dot"] {
        let spec = SeedSpec {
            user: Some(hostile.into()),
            ..SeedSpec::default()
        };
        let ud = rendered(&spec);
        let parsed: std::result::Result<serde_yaml_ng::Value, _> =
            serde_yaml_ng::from_str(strip_cloud_config_header(&ud));
        parsed.unwrap_or_else(|e| {
            panic!("user-data for user={:?} failed YAML parse: {}", hostile, e)
        });
    }
}

#[test]
fn a_default_seed_is_spelled_out() {
    assert_eq!(
        SeedSpec::default()
            .render_user_data(Some(" $6$s$h\n"), None)
            .unwrap(),
        "#cloud-config\n\
         ssh_pwauth: true\n\
         users:\n\
         \x20 - name: bhx\n\
         \x20   sudo: ALL=(ALL) NOPASSWD:ALL\n\
         \x20   shell: /bin/bash\n\
         \x20   lock_passwd: false\n\
         \x20   passwd: '$6$s$h'\n\
         bootcmd:\n\
         \x20 - [ sh, -c, 'rm -f /etc/resolv.conf && (\n\
         \x20     echo nameserver 8.8.8.8\n\
         \x20   ) > /etc/resolv.conf' ]\n"
    );
}

#[test]
fn keys_are_trimmed_and_servers_listed() {
    let spec = SeedSpec {
        ssh_keys: vec!["  ssh-ed25519 A \n".into(), "ssh-rsa B".into()],
        nameservers: vec!["1.1.1.1".into(), "9.9.9.9".into()],
        ..SeedSpec::default()
    };
    let ud = spec.render_user_data(None, None).unwrap();
    assert!(ud.contains(
        "    ssh_authorized_keys:\n      - \"ssh-ed25519 A\"\n      - \"ssh-rsa B\"\n"
    ));
    assert!(ud.contains("      echo nameserver 1.1.1.1\n      echo nameserver 9.9.9.9\n"));
    assert!(!ud.contains("8.8.8.8"));
}

#[test]
fn the_second_tool_hashes_where_the_first_cannot() {
    assert_eq!(
        hash_password_sha512(Some("Usage: passwd"), Some("$6$a$b\n")).unwrap(),
        "$6$a$b"
    );
    assert_eq!(hash_password_sha512(None, Some("$6$a$b")).unwrap(), "$6$a$b");
    let err = hash_password_sha512(None, Some("$5$a$b")).unwrap_err();
    assert_eq!(
        err.to_string(),
        "could not hash password: install one of `openssl` (>= 1.1) or \
         `mkpasswd` (Debian/Ubuntu: apt install whois)"
    );
    assert!(SeedSpec::default().render_user_data(None, None).is_err());
}

#[test]
fn an_instance_id_names_who_and_when() {
    assert_eq!(generate_instance_id(0x1f, 0x1_0000_0000_0000_0000_00ff), "iid-bhx-1f-1000000000000000000ff");
}

#[test]
fn the_preferred_tool_packs_a_seed() {
    assert_eq!(pick_iso_tool(&[true, true, true]), Some("xorrisofs"));
    assert_eq!(pick_iso_tool(&[false, true, true]), Some("genisoimage"));
    assert_eq!(pick_iso_tool(&[false, false, true]), Some("mkisofs"));
    assert_eq!(pick_iso_tool(&[false, false, false]), None);

    let spec = SeedSpec::default();
    let plan = spec
        .write_iso(Some(HASH), None, "iid-1", &[false, true, false])
        .unwrap();
    assert_eq!(plan.tool, "genisoimage");
    assert_eq!(plan.options, vec!["-V", "cidata", "-J", "-r", "-o"]);
    assert_eq!(
        plan.meta_data,
        "instance-id: iid-1\nlocal-hostname: bhx-guest\n"
    );
    assert_eq!(plan.user_data, rendered(&spec));
    let err = spec
        .write_iso(Some(HASH), None, "iid-1", &[false, false, false])
        .unwrap_err();
    assert_eq!(
        err.to_string(),
        "no ISO tool found \u{2014} install one of: xorrisofs, genisoimage, mkisofs"
    );
    assert_eq!(
        iso_tool_failed("mkisofs", "exit status: 2").to_string(),
        "mkisofs exited with status exit status: 2"
    );
}
