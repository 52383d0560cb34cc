use dsc::error::{CommandFailed, TargetError};
use dsc::ssh::{
    build_ssh_command, command_result, os_update_rollback_cmd, ssh_strict_host_key_checking,
    validate_ssh_target,
};

#[test]
fn target_validation_rejects_empty() {
    assert_eq!(validate_ssh_target(""), Err(TargetError::Empty));
    assert_eq!(validate_ssh_target("   "), Err(TargetError::Whitespace));
}

#[test]
fn target_validation_rejects_leading_dash() {
    assert_eq!(validate_ssh_target("-x"), Err(TargetError::LeadingDash));
    assert_eq!(validate_ssh_target("-oProxyCommand=x"), Err(TargetError::LeadingDash));
    assert_eq!(validate_ssh_target("  -oProxyCommand=x"), Err(TargetError::Whitespace));
}

#[test]
fn target_validation_rejects_whitespace() {
    assert_eq!(validate_ssh_target("host name"), Err(TargetError::Whitespace));
    assert_eq!(validate_ssh_target("host\tname"), Err(TargetError::Whitespace));
}

#[test]
fn target_validation_accepts_host() {
    assert_eq!(validate_ssh_target("forum.example.com"), Ok(()));
    assert_eq!(validate_ssh_target("  forum.example.com\n"), Err(TargetError::Whitespace));
    assert_eq!(validate_ssh_target("forum.example.com "), Err(TargetError::Whitespace));
    assert_eq!(validate_ssh_target("\u{a0}forum"), Err(TargetError::Whitespace));
    assert_eq!(validate_ssh_target("admin@10.0.0.1"), Ok(()));
}

#[test]
fn ssh_arguments_with_policy_and_options() {
    let extra = vec!["-p".to_string(), "2222".to_string()];
    let args = build_ssh_command("forum.example.com", Some("accept-new"), &extra).unwrap();
    assert_eq!(
        args,
        vec![
            "-o",
            "BatchMode=yes",
            "-o",
            "StrictHostKeyChecking=accept-new",
            "-p",
            "2222",
            "--",
            "forum.example.com"
        ]
    );
}

#[test]
fn ssh_arguments_without_policy() {
    let args = build_ssh_command("h", None, &Vec::new()).unwrap();
    assert_eq!(args, vec!["-o", "BatchMode=yes", "--", "h"]);
}

#[test]
fn ssh_arguments_refuse_bad_target() {
    assert_eq!(build_ssh_command("-x", None, &Vec::new()), Err(TargetError::LeadingDash));
}

#[test]
fn host_key_policy_defaults_and_blank() {
    assert_eq!(ssh_strict_host_key_checking(None), Some("accept-new".to_string()));
    assert_eq!(ssh_strict_host_key_checking(Some("  yes ")), Some("yes".to_string()));
    assert_eq!(ssh_strict_host_key_checking(Some("   ")), None);
}

#[test]
fn rollback_command_is_trimmed_or_absent() {
    assert_eq!(os_update_rollback_cmd(None), None);
    assert_eq!(os_update_rollback_cmd(Some("")), None);
    assert_eq!(os_update_rollback_cmd(Some(" \n ")), None);
    assert_eq!(
        os_update_rollback_cmd(Some("  apt-get install -y --allow-downgrades x \n")),
        Some("apt-get install -y --allow-downgrades x".to_string())
    );
}

#[test]
fn finished_command_results() {
    assert_eq!(
        command_result(true, "out".to_string(), "err".to_string()),
        Ok("out".to_string())
    );
    assert_eq!(
        command_result(false, "out".to_string(), "denied".to_string()),
        Err(CommandFailed { stderr: "denied".to_string() })
    );
}

#[test]
fn white_space_matches_std_for_every_char() {
    for code in 0u32..=0x10FFFF {
        if let Some(c) = char::from_u32(code) {
            assert_eq!(dsc::text::char_is_space(c), c.is_whitespace(), "{code:#x}");
        }
    }
}
