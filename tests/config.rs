use dsc::common::{
    ensure_api_credentials, matches_tag_filter, parse_tags, select_discourse, MissingCredentials,
    SelectError,
};
use dsc::config::{find_discourse, find_discourse_mut, ssh_target, Config, DiscourseConfig};
use dsc::error::{TargetError, UpdateError};
use dsc::sequencer::{Action, Phase};
use dsc::update::{
    check_update_flags, os_version_from, os_version_primary, update_one, FlagError, OsVersionStep,
    UpdateCommands,
};
use dsc::error::CommandFailed;

fn instance(name: &str, ssh_host: Option<&str>) -> DiscourseConfig {
    DiscourseConfig {
        name: name.to_string(),
        baseurl: format!("https://{}.example.com", name),
        ssh_host: ssh_host.map(|s| s.to_string()),
        ..DiscourseConfig::default()
    }
}

fn sample() -> Config {
    Config {
        discourse: vec![
            instance("alpha", None),
            instance("beta", Some("beta.internal")),
            instance("alpha", Some("second")),
            instance("bad", Some("-oProxyCommand=x")),
        ],
    }
}

#[test]
fn find_discourse_takes_first_match() {
    let config = sample();
    let d = find_discourse(&config, "alpha").unwrap();
    assert_eq!(d.ssh_host, None);
    assert!(find_discourse(&config, "gamma").is_none());
    assert!(find_discourse(&config, "Alpha").is_none());
}

#[test]
fn find_discourse_mut_changes_in_place() {
    let mut config = sample();
    find_discourse_mut(&mut config, "beta").unwrap().fullname = Some("Beta Forum".to_string());
    assert_eq!(config.discourse[1].fullname, Some("Beta Forum".to_string()));
    assert!(find_discourse_mut(&mut config, "zeta").is_none());
}

#[test]
fn ssh_target_prefers_address() {
    let config = sample();
    assert_eq!(ssh_target(&config.discourse[0]), "alpha");
    assert_eq!(ssh_target(&config.discourse[1]), "beta.internal");
}

#[test]
fn select_discourse_needs_a_known_name() {
    let config = sample();
    assert_eq!(select_discourse(&config, Some("beta")).unwrap().name, "beta");
    assert_eq!(select_discourse(&config, None).unwrap_err(), SelectError::NameRequired);
    assert_eq!(
        select_discourse(&config, Some("nope")).unwrap_err(),
        SelectError::UnknownDiscourse
    );
}

#[test]
fn credentials_must_both_be_present() {
    let mut d = instance("a", None);
    assert_eq!(ensure_api_credentials(&d), Err(MissingCredentials));
    d.apikey = Some("key".to_string());
    assert_eq!(ensure_api_credentials(&d), Err(MissingCredentials));
    d.api_username = Some("   ".to_string());
    assert_eq!(ensure_api_credentials(&d), Err(MissingCredentials));
    d.api_username = Some("system".to_string());
    assert_eq!(ensure_api_credentials(&d), Ok(()));
}

#[test]
fn tags_split_on_both_separators() {
    assert_eq!(parse_tags("alpha;gamma"), vec!["alpha", "gamma"]);
    assert_eq!(parse_tags(" a , b;; c ,"), vec!["a", "b", "c"]);
    assert!(parse_tags("").is_empty());
    assert!(parse_tags(" ; , ").is_empty());
}

fn commands() -> UpdateCommands {
    UpdateCommands::with_overrides(None, Some("  rollback now "), None, None, None, None)
}

#[test]
fn update_one_starts_a_fresh_upgrade() {
    let config = sample();
    let (index, target, seq) = update_one(&config, "beta", &commands()).unwrap();
    assert_eq!(index, 1);
    assert_eq!(target, "beta.internal");
    assert_eq!(seq.phase(), Phase::CollectBefore);
    assert_eq!(seq.action(), Action::FetchVersions);
}

#[test]
fn update_one_errors() {
    let config = sample();
    assert!(matches!(
        update_one(&config, "gamma", &commands()),
        Err(UpdateError::UnknownDiscourse)
    ));
    assert!(matches!(
        update_one(&config, "bad", &commands()),
        Err(UpdateError::InvalidTarget(TargetError::LeadingDash))
    ));
}

#[test]
fn command_defaults_and_overrides() {
    let c = commands();
    assert_eq!(
        c.os_update,
        "sudo -n DEBIAN_FRONTEND=noninteractive apt update && sudo -n DEBIAN_FRONTEND=noninteractive apt upgrade -y"
    );
    assert_eq!(c.os_update_rollback, Some("rollback now".to_string()));
    assert_eq!(c.reboot, Some("sudo -n reboot".to_string()));
    assert_eq!(c.app_upgrade, "cd /var/discourse && sudo -n ./launcher rebuild app");
    assert_eq!(c.cleanup, "cd /var/discourse && sudo -n ./launcher cleanup");
    assert_eq!(c.os_version, "lsb_release -d | cut -f2");
    let o = UpdateCommands::with_overrides(
        Some("echo OS packages updated"),
        None,
        Some("echo Server rebooted"),
        Some("echo update-ok"),
        Some("echo Total reclaimed space: 0B"),
        Some("echo Ubuntu 22.04.3 LTS"),
    );
    assert_eq!(o.os_update, "echo OS packages updated");
    assert_eq!(o.os_update_rollback, None);
    assert_eq!(o.reboot, Some("echo Server rebooted".to_string()));
    assert_eq!(o.app_upgrade, "echo update-ok");
}

#[test]
fn os_version_is_trimmed_output() {
    assert_eq!(
        os_version_from(Ok("Ubuntu 22.04.3 LTS\n".to_string())),
        Some("Ubuntu 22.04.3 LTS".to_string())
    );
    assert_eq!(
        os_version_from(Err(CommandFailed { stderr: "no lsb_release".to_string() })),
        None
    );
}

#[test]
fn update_flag_rules() {
    assert_eq!(check_update_flags(false, false, false), Ok(()));
    assert_eq!(check_update_flags(false, true, false), Err(FlagError::ParallelForOne));
    assert_eq!(check_update_flags(false, false, true), Err(FlagError::ParallelForOne));
    assert_eq!(check_update_flags(true, false, true), Err(FlagError::MaxWithoutConcurrent));
    assert_eq!(check_update_flags(true, true, true), Ok(()));
    assert_eq!(check_update_flags(true, false, false), Ok(()));
}

#[test]
fn start_update_checks_the_host() {
    let config = sample();
    let (target, seq) = dsc::update::start_update(&config.discourse[2], &commands()).unwrap();
    assert_eq!(target, "second");
    assert_eq!(seq.phase(), Phase::CollectBefore);
    assert!(matches!(
        dsc::update::start_update(&config.discourse[3], &commands()),
        Err(UpdateError::InvalidTarget(TargetError::LeadingDash))
    ));
}

#[test]
fn tag_filter() {
    let wanted = parse_tags("alpha;gamma");
    assert!(matches_tag_filter(&wanted, &Some(vec!["Alpha".to_string(), "beta".to_string()])));
    assert!(matches_tag_filter(&wanted, &Some(vec!["GAMMA".to_string()])));
    assert!(!matches_tag_filter(&wanted, &Some(vec!["beta".to_string()])));
    assert!(!matches_tag_filter(&wanted, &None));
    assert!(matches_tag_filter(&Vec::new(), &None));
    assert!(!matches_tag_filter(&wanted, &Some(Vec::new())));
}

#[test]
fn os_version_primary_or_fallback() {
    assert_eq!(
        os_version_primary(Ok(" Ubuntu 22.04.3 LTS\n".to_string())),
        OsVersionStep::Done("Ubuntu 22.04.3 LTS".to_string())
    );
    assert_eq!(
        os_version_primary(Err(CommandFailed { stderr: "x".to_string() })),
        OsVersionStep::RunFallback
    );
}
