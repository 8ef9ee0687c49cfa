use fdsum::config::{Args, Config, ConfigError, HashAlgorithm};
use fdsum::stats::SharedStats;
use std::sync::Arc;

fn config(algorithm: HashAlgorithm) -> Config {
    Config {
        path: Some(b"root".to_vec()),
        verbose: false,
        algorithm,
        block_size: 128 * 1024,
        threads: 4,
        verify: None,
        include_file_content: true,
        include_size: true,
        include_mode: true,
        include_uid: true,
        include_gid: true,
        include_ctime: false,
        include_mtime: true,
        include_atime: false,
        stats: Arc::new(SharedStats::new()),
    }
}

fn args() -> Args {
    Args {
        verbose: false,
        path: Some(b"root".to_vec()),
        algorithm: HashAlgorithm::Sha256,
        block_size: 128,
        num_threads: None,
        no_content: false,
        no_size: false,
        no_perms: false,
        no_mode: false,
        no_owner: false,
        no_group: false,
        no_mtime: false,
        atime: false,
        ctime: false,
        flags: None,
        verify: None,
    }
}

#[test]
fn flags_string_of_defaults() {
    assert_eq!(config(HashAlgorithm::Sha256).flags_string(), "v1:sha256:cspugm");
    assert_eq!(config(HashAlgorithm::Blake3).flags_string(), "v1:blake3:cspugm");
}

#[test]
fn flags_string_all_and_none() {
    let mut c = config(HashAlgorithm::Blake3);
    c.include_ctime = true;
    c.include_atime = true;
    assert_eq!(c.flags_string(), "v1:blake3:cspugtma");
    c.include_file_content = false;
    c.include_size = false;
    c.include_mode = false;
    c.include_uid = false;
    c.include_gid = false;
    c.include_ctime = false;
    c.include_mtime = false;
    c.include_atime = false;
    assert_eq!(c.flags_string(), "v1:blake3:");
}

#[test]
fn flags_round_trip_restores_policy() {
    let mut first = config(HashAlgorithm::Blake3);
    first.include_size = false;
    first.include_atime = true;
    let s = first.flags_string();
    let mut other = config(HashAlgorithm::Sha256);
    other.include_file_content = false;
    other.include_ctime = true;
    assert_eq!(other.set_flags_from_string(&s), Ok(()));
    assert_eq!(other.algorithm, HashAlgorithm::Blake3);
    assert!(other.include_file_content);
    assert!(!other.include_size);
    assert!(other.include_mode);
    assert!(other.include_uid);
    assert!(other.include_gid);
    assert!(!other.include_ctime);
    assert!(other.include_mtime);
    assert!(other.include_atime);
    assert_eq!(other.flags_string(), s);
}

#[test]
fn flags_letters_in_any_order() {
    let mut c = config(HashAlgorithm::Sha256);
    assert_eq!(c.set_flags_from_string("v1:blake3:ac"), Ok(()));
    assert_eq!(c.flags_string(), "v1:blake3:ca");
}

#[test]
fn flags_wrong_prefix_refused() {
    let mut c = config(HashAlgorithm::Sha256);
    assert_eq!(c.set_flags_from_string("v2:sha256:c"), Err(ConfigError::FlagsFormat));
    assert_eq!(c.flags_string(), "v1:sha256:cspugm");
}

#[test]
fn flags_wrong_segment_count_refused() {
    let mut c = config(HashAlgorithm::Sha256);
    assert_eq!(c.set_flags_from_string("v1:sha256"), Err(ConfigError::FlagsFormat));
    assert_eq!(c.set_flags_from_string("v1:sha256:c:s"), Err(ConfigError::FlagsFormat));
    assert_eq!(c.set_flags_from_string(""), Err(ConfigError::FlagsFormat));
    assert_eq!(c.flags_string(), "v1:sha256:cspugm");
}

#[test]
fn flags_unknown_algorithm_refused() {
    let mut c = config(HashAlgorithm::Sha256);
    assert_eq!(c.set_flags_from_string("v1:md5:c"), Err(ConfigError::UnknownAlgorithm));
    assert_eq!(c.flags_string(), "v1:sha256:cspugm");
}

#[test]
fn resolve_defaults() {
    let c = Config::from_args_with_cores(args(), 16).unwrap();
    assert_eq!(c.threads, 8);
    assert_eq!(c.block_size, 128 * 1024);
    assert_eq!(c.flags_string(), "v1:sha256:cspugm");
    let c = Config::from_args_with_cores(args(), 3).unwrap();
    assert_eq!(c.threads, 3);
}

#[test]
fn resolve_explicit_threads_and_toggles() {
    let mut a = args();
    a.num_threads = Some(12);
    a.no_perms = true;
    a.ctime = true;
    a.atime = true;
    a.no_mtime = true;
    let c = Config::from_args_with_cores(a, 2).unwrap();
    assert_eq!(c.threads, 12);
    assert_eq!(c.flags_string(), "v1:sha256:csta");
}

#[test]
fn resolve_flags_string_overrides_toggles() {
    let mut a = args();
    a.no_content = true;
    a.flags = Some("v1:blake3:pm".to_string());
    let c = Config::from_args_with_cores(a, 4).unwrap();
    assert_eq!(c.algorithm, HashAlgorithm::Blake3);
    assert_eq!(c.flags_string(), "v1:blake3:pm");
}

#[test]
fn resolve_without_target_fails() {
    let mut a = args();
    a.path = None;
    assert_eq!(Config::from_args_with_cores(a, 4).err(), Some(ConfigError::MissingTarget));
    let mut a = args();
    a.path = None;
    a.verify = Some("-".to_string());
    assert!(Config::from_args_with_cores(a, 4).is_ok());
}

#[test]
fn resolve_bad_flags_fails_first() {
    let mut a = args();
    a.path = None;
    a.flags = Some("v1:sha1:c".to_string());
    assert_eq!(Config::from_args_with_cores(a, 4).err(), Some(ConfigError::UnknownAlgorithm));
}

#[test]
fn resolve_with_machine_cores() {
    let c = Config::try_from_args(args()).unwrap();
    assert!(c.threads <= 8);
}
