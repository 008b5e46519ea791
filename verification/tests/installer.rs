use std::path::PathBuf;
use upm::errors::PackageError;
use upm::installer::{files_listing, next_in_batch, BatchStep};
use upm::package_manager::{require_config, PackageManagerConfig};

#[test]
fn batch_handles_items_in_order() {
    match next_in_batch::<String>(3, 0, Ok(())) {
        Ok(BatchStep::Handle(i)) => assert_eq!(i, 0),
        _ => panic!("expected the first item"),
    }
    match next_in_batch::<String>(3, 2, Ok(())) {
        Ok(BatchStep::Handle(i)) => assert_eq!(i, 2),
        _ => panic!("expected the last item"),
    }
    assert!(matches!(next_in_batch::<String>(3, 3, Ok(())), Ok(BatchStep::Finished)));
    assert!(matches!(next_in_batch::<String>(0, 0, Ok(())), Ok(BatchStep::Finished)));
}

#[test]
fn batch_stops_at_first_failure() {
    match next_in_batch(3, 1, Err("disk full".to_string())) {
        Err(e) => assert_eq!(e, "disk full"),
        Ok(_) => panic!("a failure ends the run"),
    }
}

#[test]
fn empty_listing_is_none() {
    assert_eq!(files_listing(Vec::<PathBuf>::new()), None);
    let files = vec![PathBuf::from("/usr/bin/vim")];
    assert_eq!(files_listing(files.clone()), Some(files));
}

#[test]
fn missing_configuration_is_refused() {
    match require_config(None) {
        Err(PackageError::ConfigError(m)) => assert_eq!(m, "Configuration not initialized"),
        other => panic!("unexpected {:?}", other.err()),
    }
    let config = PackageManagerConfig {
        temp_dir: PathBuf::from("/tmp/upm"),
        cache_dir: PathBuf::from("/var/cache/upm"),
        database_dir: PathBuf::from("/var/lib/upm"),
    };
    let got = require_config(Some(&config)).unwrap();
    assert_eq!(got.temp_dir, PathBuf::from("/tmp/upm"));
}
