use std::path::Path;
use upm::backend::{Backend, BackendLoader, BackendRegistry};
use upm::errors::{Error, Result};
use std::path::PathBuf;
use upm::types::{ExtractedPackage, FileEntry, PackageMetadata};

struct Fake {
    name: &'static str,
    formats: Vec<&'static str>,
    suffix: &'static str,
}

impl Backend for Fake {
    fn name(&self) -> &str {
        self.name
    }
    fn supported_formats(&self) -> Vec<String> {
        self.formats.iter().map(|s| s.to_string()).collect()
    }
    fn detect(&self, package_path: &Path) -> bool {
        package_path.to_string_lossy().ends_with(self.suffix)
    }
    fn extract(&self, _package_path: &Path) -> Result<ExtractedPackage> {
        Ok(ExtractedPackage {
            name: self.name.to_string(),
            files: vec![FileEntry { relative_path: PathBuf::from("usr/bin/tool"), permissions: 0o755, owner: 0, group: 0 }],
        })
    }
    fn get_metadata(&self, _package_path: &Path) -> Result<PackageMetadata> {
        Ok(PackageMetadata {
            description: String::new(),
            maintainer: String::new(),
            homepage: None,
            license: None,
        })
    }
    fn validate(&self, _package_path: &Path) -> Result<()> {
        Ok(())
    }
}

fn boxed(name: &'static str, formats: Vec<&'static str>, suffix: &'static str) -> Box<dyn Backend> {
    Box::new(Fake { name, formats, suffix })
}

#[test]
fn registered_backend_is_found_by_name() {
    let mut reg: BackendRegistry = BackendRegistry::new();
    reg.register_backend(boxed("deb", vec!["deb"], ".deb")).unwrap();
    reg.register_backend(boxed("rpm", vec!["rpm", "srpm"], ".rpm")).unwrap();
    assert_eq!(reg.get_backend("rpm").unwrap().name(), "rpm");
    assert!(reg.get_backend("arch").is_none());
    assert_eq!(reg.list_backends(), vec!["deb".to_string(), "rpm".to_string()]);
}

#[test]
fn duplicate_name_is_refused() {
    let mut reg: BackendRegistry = BackendRegistry::new();
    reg.register_backend(boxed("deb", vec!["deb"], ".deb")).unwrap();
    match reg.register_backend(boxed("deb", vec!["udeb"], ".udeb")) {
        Err(Error::ConfigError(m)) => assert_eq!(m, "Backend already registered: deb"),
        other => panic!("unexpected {:?}", other.err()),
    }
    assert_eq!(reg.list_backends().len(), 1);
}

#[test]
fn unregister_forgets_backend() {
    let mut reg: BackendRegistry = BackendRegistry::new();
    reg.register_backend(boxed("deb", vec!["deb"], ".deb")).unwrap();
    reg.register_backend(boxed("rpm", vec!["rpm"], ".rpm")).unwrap();
    reg.unregister_backend("deb").unwrap();
    assert!(reg.get_backend("deb").is_none());
    assert_eq!(reg.list_backends(), vec!["rpm".to_string()]);
    match reg.unregister_backend("deb") {
        Err(Error::ConfigError(m)) => assert_eq!(m, "Backend not found: deb"),
        other => panic!("unexpected {:?}", other.err()),
    }
}

#[test]
fn backend_for_format_is_the_first_listing_it() {
    let mut reg: BackendRegistry = BackendRegistry::new();
    reg.register_backend(boxed("rpm", vec!["rpm", "srpm"], ".rpm")).unwrap();
    reg.register_backend(boxed("alt", vec!["srpm"], ".srpm")).unwrap();
    assert_eq!(reg.get_backend_for_format("srpm").unwrap().name(), "rpm");
    assert!(reg.get_backend_for_format("deb").is_none());
}

#[test]
fn detect_gives_first_that_recognises() {
    let mut reg: BackendRegistry = BackendRegistry::new();
    reg.register_backend(boxed("deb", vec!["deb"], ".deb")).unwrap();
    reg.register_backend(boxed("rpm", vec!["rpm"], ".rpm")).unwrap();
    assert_eq!(reg.detect_backend(Path::new("/tmp/x.rpm")).unwrap().name(), "rpm");
    assert!(reg.detect_backend(Path::new("/tmp/x.zip")).is_none());
}

#[test]
fn get_backend_mut_reaches_the_backend() {
    let mut reg: BackendRegistry = BackendRegistry::new();
    reg.register_backend(boxed("deb", vec!["deb"], ".deb")).unwrap();
    assert!(reg.get_backend_mut("deb").is_some());
    assert!(reg.get_backend_mut("rpm").is_none());
}

#[test]
fn default_methods_of_backend() {
    let b = Fake { name: "deb", formats: vec![], suffix: ".deb" };
    assert_eq!(b.verify_signature(Path::new("a.deb")).unwrap(), true);
    assert!(b.get_provides(Path::new("a.deb")).unwrap().is_empty());
    assert!(!b.supports_delta_updates());
}

#[test]
fn loader_keeps_directory() {
    let _loader = BackendLoader::new(std::path::PathBuf::from("/usr/lib/upm/backends"));
}

#[test]
fn boxed_backend_extracts_through_the_box() {
    let b = boxed("deb", vec!["deb"], ".deb");
    let e = b.extract(Path::new("/tmp/x.deb")).unwrap();
    assert_eq!(e.name, "deb");
    assert_eq!(e.files.len(), 1);
    assert_eq!(e.files[0].relative_path, PathBuf::from("usr/bin/tool"));
    assert_eq!(e.files[0].permissions, 0o755);
}
