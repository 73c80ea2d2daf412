use enclave::error::Error;
use enclave::factory::create_tamper_evident;
use enclave::integrity::{sidecar_path, FileCall, FileReply, TamperEvidentHandle, VerifyOutcome};
use enclave::secret::SecretBytes;
use enclave::types::{Host, Platform};

const HOST: Host = Host {
    platform: Platform::Linux,
    wsl: false,
    touch_id: false,
    signed: true,
};

/// A file, its sidecar and its trust anchor.
#[derive(Default)]
struct Disk {
    file: Option<Vec<u8>>,
    sidecar: Option<String>,
    anchor: Option<Vec<u8>>,
}

impl Disk {
    fn look(&self, call: FileCall) -> FileReply {
        match call {
            FileCall::PathExists => FileReply::Found(self.file.is_some()),
            FileCall::SidecarExists => FileReply::Found(self.sidecar.is_some()),
            FileCall::ReadFile => FileReply::Bytes(self.file.clone().unwrap()),
            FileCall::LoadAnchor => FileReply::Anchor(self.anchor.clone()),
            _ => FileReply::Done,
        }
    }

    fn write(&mut self, handle: &TamperEvidentHandle, content: &[u8]) {
        let mut op = handle.write(content);
        loop {
            match op.call() {
                FileCall::WriteFile => self.file = Some(content.to_vec()),
                FileCall::WriteSidecar => self.sidecar = op.sidecar(),
                FileCall::StoreAnchor => self.anchor = op.anchor().map(<[u8]>::to_vec),
                _ => panic!(),
            }
            if let Some(result) = op.advance(FileReply::Done) {
                return result.unwrap();
            }
        }
    }

    fn verify(&self, handle: &TamperEvidentHandle) -> VerifyOutcome {
        let mut op = handle.verify();
        loop {
            let reply = self.look(op.call());
            if let Some(result) = op.advance(reply) {
                return result.unwrap();
            }
        }
    }

    fn read(&self, handle: &TamperEvidentHandle) -> Result<Vec<u8>, Error> {
        let mut op = handle.read("/some/file");
        loop {
            let reply = self.look(op.call());
            if let Some(result) = op.advance(reply) {
                return result;
            }
        }
    }

    fn migrate(&mut self, handle: &TamperEvidentHandle) -> Result<(), Error> {
        let mut op = handle.migrate("/some/file");
        loop {
            match op.call() {
                FileCall::WriteSidecar => self.sidecar = Some(op.sidecar()),
                FileCall::StoreAnchor => self.anchor = Some(op.anchor().to_vec()),
                _ => {}
            }
            if let Some(result) = op.advance(handle, self.look(op.call())) {
                return result;
            }
        }
    }

    fn remove(&mut self, handle: &TamperEvidentHandle) {
        let mut op = handle.remove_integrity_data();
        loop {
            let reply = self.look(op.call());
            match op.call() {
                FileCall::RemoveSidecar => self.sidecar = None,
                FileCall::DeleteAnchor => self.anchor = None,
                _ => {}
            }
            if let Some(result) = op.advance(reply) {
                return result.unwrap();
            }
        }
    }
}

fn keyed() -> TamperEvidentHandle {
    create_tamper_evident("app", &HOST, Some(SecretBytes::new(b"key".to_vec()))).unwrap_or_else(|_| panic!())
}

fn keyless() -> TamperEvidentHandle {
    create_tamper_evident("app", &HOST, None).unwrap_or_else(|_| panic!())
}

#[test]
fn write_records_a_known_tag() {
    let mut disk = Disk::default();
    disk.write(&keyed(), b"The quick brown fox jumps over the lazy dog");
    assert_eq!(
        disk.sidecar.as_deref(),
        Some("f7bc83f430538424b13298e6aa6fb143ef4d59a14946175997479dbc2d1a3cd8")
    );
    assert_eq!(disk.verify(&keyed()), VerifyOutcome::Match);
    assert_eq!(
        disk.read(&keyed()).unwrap(),
        b"The quick brown fox jumps over the lazy dog"
    );
}

#[test]
fn changes_are_detected() {
    let handle = keyed();
    let mut disk = Disk::default();
    disk.write(&handle, b"content");
    disk.file = Some(b"Content".to_vec());
    assert_eq!(disk.verify(&handle), VerifyOutcome::Tamper);
    assert!(matches!(
        disk.read(&handle),
        Err(Error::TamperDetected { path }) if path == "/some/file"
    ));
    disk.write(&handle, b"new content");
    assert_eq!(disk.verify(&handle), VerifyOutcome::Match);
    disk.anchor = Some(vec![0xf7]);
    assert_eq!(disk.verify(&handle), VerifyOutcome::Tamper);
}

#[test]
fn the_sidecar_is_not_what_is_verified() {
    let handle = keyed();
    let mut disk = Disk::default();
    disk.write(&handle, b"content");
    disk.sidecar = None;
    assert_eq!(disk.verify(&handle), VerifyOutcome::Match);
    disk.file = Some(b"changed".to_vec());
    assert_eq!(disk.verify(&handle), VerifyOutcome::Tamper);
    assert!(matches!(disk.read(&handle), Err(Error::TamperDetected { .. })));
    disk.sidecar = Some("whatever".to_string());
    assert_eq!(disk.verify(&handle), VerifyOutcome::Tamper);
}

#[test]
fn an_unreachable_store_leaves_the_file_unverified() {
    let handle = keyed();
    let mut op = handle.verify();
    assert!(op.advance(FileReply::Found(true)).is_none());
    assert_eq!(op.call(), FileCall::LoadAnchor);
    let outcome = op.advance(FileReply::Failed(Error::NotAvailable));
    assert!(matches!(outcome, Some(Ok(VerifyOutcome::StoreUnavailable))));
}

#[test]
fn the_content_that_was_verified_is_given() {
    let handle = keyed();
    let mut disk = Disk::default();
    disk.write(&handle, b"content");
    let mut op = handle.read("/some/file");
    assert!(op.advance(FileReply::Found(true)).is_none());
    assert!(op.advance(FileReply::Found(true)).is_none());
    assert!(op.advance(FileReply::Anchor(disk.anchor)).is_none());
    assert_eq!(op.call(), FileCall::ReadFile);
    let result = op.advance(FileReply::Bytes(b"content".to_vec()));
    assert_eq!(result.unwrap().unwrap(), b"content");
}

#[test]
fn missing_files() {
    let handle = keyed();
    let mut disk = Disk::default();
    assert_eq!(disk.verify(&handle), VerifyOutcome::NotFound);
    assert_eq!(disk.verify(&keyless()), VerifyOutcome::NotFound);
    assert!(matches!(
        disk.read(&handle),
        Err(Error::KeyNotFound { label }) if label == "/some/file"
    ));
    assert!(matches!(disk.migrate(&handle), Err(Error::KeyNotFound { .. })));
}

#[test]
fn migration_and_removal() {
    let handle = keyed();
    let mut disk = Disk::default();
    disk.file = Some(b"old".to_vec());
    assert_eq!(disk.verify(&handle), VerifyOutcome::Legacy);
    assert_eq!(disk.read(&handle).unwrap(), b"old");
    disk.migrate(&handle).unwrap();
    assert_eq!(disk.verify(&handle), VerifyOutcome::Match);
    let (tag, anchor) = (disk.sidecar.clone(), disk.anchor.clone());
    disk.migrate(&handle).unwrap();
    assert_eq!(disk.sidecar, tag);
    assert_eq!(disk.anchor, anchor);
    disk.remove(&handle);
    assert_eq!(disk.verify(&handle), VerifyOutcome::Legacy);
    disk.remove(&handle);
    assert_eq!(disk.file.as_deref(), Some(b"old".as_slice()));
}

#[test]
fn without_a_key_nothing_is_verified() {
    let handle = keyless();
    let mut disk = Disk::default();
    disk.write(&handle, b"content");
    assert!(disk.sidecar.is_none());
    assert_eq!(disk.verify(&handle), VerifyOutcome::StoreUnavailable);
    assert_eq!(disk.read(&handle).unwrap(), b"content");
    disk.migrate(&handle).unwrap();
    assert!(disk.sidecar.is_none());
    assert!(disk.anchor.is_none());
    assert_eq!(
        handle.verify_content(b"content", b"whatever"),
        VerifyOutcome::StoreUnavailable
    );
}

#[test]
fn file_failures_are_passed_on() {
    let handle = keyed();
    let failed = || FileReply::Failed(Error::Io("no space".to_string()));
    let mut op = handle.write(b"content");
    assert!(matches!(op.advance(failed()), Some(Err(Error::Io(_)))));
    let mut op = handle.verify();
    assert!(op.advance(FileReply::Found(true)).is_none());
    assert!(op.advance(FileReply::Anchor(Some(vec![1]))).is_none());
    assert!(matches!(op.advance(failed()), Some(Err(Error::Io(_)))));
}

#[test]
fn handle_descriptions() {
    assert_eq!(
        keyed().debug_text(),
        "TamperEvidentHandle { app_name: \"app\", hmac_key_loaded: true }"
    );
    let odd = create_tamper_evident("a\"b\n", &HOST, None).unwrap_or_else(|_| panic!());
    assert_eq!(
        odd.debug_text(),
        "TamperEvidentHandle { app_name: \"a\\\"b\\n\", hmac_key_loaded: false }"
    );
}

#[test]
fn sidecar_names() {
    assert_eq!(sidecar_path("/a/b.json"), "/a/b.json.hmac");
}

#[test]
fn handles_use_the_effective_name() {
    let unsigned = Host { signed: false, ..HOST };
    let handle = create_tamper_evident("app", &unsigned, None).unwrap_or_else(|_| panic!());
    assert_eq!(handle.app_name(), "app-unsigned");
    assert_eq!(keyed().app_name(), "app");
}
