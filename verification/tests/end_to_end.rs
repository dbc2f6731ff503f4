use checkrs::config::{Config, Opt};
use checkrs::generate::{files_to_read, generate};
use checkrs::verify::{Action, Event, Verifier};

fn options(check: bool, files: &[&str]) -> Opt {
    Opt {
        check,
        ignore_missing: false,
        quiet: false,
        strict: false,
        warn: false,
        input_files: files.iter().map(|f| f.to_string()).collect(),
    }
}

fn read_from(disk: &[(&str, &[u8])], path: &str) -> Result<Vec<u8>, String> {
    for (name, content) in disk {
        if *name == path {
            return Ok(content.to_vec());
        }
    }
    Err("No such file or directory (os error 2)".to_string())
}

fn read_text_from(disk: &[(&str, &[u8])], path: &str) -> Result<String, String> {
    read_from(disk, path).map(|bytes| String::from_utf8(bytes).expect("text"))
}

fn run_verification(config: Config, disk: &[(&str, &[u8])]) -> Verifier {
    let mut verifier = Verifier::new(config);
    let mut action = verifier.verify(&Event::Start);
    loop {
        let event = match &action {
            Action::ReadManifest(path) => Event::Manifest(read_text_from(disk, path)),
            Action::ReadTarget(path) => Event::Target(read_from(disk, path)),
            Action::Finished => break,
        };
        action = verifier.verify(&event);
    }
    verifier
}

#[test]
fn generate_then_verify_after_one_file_changed() {
    let hello = "2cf24dba5fb0a30e26e83b2ac5b9e29e1b161e5c1fa7425e73043362938b9824";
    let world = "486ea46224d1bb4fb680f34f7c9ad96a8f24ec88be73ea8e5a6c65260e9cb8a7";
    let before: [(&str, &[u8]); 2] = [("a.txt", b"hello"), ("b.txt", b"world")];

    let config = Config::from_opts(&options(false, &["a.txt", "b.txt"]));
    let reads: Vec<Result<Vec<u8>, String>> =
        files_to_read(&config).iter().map(|path| read_from(&before, path)).collect();
    let generated = generate(&config, &reads);
    assert_eq!(generated.output, vec![format!("{}  a.txt", hello), format!("{}  b.txt", world)]);
    assert!(generated.errors.is_empty());

    let mut manifest = String::new();
    for line in &generated.output {
        manifest.push_str(line);
        manifest.push('\n');
    }
    let after: [(&str, &[u8]); 3] =
        [("a.txt", b"hello"), ("b.txt", b"worlds"), ("sums.txt", manifest.as_bytes())];

    let verifier =
        run_verification(Config::from_opts(&options(true, &["sums.txt"])), &after);
    assert_eq!(
        verifier.report().output,
        vec!["OK: a.txt".to_string(), "WARNING: 1 computed checksum did NOT match".to_string()]
    );
    assert_eq!(verifier.report().errors, vec!["FAILED: b.txt".to_string()]);
    assert_eq!(verifier.mismatches(), 1);
    assert_eq!(verifier.status_code(), 1);
}

#[test]
fn generate_then_verify_with_nothing_changed() {
    let disk: [(&str, &[u8]); 3] = [("a.txt", b"hello"), ("b.txt", b"world"), ("c", b"")];
    let config = Config::from_opts(&options(false, &["a.txt", "b.txt", "c"]));
    let reads: Vec<Result<Vec<u8>, String>> =
        files_to_read(&config).iter().map(|path| read_from(&disk, path)).collect();
    let manifest = generate(&config, &reads).output.join("\n");
    let with_manifest: [(&str, &[u8]); 4] =
        [("a.txt", b"hello"), ("b.txt", b"world"), ("c", b""), ("sums", manifest.as_bytes())];
    let verifier = run_verification(Config::from_opts(&options(true, &["sums"])), &with_manifest);
    assert_eq!(
        verifier.report().output,
        vec!["OK: a.txt".to_string(), "OK: b.txt".to_string(), "OK: c".to_string()]
    );
    assert!(verifier.report().errors.is_empty());
    assert_eq!(verifier.mismatches(), 0);
    assert_eq!(verifier.status_code(), 0);
}

#[test]
fn several_manifests_share_one_count() {
    let hello = "2cf24dba5fb0a30e26e83b2ac5b9e29e1b161e5c1fa7425e73043362938b9824";
    let first = format!("{}  a.txt\nthis line is no record\n\n{}  gone.txt\n", hello, hello);
    let second = format!("{}  b.txt\r\n{}  b.txt\r\n", hello, hello.to_uppercase());
    let disk: [(&str, &[u8]); 4] = [
        ("a.txt", b"hello"),
        ("b.txt", b"changed"),
        ("one.sums", first.as_bytes()),
        ("two.sums", second.as_bytes()),
    ];
    let mut opt = options(true, &["one.sums", "none.sums", "two.sums"]);
    opt.warn = true;
    let verifier = run_verification(Config::from_opts(&opt), &disk);
    assert_eq!(
        verifier.report().output,
        vec!["OK: a.txt".to_string(), "WARNING: 2 computed checksums did NOT match".to_string()]
    );
    assert_eq!(
        verifier.report().errors,
        vec![
            "one.sums: Invalid checksum format. Affected line had: this line is no record"
                .to_string(),
            "gone.txt: No such file or directory (os error 2)".to_string(),
            "none.sums: No such file or directory (os error 2)".to_string(),
            "FAILED: b.txt".to_string(),
            "FAILED: b.txt".to_string(),
        ]
    );
    assert_eq!(verifier.mismatches(), 2);
    assert_eq!(verifier.malformed_lines(), 1);
    assert_eq!(verifier.status_code(), 1);
}
