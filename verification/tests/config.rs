use checkrs::config::{Config, Opt};

#[test]
fn a_configuration_takes_over_the_options() {
    let opt = Opt {
        check: true,
        ignore_missing: false,
        quiet: true,
        strict: false,
        warn: true,
        input_files: vec!["b.txt".to_string(), "a.txt".to_string(), "b.txt".to_string()],
    };
    let config = Config::from_opts(&opt);
    assert!(config.check);
    assert!(!config.ignore_missing);
    assert!(config.quiet);
    assert!(!config.strict);
    assert!(config.warn);
    assert_eq!(config.input_files, opt.input_files);
}

#[test]
fn each_flag_is_taken_over_by_itself() {
    for bits in 0u8..32 {
        let opt = Opt {
            check: bits & 1 != 0,
            ignore_missing: bits & 2 != 0,
            quiet: bits & 4 != 0,
            strict: bits & 8 != 0,
            warn: bits & 16 != 0,
            input_files: Vec::new(),
        };
        let config = Config::from_opts(&opt);
        assert_eq!(config.check, opt.check);
        assert_eq!(config.ignore_missing, opt.ignore_missing);
        assert_eq!(config.quiet, opt.quiet);
        assert_eq!(config.strict, opt.strict);
        assert_eq!(config.warn, opt.warn);
        assert!(config.input_files.is_empty());
    }
}

#[test]
fn the_default_configuration_is_empty() {
    let config = Config::default();
    assert_eq!(
        config,
        Config {
            check: false,
            ignore_missing: false,
            quiet: false,
            strict: false,
            warn: false,
            input_files: Vec::new(),
        }
    );
}
