use pacman_conf::{
    default_options, parse, parse_sections, resolve_options, Architecture, CleanMethod,
    ConfigError, MirrorList, Options, Section,
};
use std::path::PathBuf;

fn documented_defaults() -> Options {
    Options {
        root_dir: PathBuf::from("/"),
        db_path: PathBuf::from("/var/lib/pacman/"),
        cache_dirs: vec![PathBuf::from("/var/cache/pacman/pkg/")],
        hook_dirs: vec![PathBuf::from("/etc/pacman.d/hooks")],
        gpg_dir: PathBuf::from("/etc/pacman.d/gnupg"),
        log_file: PathBuf::from("/var/log/pacman.log"),
        hold_pkg: vec![],
        ignore_pkg: vec![],
        ignore_group: vec![],
        includes: vec![],
        architecture: Architecture::Auto,
        xfer_command: String::new(),
        no_upgrade: vec![],
        no_extract: vec![],
        clean_method: CleanMethod::KeepInstalled,
        sig_level: "Required DatabaseOptional".to_string(),
        local_file_sig_level: "MD5SUM".to_string(),
        remote_file_sig_level: "MD5SUM".to_string(),
        use_syslog: false,
        color: true,
        no_progress_bar: false,
        check_space: false,
        verbose_pkg_lists: false,
        disable_download_timeout: false,
        parallel_downloads: 5,
        download_user: "nobody".to_string(),
        disable_sandbox: false,
    }
}

fn options_of(text: &str) -> Result<Options, ConfigError> {
    let lists: Vec<MirrorList> = Vec::new();
    parse(text, &lists).map(|c| c.options)
}

fn invalid(field: &str, value: &str, reason: &str) -> ConfigError {
    ConfigError::InvalidValue {
        field: field.to_string(),
        value: value.to_string(),
        reason: reason.to_string(),
    }
}

#[test]
fn default_options_are_the_documented_ones() {
    assert_eq!(default_options(), documented_defaults());
}

#[test]
fn bare_options_section_gives_every_default() {
    let lists: Vec<MirrorList> = Vec::new();
    let config = parse("[options]", &lists).unwrap();
    assert_eq!(config.options, documented_defaults());
    assert!(config.repositories.is_empty());
    assert_eq!(options_of("[options]\n"), Ok(documented_defaults()));
}

#[test]
fn missing_options_section_gives_every_default() {
    assert_eq!(options_of(""), Ok(documented_defaults()));
    assert_eq!(options_of("# nothing here\n"), Ok(documented_defaults()));
}

#[test]
fn unknown_keys_are_passed_over() {
    assert_eq!(
        options_of("[options]\nILoveCandy = yes\nrootdir = /mnt\nUnknown = 1\n"),
        Ok(documented_defaults())
    );
}

#[test]
fn section_name_is_case_sensitive() {
    let lists: Vec<MirrorList> = Vec::new();
    let config = parse("[Options]\nColor = no\n", &lists).unwrap();
    assert_eq!(config.options, documented_defaults());
    assert_eq!(config.repositories.len(), 1);
    assert_eq!(config.repositories[0].name, "Options");
}

#[test]
fn every_scalar_key_is_read() {
    let text = "[options]\n\
        RootDir = /mnt\n\
        DBPath = /mnt/db\n\
        GPGDir = /mnt/gnupg\n\
        LogFile = /mnt/log\n\
        XferCommand = /usr/bin/wget -c -O %o %u\n\
        SigLevel = Never\n\
        LocalFileSigLevel = Optional\n\
        RemoteFileSigLevel = Required\n\
        Architecture = x86_64\n\
        CleanMethod = KeepCurrent\n\
        UseSyslog = yes\n\
        Color = no\n\
        NoProgressBar = yes\n\
        CheckSpace = yes\n\
        VerbosePkgLists = yes\n\
        DisableDownloadTimeout = yes\n\
        ParallelDownloads = 10\n\
        DownloadUser = alpm\n\
        DisableSandbox = yes\n";
    let mut expected = documented_defaults();
    expected.root_dir = PathBuf::from("/mnt");
    expected.db_path = PathBuf::from("/mnt/db");
    expected.gpg_dir = PathBuf::from("/mnt/gnupg");
    expected.log_file = PathBuf::from("/mnt/log");
    expected.xfer_command = "/usr/bin/wget -c -O %o %u".to_string();
    expected.sig_level = "Never".to_string();
    expected.local_file_sig_level = "Optional".to_string();
    expected.remote_file_sig_level = "Required".to_string();
    expected.architecture = Architecture::X86_64;
    expected.clean_method = CleanMethod::KeepCurrent;
    expected.use_syslog = true;
    expected.color = false;
    expected.no_progress_bar = true;
    expected.check_space = true;
    expected.verbose_pkg_lists = true;
    expected.disable_download_timeout = true;
    expected.parallel_downloads = 10;
    expected.download_user = "alpm".to_string();
    expected.disable_sandbox = true;
    assert_eq!(options_of(text), Ok(expected));
}

#[test]
fn every_list_key_takes_all_its_values() {
    let text = "[options]\n\
        CacheDir = /c1\n\
        HookDir = /h1\n\
        HoldPkg = pacman glibc\n\
        IgnorePkg = a\n\
        IgnoreGroup = g\n\
        Include = /etc/pacman.d/extra.conf\n\
        NoUpgrade = etc/passwd\n\
        NoExtract = usr/share/doc/*\n\
        CacheDir = /c2\n\
        HookDir = /h2\n\
        HoldPkg = linux\n\
        IgnorePkg = b\n\
        IgnoreGroup = h\n\
        Include = /etc/pacman.d/more.conf\n\
        NoUpgrade = etc/group\n\
        NoExtract = usr/share/man/*\n";
    let mut expected = documented_defaults();
    expected.cache_dirs = vec![PathBuf::from("/c1"), PathBuf::from("/c2")];
    expected.hook_dirs = vec![PathBuf::from("/h1"), PathBuf::from("/h2")];
    expected.hold_pkg = vec!["pacman glibc".to_string(), "linux".to_string()];
    expected.ignore_pkg = vec!["a".to_string(), "b".to_string()];
    expected.ignore_group = vec!["g".to_string(), "h".to_string()];
    expected.includes =
        vec![PathBuf::from("/etc/pacman.d/extra.conf"), PathBuf::from("/etc/pacman.d/more.conf")];
    expected.no_upgrade = vec!["etc/passwd".to_string(), "etc/group".to_string()];
    expected.no_extract = vec!["usr/share/doc/*".to_string(), "usr/share/man/*".to_string()];
    assert_eq!(options_of(text), Ok(expected));
}

#[test]
fn first_occurrence_of_a_scalar_key_wins() {
    let text = "[options]\nSigLevel = A\nSigLevel = B\nParallelDownloads = 3\nParallelDownloads = 4\nColor = no\nColor = yes\nRootDir = /a\nRootDir = /b\n";
    let options = options_of(text).unwrap();
    assert_eq!(options.sig_level, "A");
    assert_eq!(options.parallel_downloads, 3);
    assert!(!options.color);
    assert_eq!(options.root_dir, PathBuf::from("/a"));
}

#[test]
fn only_the_first_occurrence_is_checked() {
    let options = options_of("[options]\nColor = no\nColor = maybe\n").unwrap();
    assert!(!options.color);
    assert_eq!(
        options_of("[options]\nColor = maybe\nColor = no\n"),
        Err(invalid("Color", "maybe", "Invalid boolean value: maybe"))
    );
}

#[test]
fn every_switch_reads_yes_and_no_in_any_case() {
    let keys = [
        "UseSyslog",
        "Color",
        "NoProgressBar",
        "CheckSpace",
        "VerbosePkgLists",
        "DisableDownloadTimeout",
        "DisableSandbox",
    ];
    for key in keys {
        for (value, expected) in
            [("yes", true), ("Yes", true), ("YES", true), ("no", false), ("No", false), ("NO", false)]
        {
            let options = options_of(&format!("[options]\n{} = {}\n", key, value)).unwrap();
            let got = match key {
                "UseSyslog" => options.use_syslog,
                "Color" => options.color,
                "NoProgressBar" => options.no_progress_bar,
                "CheckSpace" => options.check_space,
                "VerbosePkgLists" => options.verbose_pkg_lists,
                "DisableDownloadTimeout" => options.disable_download_timeout,
                _ => options.disable_sandbox,
            };
            assert_eq!(got, expected, "{} = {}", key, value);
        }
        for value in ["true", "1", "on", ""] {
            assert_eq!(
                options_of(&format!("[options]\n{} = {}\n", key, value)),
                Err(invalid(key, value, &format!("Invalid boolean value: {}", value))),
                "{} = {}",
                key,
                value
            );
        }
    }
}

#[test]
fn typed_settings_fail_with_field_and_text() {
    assert_eq!(
        options_of("[options]\nArchitecture = sparc\n"),
        Err(invalid("Architecture", "sparc", "Invalid architecture: sparc"))
    );
    assert_eq!(
        options_of("[options]\nCleanMethod = KeepNone\n"),
        Err(invalid("CleanMethod", "KeepNone", "Invalid clean method: KeepNone"))
    );
    assert_eq!(
        options_of("[options]\nParallelDownloads = -1\n"),
        Err(invalid(
            "ParallelDownloads",
            "-1",
            "Invalid ParallelDownloads value: invalid digit found in string"
        ))
    );
    assert_eq!(
        options_of("[options]\nParallelDownloads =\n"),
        Err(invalid(
            "ParallelDownloads",
            "",
            "Invalid ParallelDownloads value: cannot parse integer from empty string"
        ))
    );
    assert_eq!(
        options_of("[options]\nParallelDownloads = 4294967296\n"),
        Err(invalid(
            "ParallelDownloads",
            "4294967296",
            "Invalid ParallelDownloads value: number too large to fit in target type"
        ))
    );
}

#[test]
fn the_first_typed_setting_in_reading_order_is_the_error() {
    let text = "[options]\nDisableSandbox = x\nParallelDownloads = y\nColor = z\nCleanMethod = w\nArchitecture = v\n";
    assert_eq!(
        options_of(text),
        Err(invalid("Architecture", "v", "Invalid architecture: v"))
    );
    let text = "[options]\nDisableSandbox = x\nParallelDownloads = y\nColor = z\nCleanMethod = w\n";
    assert_eq!(options_of(text), Err(invalid("CleanMethod", "w", "Invalid clean method: w")));
    let text = "[options]\nDisableSandbox = x\nParallelDownloads = y\nColor = z\n";
    assert_eq!(options_of(text), Err(invalid("Color", "z", "Invalid boolean value: z")));
    let text = "[options]\nDisableSandbox = x\nParallelDownloads = y\n";
    assert_eq!(
        options_of(text),
        Err(invalid(
            "ParallelDownloads",
            "y",
            "Invalid ParallelDownloads value: invalid digit found in string"
        ))
    );
    let text = "[options]\nDisableSandbox = x\n";
    assert_eq!(options_of(text), Err(invalid("DisableSandbox", "x", "Invalid boolean value: x")));
}

#[test]
fn options_resolve_from_a_section() {
    let sections = parse_sections("[options]\nParallelDownloads = +8\nCacheDir = /c\n");
    let options = resolve_options(&sections[0]).unwrap();
    assert_eq!(options.parallel_downloads, 8);
    assert_eq!(options.cache_dirs, vec![PathBuf::from("/c")]);
    let empty = Section { name: "options".to_string(), entries: vec![] };
    assert_eq!(resolve_options(&empty), Ok(documented_defaults()));
}

#[test]
fn options_sections_of_one_name_are_merged() {
    let text = "[options]\nHoldPkg = a\n[core]\nServer = s\n[options]\nHoldPkg = b\nColor = no\n";
    let options = options_of(text).unwrap();
    assert_eq!(options.hold_pkg, vec!["a".to_string(), "b".to_string()]);
    assert!(!options.color);
}
