//! The configuration model: global options and repositories.

use crate::paths::{path_from, path_of};
use std::path::PathBuf;
use vstd::prelude::*;

verus! {

/// The machine architecture packages are taken for.
#[derive(Debug, Clone, Copy, PartialEq, Eq, Structural)]
pub enum Architecture {
    Auto,
    I686,
    X86_64,
}

/// Which cached packages a clean-up keeps.
#[derive(Debug, Clone, Copy, PartialEq, Eq, Structural)]
pub enum CleanMethod {
    KeepInstalled,
    KeepCurrent,
}

/// What a repository may be used for.
#[derive(Debug, Clone, Copy, PartialEq, Eq, Structural)]
pub enum Usage {
    Sync,
    Search,
    Install,
    Upgrade,
    All,
}

/// The global settings.
#[derive(Debug, PartialEq, Eq)]
pub struct Options {
    pub root_dir: PathBuf,
    pub db_path: PathBuf,
    pub cache_dirs: Vec<PathBuf>,
    pub hook_dirs: Vec<PathBuf>,
    pub gpg_dir: PathBuf,
    pub log_file: PathBuf,
    pub hold_pkg: Vec<String>,
    pub ignore_pkg: Vec<String>,
    pub ignore_group: Vec<String>,
    pub includes: Vec<PathBuf>,
    pub architecture: Architecture,
    pub xfer_command: String,
    pub no_upgrade: Vec<String>,
    pub no_extract: Vec<String>,
    pub clean_method: CleanMethod,
    pub sig_level: String,
    pub local_file_sig_level: String,
    pub remote_file_sig_level: String,
    pub use_syslog: bool,
    pub color: bool,
    pub no_progress_bar: bool,
    pub check_space: bool,
    pub verbose_pkg_lists: bool,
    pub disable_download_timeout: bool,
    pub parallel_downloads: u32,
    pub download_user: String,
    pub disable_sandbox: bool,
}

/// What an `Options` value holds, with every text as a sequence of characters.
pub struct OptionsView {
    pub root_dir: PathBuf,
    pub db_path: PathBuf,
    pub cache_dirs: Seq<PathBuf>,
    pub hook_dirs: Seq<PathBuf>,
    pub gpg_dir: PathBuf,
    pub log_file: PathBuf,
    pub hold_pkg: Seq<Seq<char>>,
    pub ignore_pkg: Seq<Seq<char>>,
    pub ignore_group: Seq<Seq<char>>,
    pub includes: Seq<PathBuf>,
    pub architecture: Architecture,
    pub xfer_command: Seq<char>,
    pub no_upgrade: Seq<Seq<char>>,
    pub no_extract: Seq<Seq<char>>,
    pub clean_method: CleanMethod,
    pub sig_level: Seq<char>,
    pub local_file_sig_level: Seq<char>,
    pub remote_file_sig_level: Seq<char>,
    pub use_syslog: bool,
    pub color: bool,
    pub no_progress_bar: bool,
    pub check_space: bool,
    pub verbose_pkg_lists: bool,
    pub disable_download_timeout: bool,
    pub parallel_downloads: u32,
    pub download_user: Seq<char>,
    pub disable_sandbox: bool,
}

impl View for Options {
    type V = OptionsView;

    open spec fn view(&self) -> OptionsView {
        OptionsView {
            root_dir: self.root_dir,
            db_path: self.db_path,
            cache_dirs: self.cache_dirs@,
            hook_dirs: self.hook_dirs@,
            gpg_dir: self.gpg_dir,
            log_file: self.log_file,
            hold_pkg: self.hold_pkg.deep_view(),
            ignore_pkg: self.ignore_pkg.deep_view(),
            ignore_group: self.ignore_group.deep_view(),
            includes: self.includes@,
            architecture: self.architecture,
            xfer_command: self.xfer_command@,
            no_upgrade: self.no_upgrade.deep_view(),
            no_extract: self.no_extract.deep_view(),
            clean_method: self.clean_method,
            sig_level: self.sig_level@,
            local_file_sig_level: self.local_file_sig_level@,
            remote_file_sig_level: self.remote_file_sig_level@,
            use_syslog: self.use_syslog,
            color: self.color,
            no_progress_bar: self.no_progress_bar,
            check_space: self.check_space,
            verbose_pkg_lists: self.verbose_pkg_lists,
            disable_download_timeout: self.disable_download_timeout,
            parallel_downloads: self.parallel_downloads,
            download_user: self.download_user@,
            disable_sandbox: self.disable_sandbox,
        }
    }
}

/// A package source: one section of the file other than `options`.
#[derive(Debug, PartialEq, Eq)]
pub struct Repository {
    pub name: String,
    pub servers: Vec<String>,
    pub sig_level: String,
    pub usage: Usage,
    pub cache_server: Option<String>,
}

/// What a `Repository` holds, with every text as a sequence of characters.
pub struct RepositoryView {
    pub name: Seq<char>,
    pub servers: Seq<Seq<char>>,
    pub sig_level: Seq<char>,
    pub usage: Usage,
    pub cache_server: Option<Seq<char>>,
}

impl View for Repository {
    type V = RepositoryView;

    open spec fn view(&self) -> RepositoryView {
        RepositoryView {
            name: self.name@,
            servers: self.servers.deep_view(),
            sig_level: self.sig_level@,
            usage: self.usage,
            cache_server: match self.cache_server {
                Some(s) => Some(s@),
                None => None,
            },
        }
    }
}

/// A whole configuration: the global options, and the repositories in the
/// order in which the file first names them.
#[derive(Debug, PartialEq, Eq)]
pub struct Config {
    pub options: Options,
    pub repositories: Vec<Repository>,
}

/// What a `Config` holds.
pub struct ConfigView {
    pub options: OptionsView,
    pub repositories: Seq<RepositoryView>,
}

impl View for Config {
    type V = ConfigView;

    open spec fn view(&self) -> ConfigView {
        ConfigView {
            options: self.options@,
            repositories: self.repositories@.map_values(|r: Repository| r@),
        }
    }
}

/// The signature level of a section that sets none.
pub open spec fn default_sig_level() -> Seq<char> {
    "Required DatabaseOptional"@
}

/// The options of a file that sets none.
pub open spec fn default_options_view() -> OptionsView {
    OptionsView {
        root_dir: path_of("/"@),
        db_path: path_of("/var/lib/pacman/"@),
        cache_dirs: seq![path_of("/var/cache/pacman/pkg/"@)],
        hook_dirs: seq![path_of("/etc/pacman.d/hooks"@)],
        gpg_dir: path_of("/etc/pacman.d/gnupg"@),
        log_file: path_of("/var/log/pacman.log"@),
        hold_pkg: Seq::empty(),
        ignore_pkg: Seq::empty(),
        ignore_group: Seq::empty(),
        includes: Seq::empty(),
        architecture: Architecture::Auto,
        xfer_command: Seq::empty(),
        no_upgrade: Seq::empty(),
        no_extract: Seq::empty(),
        clean_method: CleanMethod::KeepInstalled,
        sig_level: default_sig_level(),
        local_file_sig_level: "MD5SUM"@,
        remote_file_sig_level: "MD5SUM"@,
        use_syslog: false,
        color: true,
        no_progress_bar: false,
        check_space: false,
        verbose_pkg_lists: false,
        disable_download_timeout: false,
        parallel_downloads: 5,
        download_user: "nobody"@,
        disable_sandbox: false,
    }
}

/// The options of a file that sets none.
pub fn default_options() -> (o: Options)
    ensures
        o@ == default_options_view(),
{
    let mut cache_dirs: Vec<PathBuf> = Vec::new();
    cache_dirs.push(path_from("/var/cache/pacman/pkg/"));
    let mut hook_dirs: Vec<PathBuf> = Vec::new();
    hook_dirs.push(path_from("/etc/pacman.d/hooks"));
    let o = Options {
        root_dir: path_from("/"),
        db_path: path_from("/var/lib/pacman/"),
        cache_dirs,
        hook_dirs,
        gpg_dir: path_from("/etc/pacman.d/gnupg"),
        log_file: path_from("/var/log/pacman.log"),
        hold_pkg: Vec::new(),
        ignore_pkg: Vec::new(),
        ignore_group: Vec::new(),
        includes: Vec::new(),
        architecture: Architecture::Auto,
        xfer_command: String::new(),
        no_upgrade: Vec::new(),
        no_extract: Vec::new(),
        clean_method: CleanMethod::KeepInstalled,
        sig_level: "Required DatabaseOptional".to_owned(),
        local_file_sig_level: "MD5SUM".to_owned(),
        remote_file_sig_level: "MD5SUM".to_owned(),
        use_syslog: false,
        color: true,
        no_progress_bar: false,
        check_space: false,
        verbose_pkg_lists: false,
        disable_download_timeout: false,
        parallel_downloads: 5,
        download_user: "nobody".to_owned(),
        disable_sandbox: false,
    };
    proof {
        assert(o.cache_dirs@ == seq![path_of("/var/cache/pacman/pkg/"@)]);
        assert(o.hook_dirs@ == seq![path_of("/etc/pacman.d/hooks"@)]);
        assert(o.hold_pkg.deep_view() == Seq::<Seq<char>>::empty());
        assert(o.ignore_pkg.deep_view() == Seq::<Seq<char>>::empty());
        assert(o.ignore_group.deep_view() == Seq::<Seq<char>>::empty());
        assert(o.no_upgrade.deep_view() == Seq::<Seq<char>>::empty());
        assert(o.no_extract.deep_view() == Seq::<Seq<char>>::empty());
    }
    o
}

} // verus!
