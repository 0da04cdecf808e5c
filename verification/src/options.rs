//! The global options: what the settings of the `options` section resolve to.
//!
//! A setting with one value takes the first text given for its key; a setting
//! with a list takes every text given for its key. A key that is not given
//! leaves the default, and a key that is not known is passed over.

use crate::error::{ConfigError, ConfigErrorView};
use crate::model::{
    default_options, default_options_view, Architecture, CleanMethod, Options, OptionsView,
};
use crate::paths::{path_from, path_of, paths_from, paths_of};
use crate::sections::{first_of, lemma_absent_key, values_of, EntryView, Section};
use crate::values::{
    architecture_message, architecture_of, bool_message, bool_of, clean_method_message,
    clean_method_of, number_of, parallel_downloads_message, parse_architecture, parse_bool,
    parse_clean_method, parse_parallel_downloads,
};
use std::path::PathBuf;
use vstd::prelude::*;

verus! {

/// The text of the setting `key`, or `default` where it is not given.
pub open spec fn text_or(e: Seq<EntryView>, key: Seq<char>, default: Seq<char>) -> Seq<char> {
    match first_of(e, key) {
        Some(v) => v,
        None => default,
    }
}

/// The path of the setting `key`, or `default` where it is not given.
pub open spec fn path_or(e: Seq<EntryView>, key: Seq<char>, default: PathBuf) -> PathBuf {
    match first_of(e, key) {
        Some(v) => path_of(v),
        None => default,
    }
}

/// Every text of the setting `key`, or `default` where it is not given.
pub open spec fn texts_or(e: Seq<EntryView>, key: Seq<char>, default: Seq<Seq<char>>) -> Seq<
    Seq<char>,
> {
    if values_of(e, key).len() > 0 {
        values_of(e, key)
    } else {
        default
    }
}

/// Every path of the setting `key`, or `default` where it is not given.
pub open spec fn paths_or(e: Seq<EntryView>, key: Seq<char>, default: Seq<PathBuf>) -> Seq<
    PathBuf,
> {
    if values_of(e, key).len() > 0 {
        paths_of(values_of(e, key))
    } else {
        default
    }
}

/// The switch `key`: what its text spells, or `default` where it is not
/// given.
pub open spec fn flag_or(e: Seq<EntryView>, key: Seq<char>, default: bool) -> bool {
    match first_of(e, key) {
        Some(v) => match bool_of(v) {
            Some(b) => b,
            None => default,
        },
        None => default,
    }
}

/// The architecture: what the text of `Architecture` spells, or `default`
/// where it is not given.
pub open spec fn architecture_or(e: Seq<EntryView>, default: Architecture) -> Architecture {
    match first_of(e, "Architecture"@) {
        Some(v) => match architecture_of(v) {
            Some(a) => a,
            None => default,
        },
        None => default,
    }
}

/// The clean method: what the text of `CleanMethod` spells, or `default`
/// where it is not given.
pub open spec fn clean_method_or(e: Seq<EntryView>, default: CleanMethod) -> CleanMethod {
    match first_of(e, "CleanMethod"@) {
        Some(v) => match clean_method_of(v) {
            Some(m) => m,
            None => default,
        },
        None => default,
    }
}

/// The number of parallel downloads: what the text of `ParallelDownloads`
/// spells, or `default` where it is not given.
pub open spec fn parallel_downloads_or(e: Seq<EntryView>, default: u32) -> u32 {
    match first_of(e, "ParallelDownloads"@) {
        Some(v) => match number_of(v) {
            Ok(n) => n as u32,
            Err(_) => default,
        },
        None => default,
    }
}

/// The error of the switch `key`, where its text spells no truth value.
pub open spec fn flag_fault(e: Seq<EntryView>, key: Seq<char>) -> Option<ConfigErrorView> {
    match first_of(e, key) {
        Some(v) => if bool_of(v) is None {
            Some(ConfigErrorView::InvalidValue { field: key, value: v, reason: bool_message(v) })
        } else {
            None
        },
        None => None,
    }
}

/// The error of `Architecture`, where its text spells none.
pub open spec fn architecture_fault(e: Seq<EntryView>) -> Option<ConfigErrorView> {
    match first_of(e, "Architecture"@) {
        Some(v) => if architecture_of(v) is None {
            Some(
                ConfigErrorView::InvalidValue {
                    field: "Architecture"@,
                    value: v,
                    reason: architecture_message(v),
                },
            )
        } else {
            None
        },
        None => None,
    }
}

/// The error of `CleanMethod`, where its text spells none.
pub open spec fn clean_method_fault(e: Seq<EntryView>) -> Option<ConfigErrorView> {
    match first_of(e, "CleanMethod"@) {
        Some(v) => if clean_method_of(v) is None {
            Some(
                ConfigErrorView::InvalidValue {
                    field: "CleanMethod"@,
                    value: v,
                    reason: clean_method_message(v),
                },
            )
        } else {
            None
        },
        None => None,
    }
}

/// The error of `ParallelDownloads`, where its text spells no number.
pub open spec fn parallel_downloads_fault(e: Seq<EntryView>) -> Option<ConfigErrorView> {
    match first_of(e, "ParallelDownloads"@) {
        Some(v) => match number_of(v) {
            Err(f) => Some(
                ConfigErrorView::InvalidValue {
                    field: "ParallelDownloads"@,
                    value: v,
                    reason: parallel_downloads_message(f),
                },
            ),
            Ok(_) => None,
        },
        None => None,
    }
}

/// The first error among the typed settings, in the order in which they are
/// read: the architecture, the clean method, the switches up to the download
/// timeout, the number of downloads, the sandbox switch.
pub open spec fn options_fault(e: Seq<EntryView>) -> Option<ConfigErrorView> {
    if architecture_fault(e) is Some {
        architecture_fault(e)
    } else if clean_method_fault(e) is Some {
        clean_method_fault(e)
    } else if flag_fault(e, "UseSyslog"@) is Some {
        flag_fault(e, "UseSyslog"@)
    } else if flag_fault(e, "Color"@) is Some {
        flag_fault(e, "Color"@)
    } else if flag_fault(e, "NoProgressBar"@) is Some {
        flag_fault(e, "NoProgressBar"@)
    } else if flag_fault(e, "CheckSpace"@) is Some {
        flag_fault(e, "CheckSpace"@)
    } else if flag_fault(e, "VerbosePkgLists"@) is Some {
        flag_fault(e, "VerbosePkgLists"@)
    } else if flag_fault(e, "DisableDownloadTimeout"@) is Some {
        flag_fault(e, "DisableDownloadTimeout"@)
    } else if parallel_downloads_fault(e) is Some {
        parallel_downloads_fault(e)
    } else {
        flag_fault(e, "DisableSandbox"@)
    }
}

/// The options that the settings `e` resolve to, each default standing where
/// its key is not given.
pub open spec fn options_of(e: Seq<EntryView>) -> OptionsView {
    let d = default_options_view();
    OptionsView {
        root_dir: path_or(e, "RootDir"@, d.root_dir),
        db_path: path_or(e, "DBPath"@, d.db_path),
        cache_dirs: paths_or(e, "CacheDir"@, d.cache_dirs),
        hook_dirs: paths_or(e, "HookDir"@, d.hook_dirs),
        gpg_dir: path_or(e, "GPGDir"@, d.gpg_dir),
        log_file: path_or(e, "LogFile"@, d.log_file),
        hold_pkg: texts_or(e, "HoldPkg"@, d.hold_pkg),
        ignore_pkg: texts_or(e, "IgnorePkg"@, d.ignore_pkg),
        ignore_group: texts_or(e, "IgnoreGroup"@, d.ignore_group),
        includes: paths_or(e, "Include"@, d.includes),
        architecture: architecture_or(e, d.architecture),
        xfer_command: text_or(e, "XferCommand"@, d.xfer_command),
        no_upgrade: texts_or(e, "NoUpgrade"@, d.no_upgrade),
        no_extract: texts_or(e, "NoExtract"@, d.no_extract),
        clean_method: clean_method_or(e, d.clean_method),
        sig_level: text_or(e, "SigLevel"@, d.sig_level),
        local_file_sig_level: text_or(e, "LocalFileSigLevel"@, d.local_file_sig_level),
        remote_file_sig_level: text_or(e, "RemoteFileSigLevel"@, d.remote_file_sig_level),
        use_syslog: flag_or(e, "UseSyslog"@, d.use_syslog),
        color: flag_or(e, "Color"@, d.color),
        no_progress_bar: flag_or(e, "NoProgressBar"@, d.no_progress_bar),
        check_space: flag_or(e, "CheckSpace"@, d.check_space),
        verbose_pkg_lists: flag_or(e, "VerbosePkgLists"@, d.verbose_pkg_lists),
        disable_download_timeout: flag_or(e, "DisableDownloadTimeout"@, d.disable_download_timeout),
        parallel_downloads: parallel_downloads_or(e, d.parallel_downloads),
        download_user: text_or(e, "DownloadUser"@, d.download_user),
        disable_sandbox: flag_or(e, "DisableSandbox"@, d.disable_sandbox),
    }
}

/// The text of the setting `key`, or `default` where it is not given.
pub fn text_setting(section: &Section, key: &str, default: String) -> (r: String)
    ensures
        r@ == text_or(section@.entries, key@, default@),
{
    match section.first(key) {
        Some(v) => v.clone(),
        None => default,
    }
}

/// The path of the setting `key`, or `default` where it is not given.
pub fn path_setting(section: &Section, key: &str, default: PathBuf) -> (r: PathBuf)
    ensures
        r == path_or(section@.entries, key@, default),
{
    match section.first(key) {
        Some(v) => path_from(v.as_str()),
        None => default,
    }
}

/// Every text of the setting `key`, or `default` where it is not given.
pub fn list_setting(section: &Section, key: &str, default: Vec<String>) -> (r: Vec<String>)
    ensures
        r.deep_view() == texts_or(section@.entries, key@, default.deep_view()),
{
    let all = section.values(key);
    if all.len() > 0 {
        all
    } else {
        default
    }
}

/// Every path of the setting `key`, or `default` where it is not given.
pub fn path_list_setting(section: &Section, key: &str, default: Vec<PathBuf>) -> (r: Vec<PathBuf>)
    ensures
        r@ == paths_or(section@.entries, key@, default@),
{
    let all = section.values(key);
    if all.len() > 0 {
        paths_from(&all)
    } else {
        default
    }
}

/// The switch `key`: what its text spells, `default` where it is not given,
/// and an error where the text spells no truth value.
pub fn flag_setting(section: &Section, key: &str, default: bool) -> (r: Result<bool, ConfigError>)
    ensures
        match flag_fault(section@.entries, key@) {
            Some(err) => r is Err && r->Err_0@ == err,
            None => r == Ok::<bool, ConfigError>(flag_or(section@.entries, key@, default)),
        },
{
    match section.first(key) {
        Some(v) => match parse_bool(v.as_str()) {
            Ok(b) => Ok(b),
            Err(reason) => Err(
                ConfigError::InvalidValue { field: key.to_owned(), value: v.clone(), reason },
            ),
        },
        None => Ok(default),
    }
}

/// The architecture, the default where it is not given, and an error where
/// its text spells none.
pub fn architecture_setting(section: &Section, default: Architecture) -> (r: Result<
    Architecture,
    ConfigError,
>)
    ensures
        match architecture_fault(section@.entries) {
            Some(err) => r is Err && r->Err_0@ == err,
            None => r == Ok::<Architecture, ConfigError>(
                architecture_or(section@.entries, default),
            ),
        },
{
    match section.first("Architecture") {
        Some(v) => match parse_architecture(v.as_str()) {
            Ok(a) => Ok(a),
            Err(reason) => Err(
                ConfigError::InvalidValue {
                    field: "Architecture".to_owned(),
                    value: v.clone(),
                    reason,
                },
            ),
        },
        None => Ok(default),
    }
}

/// The clean method, the default where it is not given, and an error where
/// its text spells none.
pub fn clean_method_setting(section: &Section, default: CleanMethod) -> (r: Result<
    CleanMethod,
    ConfigError,
>)
    ensures
        match clean_method_fault(section@.entries) {
            Some(err) => r is Err && r->Err_0@ == err,
            None => r == Ok::<CleanMethod, ConfigError>(
                clean_method_or(section@.entries, default),
            ),
        },
{
    match section.first("CleanMethod") {
        Some(v) => match parse_clean_method(v.as_str()) {
            Ok(m) => Ok(m),
            Err(reason) => Err(
                ConfigError::InvalidValue {
                    field: "CleanMethod".to_owned(),
                    value: v.clone(),
                    reason,
                },
            ),
        },
        None => Ok(default),
    }
}

/// The number of parallel downloads, the default where it is not given, and
/// an error where its text spells no number.
pub fn parallel_downloads_setting(section: &Section, default: u32) -> (r: Result<u32, ConfigError>)
    ensures
        match parallel_downloads_fault(section@.entries) {
            Some(err) => r is Err && r->Err_0@ == err,
            None => r == Ok::<u32, ConfigError>(parallel_downloads_or(section@.entries, default)),
        },
{
    match section.first("ParallelDownloads") {
        Some(v) => match parse_parallel_downloads(v.as_str()) {
            Ok(n) => Ok(n),
            Err(reason) => Err(
                ConfigError::InvalidValue {
                    field: "ParallelDownloads".to_owned(),
                    value: v.clone(),
                    reason,
                },
            ),
        },
        None => Ok(default),
    }
}

/// Resolves the global options from the settings of the `options` section.
/// The first typed setting whose text is not of its type is the error.
pub fn resolve_options(section: &Section) -> (r: Result<Options, ConfigError>)
    ensures
        match options_fault(section@.entries) {
            Some(err) => r is Err && r->Err_0@ == err,
            None => r is Ok && r->Ok_0@ == options_of(section@.entries),
        },
{
    let d = default_options();
    let root_dir = path_setting(section, "RootDir", d.root_dir);
    let db_path = path_setting(section, "DBPath", d.db_path);
    let gpg_dir = path_setting(section, "GPGDir", d.gpg_dir);
    let log_file = path_setting(section, "LogFile", d.log_file);
    let xfer_command = text_setting(section, "XferCommand", d.xfer_command);
    let sig_level = text_setting(section, "SigLevel", d.sig_level);
    let local_file_sig_level = text_setting(section, "LocalFileSigLevel", d.local_file_sig_level);
    let remote_file_sig_level = text_setting(
        section,
        "RemoteFileSigLevel",
        d.remote_file_sig_level,
    );
    let architecture = match architecture_setting(section, d.architecture) {
        Ok(a) => a,
        Err(e) => {
            return Err(e);
        },
    };
    let clean_method = match clean_method_setting(section, d.clean_method) {
        Ok(m) => m,
        Err(e) => {
            return Err(e);
        },
    };
    let use_syslog = match flag_setting(section, "UseSyslog", d.use_syslog) {
        Ok(b) => b,
        Err(e) => {
            return Err(e);
        },
    };
    let color = match flag_setting(section, "Color", d.color) {
        Ok(b) => b,
        Err(e) => {
            return Err(e);
        },
    };
    let no_progress_bar = match flag_setting(section, "NoProgressBar", d.no_progress_bar) {
        Ok(b) => b,
        Err(e) => {
            return Err(e);
        },
    };
    let check_space = match flag_setting(section, "CheckSpace", d.check_space) {
        Ok(b) => b,
        Err(e) => {
            return Err(e);
        },
    };
    let verbose_pkg_lists = match flag_setting(section, "VerbosePkgLists", d.verbose_pkg_lists) {
        Ok(b) => b,
        Err(e) => {
            return Err(e);
        },
    };
    let disable_download_timeout = match flag_setting(
        section,
        "DisableDownloadTimeout",
        d.disable_download_timeout,
    ) {
        Ok(b) => b,
        Err(e) => {
            return Err(e);
        },
    };
    let parallel_downloads = match parallel_downloads_setting(section, d.parallel_downloads) {
        Ok(n) => n,
        Err(e) => {
            return Err(e);
        },
    };
    let download_user = text_setting(section, "DownloadUser", d.download_user);
    let disable_sandbox = match flag_setting(section, "DisableSandbox", d.disable_sandbox) {
        Ok(b) => b,
        Err(e) => {
            return Err(e);
        },
    };
    let cache_dirs = path_list_setting(section, "CacheDir", d.cache_dirs);
    let hook_dirs = path_list_setting(section, "HookDir", d.hook_dirs);
    let hold_pkg = list_setting(section, "HoldPkg", d.hold_pkg);
    let ignore_pkg = list_setting(section, "IgnorePkg", d.ignore_pkg);
    let ignore_group = list_setting(section, "IgnoreGroup", d.ignore_group);
    let includes = path_list_setting(section, "Include", d.includes);
    let no_upgrade = list_setting(section, "NoUpgrade", d.no_upgrade);
    let no_extract = list_setting(section, "NoExtract", d.no_extract);
    Ok(
        Options {
            root_dir,
            db_path,
            cache_dirs,
            hook_dirs,
            gpg_dir,
            log_file,
            hold_pkg,
            ignore_pkg,
            ignore_group,
            includes,
            architecture,
            xfer_command,
            no_upgrade,
            no_extract,
            clean_method,
            sig_level,
            local_file_sig_level,
            remote_file_sig_level,
            use_syslog,
            color,
            no_progress_bar,
            check_space,
            verbose_pkg_lists,
            disable_download_timeout,
            parallel_downloads,
            download_user,
            disable_sandbox,
        },
    )
}

/// Whether `key` names one of the switches.
pub open spec fn is_switch(key: Seq<char>) -> bool {
    ||| key == "UseSyslog"@
    ||| key == "Color"@
    ||| key == "NoProgressBar"@
    ||| key == "CheckSpace"@
    ||| key == "VerbosePkgLists"@
    ||| key == "DisableDownloadTimeout"@
    ||| key == "DisableSandbox"@
}

/// The state of the switch `key` in `o`.
pub open spec fn switch_of(o: OptionsView, key: Seq<char>) -> bool {
    if key == "UseSyslog"@ {
        o.use_syslog
    } else if key == "Color"@ {
        o.color
    } else if key == "NoProgressBar"@ {
        o.no_progress_bar
    } else if key == "CheckSpace"@ {
        o.check_space
    } else if key == "VerbosePkgLists"@ {
        o.verbose_pkg_lists
    } else if key == "DisableDownloadTimeout"@ {
        o.disable_download_timeout
    } else {
        o.disable_sandbox
    }
}

/// Whether `key` names a setting of the global options.
pub open spec fn is_option_key(key: Seq<char>) -> bool {
    ||| is_switch(key)
    ||| key == "RootDir"@
    ||| key == "DBPath"@
    ||| key == "CacheDir"@
    ||| key == "HookDir"@
    ||| key == "GPGDir"@
    ||| key == "LogFile"@
    ||| key == "HoldPkg"@
    ||| key == "IgnorePkg"@
    ||| key == "IgnoreGroup"@
    ||| key == "Include"@
    ||| key == "Architecture"@
    ||| key == "XferCommand"@
    ||| key == "NoUpgrade"@
    ||| key == "NoExtract"@
    ||| key == "CleanMethod"@
    ||| key == "SigLevel"@
    ||| key == "LocalFileSigLevel"@
    ||| key == "RemoteFileSigLevel"@
    ||| key == "ParallelDownloads"@
    ||| key == "DownloadUser"@
}

/// Every switch is read alike. Where the first text given for a switch
/// spells a truth value, the resolved options hold that value; where it
/// spells none, the options are not resolved, and the error is one of an
/// invalid value.
pub proof fn lemma_switches(e: Seq<EntryView>, key: Seq<char>, v: Seq<char>)
    requires
        is_switch(key),
        first_of(e, key) == Some(v),
    ensures
        bool_of(v) is Some && options_fault(e) is None ==> switch_of(options_of(e), key)
            == bool_of(v)->Some_0,
        bool_of(v) is None ==> flag_fault(e, key) == Some(
            ConfigErrorView::InvalidValue { field: key, value: v, reason: bool_message(v) },
        ),
        bool_of(v) is None ==> options_fault(e) is Some && options_fault(
            e,
        )->Some_0 is InvalidValue,
{
}

/// The error of the global options names a setting and the first text given
/// for it.
pub proof fn lemma_fault_names_setting(e: Seq<EntryView>)
    requires
        options_fault(e) is Some,
    ensures
        options_fault(e)->Some_0 is InvalidValue,
        first_of(e, options_fault(e)->Some_0->field) == Some(options_fault(e)->Some_0->value),
{
}

/// Settings that name no option leave every default: they resolve without
/// an error to the default options. So do no settings at all.
pub proof fn lemma_defaults(e: Seq<EntryView>)
    requires
        forall|j: int| 0 <= j < e.len() ==> !is_option_key(#[trigger] e[j].key),
    ensures
        options_fault(e) is None,
        options_of(e) == default_options_view(),
{
    lemma_absent_key(e, "UseSyslog"@);
    lemma_absent_key(e, "Color"@);
    lemma_absent_key(e, "NoProgressBar"@);
    lemma_absent_key(e, "CheckSpace"@);
    lemma_absent_key(e, "VerbosePkgLists"@);
    lemma_absent_key(e, "DisableDownloadTimeout"@);
    lemma_absent_key(e, "DisableSandbox"@);
    lemma_absent_key(e, "RootDir"@);
    lemma_absent_key(e, "DBPath"@);
    lemma_absent_key(e, "CacheDir"@);
    lemma_absent_key(e, "HookDir"@);
    lemma_absent_key(e, "GPGDir"@);
    lemma_absent_key(e, "LogFile"@);
    lemma_absent_key(e, "HoldPkg"@);
    lemma_absent_key(e, "IgnorePkg"@);
    lemma_absent_key(e, "IgnoreGroup"@);
    lemma_absent_key(e, "Include"@);
    lemma_absent_key(e, "Architecture"@);
    lemma_absent_key(e, "XferCommand"@);
    lemma_absent_key(e, "NoUpgrade"@);
    lemma_absent_key(e, "NoExtract"@);
    lemma_absent_key(e, "CleanMethod"@);
    lemma_absent_key(e, "SigLevel"@);
    lemma_absent_key(e, "LocalFileSigLevel"@);
    lemma_absent_key(e, "RemoteFileSigLevel"@);
    lemma_absent_key(e, "ParallelDownloads"@);
    lemma_absent_key(e, "DownloadUser"@);
}

} // verus!
