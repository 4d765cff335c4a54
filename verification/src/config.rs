//! The configuration surface of the pipeline.
//!
//! The core reads an immutable snapshot of these settings at construction
//! time.  The surrounding program parses command-line arguments and the
//! on-disk configuration file and hands the values in as typed settings.

use vstd::prelude::*;

verus! {

/// Errors a configuration can be rejected with.
#[derive(Debug)]
pub enum ConfigValidationError {
    MissingRequiredField(String),
    TypeMismatch(String, String, String),
    InvalidPath(String),
    FileNotExists(String),
    ReadError(String),
    ParseError(String),
    GeneralError(String),
}

/// All settings of one run.
pub struct Config {
    pub media_folder: String,
    pub output_folder: String,
    pub max_retries: u32,
    pub max_workers: u32,
    pub use_jianying_first: bool,
    pub use_kuaishou: bool,
    pub use_bcut: bool,
    pub format_text: bool,
    pub include_timestamps: bool,
    pub show_progress: bool,
    pub process_video: bool,
    pub extract_audio_only: bool,
    pub watch_mode: bool,
    /// Longest part of a multi-part file, in minutes.
    pub max_part_time: u32,
    /// Base retry backoff, in milliseconds.
    pub retry_delay_ms: u32,
}

/// One setting to change, as the command line or a configuration file
/// states it.
pub enum ConfigSetting {
    MediaFolder(String),
    OutputFolder(String),
    MaxRetries(u32),
    MaxWorkers(u32),
    UseJianyingFirst(bool),
    UseKuaishou(bool),
    UseBcut(bool),
    FormatText(bool),
    IncludeTimestamps(bool),
    ShowProgress(bool),
    ProcessVideo(bool),
    ExtractAudioOnly(bool),
    WatchMode(bool),
    MaxPartTime(u32),
    RetryDelayMs(u32),
}

/// The configuration after one setting is applied.
pub open spec fn spec_apply(c: Config, s: ConfigSetting) -> Config {
    match s {
        ConfigSetting::MediaFolder(v) => Config { media_folder: v, ..c },
        ConfigSetting::OutputFolder(v) => Config { output_folder: v, ..c },
        ConfigSetting::MaxRetries(v) => Config { max_retries: v, ..c },
        ConfigSetting::MaxWorkers(v) => Config { max_workers: v, ..c },
        ConfigSetting::UseJianyingFirst(v) => Config { use_jianying_first: v, ..c },
        ConfigSetting::UseKuaishou(v) => Config { use_kuaishou: v, ..c },
        ConfigSetting::UseBcut(v) => Config { use_bcut: v, ..c },
        ConfigSetting::FormatText(v) => Config { format_text: v, ..c },
        ConfigSetting::IncludeTimestamps(v) => Config { include_timestamps: v, ..c },
        ConfigSetting::ShowProgress(v) => Config { show_progress: v, ..c },
        ConfigSetting::ProcessVideo(v) => Config { process_video: v, ..c },
        ConfigSetting::ExtractAudioOnly(v) => Config { extract_audio_only: v, ..c },
        ConfigSetting::WatchMode(v) => Config { watch_mode: v, ..c },
        ConfigSetting::MaxPartTime(v) => Config { max_part_time: v, ..c },
        ConfigSetting::RetryDelayMs(v) => Config { retry_delay_ms: v, ..c },
    }
}

/// The configuration after the first `n` settings are applied in order.
pub open spec fn spec_apply_prefix(c: Config, s: Seq<ConfigSetting>, n: int) -> Config
    decreases n,
{
    if n <= 0 {
        c
    } else {
        spec_apply(spec_apply_prefix(c, s, n - 1), s[n - 1])
    }
}

impl Config {
    /// The built-in defaults, used where no file and no flag says otherwise.
    pub fn default_config() -> (r: Config)
        ensures
            r.media_folder@ == "D:/download/"@,
            r.output_folder@ == "D:/download/dest/"@,
            r.max_retries == 3,
            r.max_workers == 4,
            !r.use_jianying_first,
            !r.use_kuaishou,
            r.use_bcut,
            r.format_text,
            r.include_timestamps,
            r.show_progress,
            r.process_video,
            !r.extract_audio_only,
            !r.watch_mode,
            r.max_part_time == 30,
            r.retry_delay_ms == 1500,
    {
        Config {
            media_folder: "D:/download/".to_owned(),
            output_folder: "D:/download/dest/".to_owned(),
            max_retries: 3,
            max_workers: 4,
            use_jianying_first: false,
            use_kuaishou: false,
            use_bcut: true,
            format_text: true,
            include_timestamps: true,
            show_progress: true,
            process_video: true,
            extract_audio_only: false,
            watch_mode: false,
            max_part_time: 30,
            retry_delay_ms: 1500,
        }
    }

    /// Applies one setting; everything else is kept.
    #[verifier::rlimit(60)]
    pub fn apply(&mut self, setting: ConfigSetting)
        ensures
            *final(self) == spec_apply(*old(self), setting),
    {
        match setting {
            ConfigSetting::MediaFolder(v) => {
                self.media_folder = v;
            },
            ConfigSetting::OutputFolder(v) => {
                self.output_folder = v;
            },
            ConfigSetting::MaxRetries(v) => {
                self.max_retries = v;
            },
            ConfigSetting::MaxWorkers(v) => {
                self.max_workers = v;
            },
            ConfigSetting::UseJianyingFirst(v) => {
                self.use_jianying_first = v;
            },
            ConfigSetting::UseKuaishou(v) => {
                self.use_kuaishou = v;
            },
            ConfigSetting::UseBcut(v) => {
                self.use_bcut = v;
            },
            ConfigSetting::FormatText(v) => {
                self.format_text = v;
            },
            ConfigSetting::IncludeTimestamps(v) => {
                self.include_timestamps = v;
            },
            ConfigSetting::ShowProgress(v) => {
                self.show_progress = v;
            },
            ConfigSetting::ProcessVideo(v) => {
                self.process_video = v;
            },
            ConfigSetting::ExtractAudioOnly(v) => {
                self.extract_audio_only = v;
            },
            ConfigSetting::WatchMode(v) => {
                self.watch_mode = v;
            },
            ConfigSetting::MaxPartTime(v) => {
                self.max_part_time = v;
            },
            ConfigSetting::RetryDelayMs(v) => {
                self.retry_delay_ms = v;
            },
        }
    }
}

/// Holds the configuration of a run and merges updates into it, later
/// sources overriding earlier ones.  Persistence of the configuration file
/// is the surrounding program's concern.
pub struct ConfigManager {
    pub config: Config,
}

impl ConfigManager {
    /// Starts from `base` — usually the defaults — and applies the loaded
    /// settings in order.
    pub fn new(base: Config, loaded: Vec<ConfigSetting>) -> (r: ConfigManager)
        ensures
            r.config == spec_apply_prefix(base, loaded@, loaded@.len() as int),
    {
        let mut manager = ConfigManager { config: base };
        manager.update(loaded);
        manager
    }

    /// Applies the settings in order; later entries override earlier ones.
    pub fn update(&mut self, updates: Vec<ConfigSetting>)
        ensures
            final(self).config == spec_apply_prefix(
                old(self).config,
                updates@,
                updates@.len() as int,
            ),
    {
        let mut updates = updates;
        let ghost all = updates@;
        let n = updates.len();
        let mut i: usize = 0;
        while i < n
            invariant
                i <= n,
                n == all.len(),
                updates@ == all.skip(i as int),
                self.config == spec_apply_prefix(old(self).config, all, i as int),
            decreases n - i,
        {
            let setting = updates.remove(0);
            proof {
                assert(setting == all[i as int]);
                assert(updates@ =~= all.skip(i as int + 1));
            }
            self.config.apply(setting);
            i = i + 1;
        }
    }

    /// Rejects a configuration whose required folders are unset, or one with
    /// no speech-recognition backend enabled — such a run could never
    /// transcribe anything, so it is refused at startup.  Whether the folders
    /// exist on disk is checked by the surrounding program.
    pub fn validate_config(&self) -> (r: Result<(), ConfigValidationError>)
        ensures
            r is Ok <==> (self.config.media_folder@.len() > 0 && self.config.output_folder@.len()
                > 0 && (self.config.use_jianying_first || self.config.use_kuaishou
                || self.config.use_bcut)),
            self.config.media_folder@.len() == 0 ==> (r matches Err(
                ConfigValidationError::MissingRequiredField(f),
            ) && f@ == "media_folder"@),
            self.config.media_folder@.len() > 0 && self.config.output_folder@.len() == 0 ==> (
            r matches Err(ConfigValidationError::MissingRequiredField(f)) && f@
                == "output_folder"@),
            self.config.media_folder@.len() > 0 && self.config.output_folder@.len() > 0 && !(
            self.config.use_jianying_first || self.config.use_kuaishou || self.config.use_bcut)
                ==> (r matches Err(ConfigValidationError::GeneralError(m)) && m@
                == "no speech recognition backend is enabled"@),
    {
        if self.config.media_folder.as_str().unicode_len() == 0 {
            Err(ConfigValidationError::MissingRequiredField("media_folder".to_owned()))
        } else if self.config.output_folder.as_str().unicode_len() == 0 {
            Err(ConfigValidationError::MissingRequiredField("output_folder".to_owned()))
        } else if !self.config.use_jianying_first && !self.config.use_kuaishou
            && !self.config.use_bcut {
            Err(
                ConfigValidationError::GeneralError(
                    "no speech recognition backend is enabled".to_owned(),
                ),
            )
        } else {
            Ok(())
        }
    }
}

} // verus!
