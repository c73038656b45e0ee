//! The settings.

use vstd::prelude::*;

use crate::paths;
use crate::text;

pub mod files;
pub mod rules;
pub mod secrets;

verus! {

// ---- tasks ---------------------------------------------------------------------------------

/// What a task captures.
#[derive(Clone, Copy, PartialEq, Eq, Structural, Debug)]
pub enum TaskCaptureMode {
    Region,
    RegionLast,
    Window,
    Fullscreen,
    ActiveMonitor,
    RegionGif,
    RegionMp4,
}

impl TaskCaptureMode {
    pub fn display_name(&self) -> (r: &'static str)
        ensures
            r@ == (match *self {
                TaskCaptureMode::Region => "Region"@,
                TaskCaptureMode::RegionLast => "Region (last)"@,
                TaskCaptureMode::Window => "Window"@,
                TaskCaptureMode::Fullscreen => "Fullscreen (selector)"@,
                TaskCaptureMode::ActiveMonitor => "Active monitor"@,
                TaskCaptureMode::RegionGif => "Region GIF"@,
                TaskCaptureMode::RegionMp4 => "Region MP4"@,
            }),
    {
        match *self {
            TaskCaptureMode::Region => "Region",
            TaskCaptureMode::RegionLast => "Region (last)",
            TaskCaptureMode::Window => "Window",
            TaskCaptureMode::Fullscreen => "Fullscreen (selector)",
            TaskCaptureMode::ActiveMonitor => "Active monitor",
            TaskCaptureMode::RegionGif => "Region GIF",
            TaskCaptureMode::RegionMp4 => "Region MP4",
        }
    }
}

/// What a task does with a capture.
#[derive(Clone, Copy, PartialEq, Eq, Structural, Debug)]
pub enum TaskPostAction {
    Clipboard,
    SaveFile,
    Upload,
    SaveAndClipboard,
    OpenEditor,
    Prompt,
    DoNothing,
    CopyText,
}

impl TaskPostAction {
    pub fn display_name(&self) -> (r: &'static str)
        ensures
            r@ == (match *self {
                TaskPostAction::Clipboard => "Copy to clipboard"@,
                TaskPostAction::SaveFile => "Save to file"@,
                TaskPostAction::Upload => "Upload"@,
                TaskPostAction::SaveAndClipboard => "Save and copy"@,
                TaskPostAction::OpenEditor => "Open editor"@,
                TaskPostAction::Prompt => "Ask each time"@,
                TaskPostAction::DoNothing => "Do nothing"@,
                TaskPostAction::CopyText => "Copy text"@,
            }),
    {
        match *self {
            TaskPostAction::Clipboard => "Copy to clipboard",
            TaskPostAction::SaveFile => "Save to file",
            TaskPostAction::Upload => "Upload",
            TaskPostAction::SaveAndClipboard => "Save and copy",
            TaskPostAction::OpenEditor => "Open editor",
            TaskPostAction::Prompt => "Ask each time",
            TaskPostAction::DoNothing => "Do nothing",
            TaskPostAction::CopyText => "Copy text",
        }
    }
}

/// Where a task uploads to, in place of the destination in the settings.
#[derive(Clone, Copy, PartialEq, Eq, Structural, Debug)]
pub enum TaskUploadTarget {
    Imgur,
    Custom,
    Ftp,
    Sftp,
    S3,
}

/// A hotkey and what it does.
#[derive(Debug)]
pub struct CaptureTask {
    pub id: String,
    pub name: String,
    pub hotkey: String,
    pub capture_mode: TaskCaptureMode,
    pub post_action: TaskPostAction,
    pub target_destination: Option<TaskUploadTarget>,
    /// How long to wait before the capture, in place of the delay in the
    /// settings.
    pub delay_ms: Option<u32>,
}

impl Clone for CaptureTask {
    fn clone(&self) -> (r: Self)
        ensures
            r == *self,
    {
        CaptureTask {
            id: self.id.clone(),
            name: self.name.clone(),
            hotkey: self.hotkey.clone(),
            capture_mode: self.capture_mode,
            post_action: self.post_action,
            target_destination: self.target_destination,
            delay_ms: self.delay_ms,
        }
    }
}

/// The task has these settings, no upload target of its own and no delay of
/// its own.
pub open spec fn plain_task(
    t: CaptureTask,
    id: Seq<char>,
    name: Seq<char>,
    hotkey: Seq<char>,
    mode: TaskCaptureMode,
    action: TaskPostAction,
) -> bool {
    &&& t.id@ == id
    &&& t.name@ == name
    &&& t.hotkey@ == hotkey
    &&& t.capture_mode == mode
    &&& t.post_action == action
    &&& t.target_destination is None
    &&& t.delay_ms is None
}

fn make_task(id: &str, name: &str, hotkey: &str, mode: TaskCaptureMode, action: TaskPostAction)
    -> (t: CaptureTask)
    ensures
        plain_task(t, id@, name@, hotkey@, mode, action),
{
    CaptureTask {
        id: id.to_owned(),
        name: name.to_owned(),
        hotkey: hotkey.to_owned(),
        capture_mode: mode,
        post_action: action,
        target_destination: None,
        delay_ms: None,
    }
}

/// The tasks of a first start: a region to file and clipboard, which waits for
/// the user to choose its key, a recording as GIF, and one as MP4.
pub fn default_capture_tasks() -> (r: Vec<CaptureTask>)
    ensures
        r@.len() == 3,
        plain_task(
            r@[0],
            "screenshot-save-clipboard"@,
            "Screenshot — save + clipboard"@,
            ""@,
            TaskCaptureMode::Region,
            TaskPostAction::SaveAndClipboard,
        ),
        plain_task(
            r@[1],
            "gif-save"@,
            "Region GIF to file"@,
            "Ctrl+Shift+G"@,
            TaskCaptureMode::RegionGif,
            TaskPostAction::SaveFile,
        ),
        plain_task(
            r@[2],
            "mp4-save"@,
            "Region MP4 to file"@,
            "Ctrl+Shift+V"@,
            TaskCaptureMode::RegionMp4,
            TaskPostAction::SaveFile,
        ),
{
    let mut r: Vec<CaptureTask> = Vec::new();
    r.push(
        make_task(
            "screenshot-save-clipboard",
            "Screenshot — save + clipboard",
            "",
            TaskCaptureMode::Region,
            TaskPostAction::SaveAndClipboard,
        ),
    );
    r.push(
        make_task(
            "gif-save",
            "Region GIF to file",
            "Ctrl+Shift+G",
            TaskCaptureMode::RegionGif,
            TaskPostAction::SaveFile,
        ),
    );
    r.push(
        make_task(
            "mp4-save",
            "Region MP4 to file",
            "Ctrl+Shift+V",
            TaskCaptureMode::RegionMp4,
            TaskPostAction::SaveFile,
        ),
    );
    r
}

// ---- output --------------------------------------------------------------------------------

#[derive(Clone, Copy, PartialEq, Eq, Structural, Debug)]
pub enum ImageFormat {
    Png,
    Jpeg,
    Gif,
    Webp,
    Bmp,
}

impl ImageFormat {
    pub open spec fn spec_extension(&self) -> Seq<char> {
        match *self {
            ImageFormat::Png => "png"@,
            ImageFormat::Jpeg => "jpg"@,
            ImageFormat::Gif => "gif"@,
            ImageFormat::Webp => "webp"@,
            ImageFormat::Bmp => "bmp"@,
        }
    }

    pub fn extension(&self) -> (r: &'static str)
        ensures
            r@ == self.spec_extension(),
    {
        match *self {
            ImageFormat::Png => "png",
            ImageFormat::Jpeg => "jpg",
            ImageFormat::Gif => "gif",
            ImageFormat::Webp => "webp",
            ImageFormat::Bmp => "bmp",
        }
    }

    /// The formats, in the order in which they are offered.
    pub fn all() -> (r: [ImageFormat; 5])
        ensures
            r@ == seq![
                ImageFormat::Png,
                ImageFormat::Jpeg,
                ImageFormat::Gif,
                ImageFormat::Webp,
                ImageFormat::Bmp,
            ],
    {
        [
            ImageFormat::Png,
            ImageFormat::Jpeg,
            ImageFormat::Gif,
            ImageFormat::Webp,
            ImageFormat::Bmp,
        ]
    }

    pub fn display_name(&self) -> (r: &'static str)
        ensures
            r@ == (match *self {
                ImageFormat::Png => "PNG"@,
                ImageFormat::Jpeg => "JPEG"@,
                ImageFormat::Gif => "GIF"@,
                ImageFormat::Webp => "WebP"@,
                ImageFormat::Bmp => "BMP"@,
            }),
    {
        match *self {
            ImageFormat::Png => "PNG",
            ImageFormat::Jpeg => "JPEG",
            ImageFormat::Gif => "GIF",
            ImageFormat::Webp => "WebP",
            ImageFormat::Bmp => "BMP",
        }
    }
}

/// Where captures are written, and how.
#[derive(Clone, Debug)]
pub struct OutputConfig {
    pub directory: String,
    pub format: ImageFormat,
    pub quality: u8,
    pub filename_template: String,
    /// Whether an HDR capture is written beside the ordinary one.
    pub preserve_hdr: bool,
}

// ---- capture -------------------------------------------------------------------------------

#[derive(Clone, Copy, PartialEq, Eq, Structural, Debug)]
pub enum HdrCompressionMode {
    MapCllToDisplay,
    NormalizeToCll,
}

impl HdrCompressionMode {
    pub fn display_name(&self) -> (r: &'static str)
        ensures
            r@ == (match *self {
                HdrCompressionMode::MapCllToDisplay => "Map peak to display (SDR-friendly)"@,
                HdrCompressionMode::NormalizeToCll => "Normalize to peak (HDR-friendly)"@,
            }),
    {
        match *self {
            HdrCompressionMode::MapCllToDisplay => "Map peak to display (SDR-friendly)",
            HdrCompressionMode::NormalizeToCll => "Normalize to peak (HDR-friendly)",
        }
    }

    pub fn all() -> (r: [HdrCompressionMode; 2])
        ensures
            r@ == seq![HdrCompressionMode::MapCllToDisplay, HdrCompressionMode::NormalizeToCll],
    {
        [HdrCompressionMode::MapCllToDisplay, HdrCompressionMode::NormalizeToCll]
    }
}

/// The signal in which HDR captures are written.
#[derive(Clone, Copy, PartialEq, Eq, Structural, Debug)]
pub enum HdrOutputFormat {
    Pq,
    Hlg,
}

/// How HDR is brought down to the ordinary range.
#[derive(Clone, Copy, PartialEq, Eq, Structural, Debug)]
pub struct HdrConfig {
    pub mode: HdrCompressionMode,
    /// The bits of a 32-bit float: the white level, or nought for the one that
    /// the display reports.
    pub brightness_nits_bits: u32,
    /// The bits of a 32-bit float.
    pub user_brightness_scale_bits: u32,
    pub use_p99_max_cll: bool,
    pub output_format: HdrOutputFormat,
}

impl Default for HdrConfig {
    fn default() -> (r: Self)
        ensures
            r.mode == HdrCompressionMode::MapCllToDisplay,
            r.brightness_nits_bits == 0,
            r.user_brightness_scale_bits == 0x3f80_0000,
            r.use_p99_max_cll,
            r.output_format == HdrOutputFormat::Pq,
    {
        HdrConfig {
            mode: HdrCompressionMode::MapCllToDisplay,
            brightness_nits_bits: 0,
            user_brightness_scale_bits: 0x3f80_0000,
            use_p99_max_cll: true,
            output_format: HdrOutputFormat::Pq,
        }
    }
}

#[derive(Clone, Copy, PartialEq, Eq, Structural, Debug)]
pub struct CaptureConfig {
    pub show_cursor: bool,
    pub delay_ms: u32,
    pub gif_fps: u32,
    pub gif_max_duration_secs: u32,
    pub hdr: HdrConfig,
}

// ---- hotkeys and windows -------------------------------------------------------------------

#[derive(Clone, Debug)]
pub struct HotkeyConfig {
    pub screenshot: String,
    pub record_gif: String,
    /// No hotkey fires while this is set.
    pub disabled_globally: bool,
    /// Whether input devices are read directly, where the user has said.
    pub advanced_input: Option<bool>,
}

impl Default for HotkeyConfig {
    fn default() -> (r: Self)
        ensures
            r.screenshot@ == ""@,
            r.record_gif@ == ""@,
            !r.disabled_globally,
            r.advanced_input is None,
    {
        HotkeyConfig {
            screenshot: "".to_owned(),
            record_gif: "".to_owned(),
            disabled_globally: false,
            advanced_input: None,
        }
    }
}

#[derive(Clone, Copy, PartialEq, Eq, Structural, Debug)]
pub enum Theme {
    Light,
    Dark,
}

impl Theme {
    pub fn all() -> (r: [Theme; 2])
        ensures
            r@ == seq![Theme::Dark, Theme::Light],
    {
        [Theme::Dark, Theme::Light]
    }

    pub fn display_name(&self) -> (r: &'static str)
        ensures
            r@ == (match *self {
                Theme::Light => "Light"@,
                Theme::Dark => "Dark"@,
            }),
    {
        match *self {
            Theme::Light => "Light",
            Theme::Dark => "Dark",
        }
    }
}

/// What closing the main window does.
#[derive(Clone, Copy, PartialEq, Eq, Structural, Debug)]
pub enum CloseBehavior {
    MinimizeToTray,
    MinimizeToTaskbar,
    Exit,
}

#[derive(Clone, Copy, PartialEq, Eq, Structural, Debug)]
pub struct UiConfig {
    pub theme: Theme,
    pub show_notifications: bool,
    pub copy_to_clipboard: bool,
    pub minimize_to_tray: bool,
    pub auto_start: bool,
    pub check_updates_on_launch: bool,
    pub close_behavior: CloseBehavior,
    /// Whether a capture that only goes to the clipboard is kept in the
    /// history.
    pub save_clipboard_to_history: bool,
}

/// What a switch is where the file does not say.
pub fn default_true() -> (r: bool)
    ensures
        r,
{
    true
}

// ---- after a capture -----------------------------------------------------------------------

#[derive(Clone, Copy, PartialEq, Eq, Structural, Debug)]
pub enum PostCaptureAction {
    SaveToFile,
    CopyToClipboard,
    SaveAndCopy,
    Upload,
    PromptUser,
    DoNothing,
}

impl Default for PostCaptureAction {
    fn default() -> (r: Self)
        ensures
            r == PostCaptureAction::SaveToFile,
    {
        PostCaptureAction::SaveToFile
    }
}

impl PostCaptureAction {
    pub fn all() -> (r: [PostCaptureAction; 6])
        ensures
            r@ == seq![
                PostCaptureAction::SaveToFile,
                PostCaptureAction::CopyToClipboard,
                PostCaptureAction::SaveAndCopy,
                PostCaptureAction::Upload,
                PostCaptureAction::PromptUser,
                PostCaptureAction::DoNothing,
            ],
    {
        [
            PostCaptureAction::SaveToFile,
            PostCaptureAction::CopyToClipboard,
            PostCaptureAction::SaveAndCopy,
            PostCaptureAction::Upload,
            PostCaptureAction::PromptUser,
            PostCaptureAction::DoNothing,
        ]
    }

    pub fn display_name(&self) -> (r: &'static str)
        ensures
            r@ == (match *self {
                PostCaptureAction::SaveToFile => "Save to file"@,
                PostCaptureAction::CopyToClipboard => "Copy to clipboard"@,
                PostCaptureAction::SaveAndCopy => "Save and copy"@,
                PostCaptureAction::Upload => "Upload to web"@,
                PostCaptureAction::PromptUser => "Ask me each time"@,
                PostCaptureAction::DoNothing => "Do nothing"@,
            }),
    {
        match *self {
            PostCaptureAction::SaveToFile => "Save to file",
            PostCaptureAction::CopyToClipboard => "Copy to clipboard",
            PostCaptureAction::SaveAndCopy => "Save and copy",
            PostCaptureAction::Upload => "Upload to web",
            PostCaptureAction::PromptUser => "Ask me each time",
            PostCaptureAction::DoNothing => "Do nothing",
        }
    }
}

#[derive(Clone, Copy, PartialEq, Eq, Structural, Debug)]
pub struct PostCaptureConfig {
    pub action: PostCaptureAction,
    pub open_file_after_save: bool,
    pub play_sound: bool,
}

impl Default for PostCaptureConfig {
    fn default() -> (r: Self)
        ensures
            r.action == PostCaptureAction::SaveAndCopy,
            !r.open_file_after_save,
            r.play_sound,
    {
        PostCaptureConfig {
            action: PostCaptureAction::SaveAndCopy,
            open_file_after_save: false,
            play_sound: true,
        }
    }
}

// ---- uploads -------------------------------------------------------------------------------

#[derive(Clone, Copy, PartialEq, Eq, Structural, Debug)]
pub enum UploadDestination {
    Imgur,
    Custom,
    Ftp,
    Sftp,
    S3,
}

impl Default for UploadDestination {
    fn default() -> (r: Self)
        ensures
            r == UploadDestination::Imgur,
    {
        UploadDestination::Imgur
    }
}

impl UploadDestination {
    /// The destinations that the user can choose.
    pub fn all() -> (r: [UploadDestination; 4])
        ensures
            r@ == seq![
                UploadDestination::Imgur,
                UploadDestination::Custom,
                UploadDestination::Ftp,
                UploadDestination::Sftp,
            ],
    {
        [
            UploadDestination::Imgur,
            UploadDestination::Custom,
            UploadDestination::Ftp,
            UploadDestination::Sftp,
        ]
    }

    pub fn display_name(&self) -> (r: &'static str)
        ensures
            r@ == (match *self {
                UploadDestination::Imgur => "Imgur"@,
                UploadDestination::Custom => "Custom HTTP"@,
                UploadDestination::Ftp => "FTP"@,
                UploadDestination::Sftp => "SFTP"@,
                UploadDestination::S3 => "S3"@,
            }),
    {
        match *self {
            UploadDestination::Imgur => "Imgur",
            UploadDestination::Custom => "Custom HTTP",
            UploadDestination::Ftp => "FTP",
            UploadDestination::Sftp => "SFTP",
            UploadDestination::S3 => "S3",
        }
    }
}

/// An FTP server. A secret stands in the clear only until it is sealed.
#[derive(Clone, Debug)]
pub struct FtpUploadConfig {
    pub host: String,
    pub port: u16,
    pub username: String,
    pub password: String,
    pub password_encrypted: String,
    pub remote_dir: String,
    pub use_tls: bool,
    pub public_url_template: String,
}

/// Where no port is given in an FTP section.
pub fn default_ftp_port() -> (p: u16)
    ensures
        p == 21,
{
    21
}

/// Where no port is given in an SFTP section.
pub fn default_sftp_port() -> (p: u16)
    ensures
        p == 22,
{
    22
}

impl FtpUploadConfig {
    /// Nothing is filled in.
    pub open spec fn is_blank(&self) -> bool {
        &&& self.host@ == ""@
        &&& self.port == 0
        &&& self.username@ == ""@
        &&& self.password@ == ""@
        &&& self.password_encrypted@ == ""@
        &&& self.remote_dir@ == ""@
        &&& !self.use_tls
        &&& self.public_url_template@ == ""@
    }
}

impl Default for FtpUploadConfig {
    fn default() -> (r: Self)
        ensures
            r.is_blank(),
    {
        FtpUploadConfig {
            host: "".to_owned(),
            port: 0,
            username: "".to_owned(),
            password: "".to_owned(),
            password_encrypted: "".to_owned(),
            remote_dir: "".to_owned(),
            use_tls: false,
            public_url_template: "".to_owned(),
        }
    }
}

/// An SFTP server.
#[derive(Clone, Debug)]
pub struct SftpUploadConfig {
    pub host: String,
    pub port: u16,
    pub username: String,
    pub password: String,
    pub password_encrypted: String,
    pub remote_dir: String,
    pub public_url_template: String,
    pub private_key_path: String,
    pub private_key_passphrase: String,
    pub private_key_passphrase_encrypted: String,
}

impl SftpUploadConfig {
    /// Nothing is filled in.
    pub open spec fn is_blank(&self) -> bool {
        &&& self.host@ == ""@
        &&& self.port == 0
        &&& self.username@ == ""@
        &&& self.password@ == ""@
        &&& self.password_encrypted@ == ""@
        &&& self.remote_dir@ == ""@
        &&& self.public_url_template@ == ""@
        &&& self.private_key_path@ == ""@
        &&& self.private_key_passphrase@ == ""@
        &&& self.private_key_passphrase_encrypted@ == ""@
    }
}

impl Default for SftpUploadConfig {
    fn default() -> (r: Self)
        ensures
            r.is_blank(),
    {
        SftpUploadConfig {
            host: "".to_owned(),
            port: 0,
            username: "".to_owned(),
            password: "".to_owned(),
            password_encrypted: "".to_owned(),
            remote_dir: "".to_owned(),
            public_url_template: "".to_owned(),
            private_key_path: "".to_owned(),
            private_key_passphrase: "".to_owned(),
            private_key_passphrase_encrypted: "".to_owned(),
        }
    }
}

/// A bucket of an object store.
#[derive(Clone, Debug)]
pub struct S3UploadConfig {
    pub bucket: String,
    pub region: String,
    pub endpoint: String,
    pub access_key_id: String,
    pub secret_access_key: String,
    pub secret_access_key_encrypted: String,
    pub public_url_template: String,
}

impl S3UploadConfig {
    /// Nothing is filled in.
    pub open spec fn is_blank(&self) -> bool {
        &&& self.bucket@ == ""@
        &&& self.region@ == ""@
        &&& self.endpoint@ == ""@
        &&& self.access_key_id@ == ""@
        &&& self.secret_access_key@ == ""@
        &&& self.secret_access_key_encrypted@ == ""@
        &&& self.public_url_template@ == ""@
    }
}

impl Default for S3UploadConfig {
    fn default() -> (r: Self)
        ensures
            r.is_blank(),
    {
        S3UploadConfig {
            bucket: "".to_owned(),
            region: "".to_owned(),
            endpoint: "".to_owned(),
            access_key_id: "".to_owned(),
            secret_access_key: "".to_owned(),
            secret_access_key_encrypted: "".to_owned(),
            public_url_template: "".to_owned(),
        }
    }
}

#[derive(Clone, Debug)]
pub struct UploadConfig {
    pub destination: UploadDestination,
    pub copy_url_to_clipboard: bool,
    pub custom_url: String,
    pub custom_form_name: String,
    pub custom_response_path: String,
    pub imgur_client_id: String,
    pub ftp: FtpUploadConfig,
    pub sftp: SftpUploadConfig,
    pub s3: S3UploadConfig,
}

/// The client id that is built in.
pub fn default_imgur_client_id() -> (r: String)
    ensures
        r@ == "546c25a59c58ad7"@,
{
    "546c25a59c58ad7".to_owned()
}

impl Default for UploadConfig {
    fn default() -> (r: Self)
        ensures
            r.destination == UploadDestination::Imgur,
            r.copy_url_to_clipboard,
            r.custom_url@ == ""@,
            r.custom_form_name@ == "file"@,
            r.custom_response_path@ == "url"@,
            r.imgur_client_id@ == "546c25a59c58ad7"@,
            r.ftp.is_blank(),
            r.sftp.is_blank(),
            r.s3.is_blank(),
    {
        UploadConfig {
            destination: UploadDestination::Imgur,
            copy_url_to_clipboard: true,
            custom_url: "".to_owned(),
            custom_form_name: "file".to_owned(),
            custom_response_path: "url".to_owned(),
            imgur_client_id: default_imgur_client_id(),
            ftp: FtpUploadConfig::default(),
            sftp: SftpUploadConfig::default(),
            s3: S3UploadConfig::default(),
        }
    }
}

// ---- the rest ------------------------------------------------------------------------------

/// Where plugins are browsed.
#[derive(Clone, Debug)]
pub struct MarketplaceConfig {
    pub registry_url: String,
}

/// The registry that is asked where none is set.
pub fn default_marketplace_registry_url() -> (r: String)
    ensures
        r@ == "https://rot.lt/capscr/registry.json"@,
{
    "https://rot.lt/capscr/registry.json".to_owned()
}

impl Default for MarketplaceConfig {
    fn default() -> (r: Self)
        ensures
            r.registry_url@ == "https://rot.lt/capscr/registry.json"@,
    {
        MarketplaceConfig { registry_url: default_marketplace_registry_url() }
    }
}

#[derive(Clone, Copy, PartialEq, Eq, Structural, Debug)]
pub enum RendererBackend {
    Wgpu,
    TinySkia,
}

impl Default for RendererBackend {
    fn default() -> (r: Self)
        ensures
            r == RendererBackend::Wgpu,
    {
        RendererBackend::Wgpu
    }
}

impl RendererBackend {
    pub fn all() -> (r: [RendererBackend; 2])
        ensures
            r@ == seq![RendererBackend::Wgpu, RendererBackend::TinySkia],
    {
        [RendererBackend::Wgpu, RendererBackend::TinySkia]
    }

    pub fn display_name(&self) -> (r: &'static str)
        ensures
            r@ == (match *self {
                RendererBackend::Wgpu => "WGPU"@,
                RendererBackend::TinySkia => "Tiny Skia"@,
            }),
    {
        match *self {
            RendererBackend::Wgpu => "WGPU",
            RendererBackend::TinySkia => "Tiny Skia",
        }
    }

    /// The name by which the toolkit knows the renderer.
    pub fn iced_backend_value(&self) -> (r: &'static str)
        ensures
            r@ == (match *self {
                RendererBackend::Wgpu => "wgpu"@,
                RendererBackend::TinySkia => "tiny-skia"@,
            }),
    {
        match *self {
            RendererBackend::Wgpu => "wgpu",
            RendererBackend::TinySkia => "tiny-skia",
        }
    }
}

#[derive(Clone, Copy, PartialEq, Eq, Structural, Debug)]
pub struct PerformanceConfig {
    pub tick_interval_ms: u32,
    pub renderer: RendererBackend,
    pub lazy_init_upload: bool,
    pub lazy_init_plugins: bool,
}

impl Default for PerformanceConfig {
    fn default() -> (r: Self)
        ensures
            r.tick_interval_ms == 100,
            r.renderer == RendererBackend::TinySkia,
            r.lazy_init_upload,
            r.lazy_init_plugins,
    {
        PerformanceConfig {
            tick_interval_ms: 100,
            renderer: RendererBackend::TinySkia,
            lazy_init_upload: true,
            lazy_init_plugins: true,
        }
    }
}

/// All settings.
#[derive(Debug)]
pub struct Config {
    pub output: OutputConfig,
    pub capture: CaptureConfig,
    pub hotkeys: HotkeyConfig,
    pub ui: UiConfig,
    pub post_capture: PostCaptureConfig,
    pub upload: UploadConfig,
    pub performance: PerformanceConfig,
    pub marketplace: MarketplaceConfig,
    pub capture_tasks: Vec<CaptureTask>,
}

impl Config {
    /// The settings of a first start, but for the directory.
    pub open spec fn is_default(&self) -> bool {
        &&& self.output.format == ImageFormat::Png
        &&& self.output.quality == 90
        &&& self.output.filename_template@ == "capture_%Y%m%d_%H%M%S"@
        &&& !self.output.preserve_hdr
        &&& self.capture.show_cursor
        &&& self.capture.delay_ms == 0
        &&& self.capture.gif_fps == 15
        &&& self.capture.gif_max_duration_secs == 30
        &&& self.capture.hdr.mode == HdrCompressionMode::MapCllToDisplay
        &&& self.capture.hdr.brightness_nits_bits == 0
        &&& self.capture.hdr.user_brightness_scale_bits == 0x3f80_0000
        &&& self.capture.hdr.use_p99_max_cll
        &&& self.capture.hdr.output_format == HdrOutputFormat::Pq
        &&& self.hotkeys.screenshot@ == "Ctrl+Shift+S"@
        &&& self.hotkeys.record_gif@ == "Ctrl+Shift+G"@
        &&& !self.hotkeys.disabled_globally
        &&& self.hotkeys.advanced_input is None
        &&& self.ui.theme == Theme::Dark
        &&& self.ui.show_notifications
        &&& self.ui.copy_to_clipboard
        &&& self.ui.minimize_to_tray
        &&& !self.ui.auto_start
        &&& self.ui.check_updates_on_launch
        &&& self.ui.close_behavior == CloseBehavior::MinimizeToTray
        &&& !self.ui.save_clipboard_to_history
        &&& self.post_capture.action == PostCaptureAction::SaveAndCopy
        &&& !self.post_capture.open_file_after_save
        &&& self.post_capture.play_sound
        &&& self.upload.destination == UploadDestination::Imgur
        &&& self.upload.copy_url_to_clipboard
        &&& self.upload.custom_url@ == ""@
        &&& self.upload.custom_form_name@ == "file"@
        &&& self.upload.custom_response_path@ == "url"@
        &&& self.upload.imgur_client_id@ == "546c25a59c58ad7"@
        &&& self.upload.ftp.is_blank()
        &&& self.upload.sftp.is_blank()
        &&& self.upload.s3.is_blank()
        &&& self.performance.tick_interval_ms == 100
        &&& self.performance.renderer == RendererBackend::TinySkia
        &&& self.performance.lazy_init_upload
        &&& self.performance.lazy_init_plugins
        &&& self.marketplace.registry_url@ == "https://rot.lt/capscr/registry.json"@
        &&& self.capture_tasks@.len() == 3
        &&& plain_task(
            self.capture_tasks@[0],
            "screenshot-save-clipboard"@,
            "Screenshot — save + clipboard"@,
            ""@,
            TaskCaptureMode::Region,
            TaskPostAction::SaveAndClipboard,
        )
        &&& plain_task(
            self.capture_tasks@[1],
            "gif-save"@,
            "Region GIF to file"@,
            "Ctrl+Shift+G"@,
            TaskCaptureMode::RegionGif,
            TaskPostAction::SaveFile,
        )
        &&& plain_task(
            self.capture_tasks@[2],
            "mp4-save"@,
            "Region MP4 to file"@,
            "Ctrl+Shift+V"@,
            TaskCaptureMode::RegionMp4,
            TaskPostAction::SaveFile,
        )
    }

    /// The settings of a first start, with captures below the user's pictures,
    /// or else below the home directory, or else below the current one.
    pub fn with_directories(pictures: Option<&str>, home: Option<&str>, sep: char) -> (r: Config)
        ensures
            r.is_default(),
            r.output.directory@ == paths::joined(
                match text::opt(pictures) {
                    Some(p) => p,
                    None => match text::opt(home) {
                        Some(h) => h,
                        None => "."@,
                    },
                },
                "capscr"@,
                sep,
            ),
    {
        let base = match pictures {
            Some(p) => p,
            None => match home {
                Some(h) => h,
                None => ".",
            },
        };
        Config {
            output: OutputConfig {
                directory: paths::join(base, "capscr", sep),
                format: ImageFormat::Png,
                quality: 90,
                filename_template: "capture_%Y%m%d_%H%M%S".to_owned(),
                preserve_hdr: false,
            },
            capture: CaptureConfig {
                show_cursor: true,
                delay_ms: 0,
                gif_fps: 15,
                gif_max_duration_secs: 30,
                hdr: HdrConfig::default(),
            },
            hotkeys: HotkeyConfig {
                screenshot: "Ctrl+Shift+S".to_owned(),
                record_gif: "Ctrl+Shift+G".to_owned(),
                disabled_globally: false,
                advanced_input: None,
            },
            ui: UiConfig {
                theme: Theme::Dark,
                show_notifications: true,
                copy_to_clipboard: true,
                minimize_to_tray: true,
                auto_start: false,
                check_updates_on_launch: default_true(),
                close_behavior: CloseBehavior::MinimizeToTray,
                save_clipboard_to_history: false,
            },
            post_capture: PostCaptureConfig::default(),
            upload: UploadConfig::default(),
            performance: PerformanceConfig::default(),
            marketplace: MarketplaceConfig::default(),
            capture_tasks: default_capture_tasks(),
        }
    }
}

impl Default for Config {
    /// The settings where the system names no directory of the user's.
    fn default() -> (r: Self)
        ensures
            r.is_default(),
            r.output.directory@ == paths::joined("."@, "capscr"@, '/'),
    {
        Config::with_directories(None, None, '/')
    }
}

// ---- laws ----------------------------------------------------------------------------------

/// Files are told apart by their extensions, which are the names of their formats
/// in small letters; only a JPEG is shortened.
pub proof fn lemma_extension_is_the_format_in_small_letters(
    f: ImageFormat,
    e: &'static str,
    n: &'static str,
)
    requires
        call_ensures(ImageFormat::extension, (&f,), e),
        call_ensures(ImageFormat::display_name, (&f,), n),
    ensures
        f != ImageFormat::Jpeg ==> e@ == text::ascii_lower_all(n@),
        f == ImageFormat::Png <==> e@ == "png"@,
        f == ImageFormat::Jpeg <==> e@ == "jpg"@,
        f == ImageFormat::Gif <==> e@ == "gif"@,
        f == ImageFormat::Webp <==> e@ == "webp"@,
        f == ImageFormat::Bmp <==> e@ == "bmp"@,
{
    reveal_strlit("png");
    reveal_strlit("jpg");
    reveal_strlit("gif");
    reveal_strlit("webp");
    reveal_strlit("bmp");
    reveal_strlit("PNG");
    reveal_strlit("GIF");
    reveal_strlit("WebP");
    reveal_strlit("BMP");
    assert("png"@[0] == 'p' && "jpg"@[0] == 'j' && "gif"@[0] == 'g' && "webp"@[0] == 'w' && "bmp"@[0]
        == 'b');
    assert(text::ascii_lower('P') == 'p' && text::ascii_lower('N') == 'n' && text::ascii_lower('G')
        == 'g');
    assert(text::ascii_lower('I') == 'i' && text::ascii_lower('F') == 'f' && text::ascii_lower('W')
        == 'w');
    assert(text::ascii_lower('B') == 'b' && text::ascii_lower('M') == 'm');
    assert("png"@ =~= text::ascii_lower_all("PNG"@));
    assert("gif"@ =~= text::ascii_lower_all("GIF"@));
    assert("webp"@ =~= text::ascii_lower_all("WebP"@));
    assert("bmp"@ =~= text::ascii_lower_all("BMP"@));
}

/// The user can choose among all formats, actions, themes, renderers and ways to
/// bring brightness down, and no choice comes twice. All destinations but the
/// object store can be chosen.
pub proof fn lemma_every_choice_is_offered(
    formats: [ImageFormat; 5],
    actions: [PostCaptureAction; 6],
    places: [UploadDestination; 4],
    themes: [Theme; 2],
    renderers: [RendererBackend; 2],
    modes: [HdrCompressionMode; 2],
    f: ImageFormat,
    a: PostCaptureAction,
    d: UploadDestination,
    t: Theme,
    b: RendererBackend,
    m: HdrCompressionMode,
)
    requires
        call_ensures(ImageFormat::all, (), formats),
        call_ensures(PostCaptureAction::all, (), actions),
        call_ensures(UploadDestination::all, (), places),
        call_ensures(Theme::all, (), themes),
        call_ensures(RendererBackend::all, (), renderers),
        call_ensures(HdrCompressionMode::all, (), modes),
    ensures
        formats@.contains(f) && formats@.no_duplicates(),
        actions@.contains(a) && actions@.no_duplicates(),
        places@.contains(d) <==> d != UploadDestination::S3,
        places@.no_duplicates(),
        themes@.contains(t) && themes@.no_duplicates(),
        renderers@.contains(b) && renderers@.no_duplicates(),
        modes@.contains(m) && modes@.no_duplicates(),
{
    assert(formats@[0] == ImageFormat::Png && formats@[1] == ImageFormat::Jpeg && formats@[2]
        == ImageFormat::Gif && formats@[3] == ImageFormat::Webp && formats@[4]
        == ImageFormat::Bmp);
    assert(actions@[0] == PostCaptureAction::SaveToFile && actions@[1]
        == PostCaptureAction::CopyToClipboard && actions@[2] == PostCaptureAction::SaveAndCopy
        && actions@[3] == PostCaptureAction::Upload && actions@[4] == PostCaptureAction::PromptUser
        && actions@[5] == PostCaptureAction::DoNothing);
    assert(places@[0] == UploadDestination::Imgur && places@[1] == UploadDestination::Custom
        && places@[2] == UploadDestination::Ftp && places@[3] == UploadDestination::Sftp);
    assert(themes@[0] == Theme::Dark && themes@[1] == Theme::Light);
    assert(renderers@[0] == RendererBackend::Wgpu && renderers@[1] == RendererBackend::TinySkia);
    assert(modes@[0] == HdrCompressionMode::MapCllToDisplay && modes@[1]
        == HdrCompressionMode::NormalizeToCll);
}

/// On a first start captures are PNG files below the user's pictures, saved and
/// copied; recordings run at fifteen frames a second for half a minute; nothing
/// starts by itself, and no server is filled in.
pub proof fn lemma_first_start(
    pictures: Option<&str>,
    home: Option<&str>,
    sep: char,
    c: Config,
)
    requires
        call_ensures(Config::with_directories, (pictures, home, sep), c),
    ensures
        c.output.format == ImageFormat::Png && c.output.quality == 90,
        c.post_capture.action == PostCaptureAction::SaveAndCopy,
        c.capture.gif_fps == 15 && c.capture.gif_max_duration_secs == 30,
        c.capture.delay_ms == 0 && c.capture.show_cursor,
        !c.ui.auto_start && c.ui.show_notifications && c.ui.theme == Theme::Dark,
        c.ui.close_behavior == CloseBehavior::MinimizeToTray,
        !c.hotkeys.disabled_globally,
        c.upload.destination == UploadDestination::Imgur && c.upload.copy_url_to_clipboard,
        c.upload.ftp.host@ == ""@ && c.upload.sftp.host@ == ""@ && c.upload.s3.bucket@ == ""@,
        c.performance.tick_interval_ms == 100,
        c.capture_tasks@.len() == 3,
        c.capture_tasks@[0].capture_mode == TaskCaptureMode::Region
            && c.capture_tasks@[0].post_action == TaskPostAction::SaveAndClipboard,
        c.capture_tasks@[1].capture_mode == TaskCaptureMode::RegionGif
            && c.capture_tasks@[1].post_action == TaskPostAction::SaveFile
            && c.capture_tasks@[1].hotkey@ == "Ctrl+Shift+G"@,
        c.capture_tasks@[2].capture_mode == TaskCaptureMode::RegionMp4
            && c.capture_tasks@[2].post_action == TaskPostAction::SaveFile
            && c.capture_tasks@[2].hotkey@ == "Ctrl+Shift+V"@,
        pictures matches Some(p) ==> (p@.len() > 0 && p@.last() != sep ==> c.output.directory@ == p@
            + seq![sep] + "capscr"@),
        pictures is None ==> (home matches Some(h) ==> (h@.len() > 0 && h@.last() != sep
            ==> c.output.directory@ == h@ + seq![sep] + "capscr"@)),
{
    if let Some(p) = pictures {
        assert(p@.push(sep) =~= p@ + seq![sep]);
    } else if let Some(h) = home {
        assert(h@.push(sep) =~= h@ + seq![sep]);
    }
}

/// No two ways to capture go by the same name.
pub proof fn lemma_names_tell_modes_apart(
    a: TaskCaptureMode,
    b: TaskCaptureMode,
    x: &'static str,
    y: &'static str,
)
    requires
        call_ensures(TaskCaptureMode::display_name, (&a,), x),
        call_ensures(TaskCaptureMode::display_name, (&b,), y),
        x@ == y@,
    ensures
        a == b,
{
    reveal_strlit("Region");
    reveal_strlit("Region (last)");
    reveal_strlit("Window");
    reveal_strlit("Fullscreen (selector)");
    reveal_strlit("Active monitor");
    reveal_strlit("Region GIF");
    reveal_strlit("Region MP4");
    assert("Region"@.len() == 6 && "Region (last)"@.len() == 13 && "Window"@.len() == 6);
    assert("Region"@[0] == 'R' && "Window"@[0] == 'W');
    assert("Region GIF"@[7] == 'G' && "Region MP4"@[7] == 'M');
    assert("Fullscreen (selector)"@.len() == 21 && "Active monitor"@.len() == 14);
    assert("Region GIF"@.len() == 10 && "Region MP4"@.len() == 10);
}

} // verus!
