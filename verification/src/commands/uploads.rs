//! Uploads: where a capture goes, and which files may be uploaded at all.

use vstd::prelude::*;

use crate::config::secrets;
use crate::config::Config;
use crate::config::TaskUploadTarget;
use crate::config::UploadConfig;
use crate::config::UploadDestination;
use crate::paths;
use crate::text;

verus! {

/// A web address that takes files.
#[derive(Debug)]
pub struct CustomUploader {
    pub name: String,
    pub request_url: String,
    pub file_form_name: String,
    pub response_url_path: String,
}

#[derive(Debug)]
pub struct FtpTarget {
    pub host: String,
    pub port: u16,
    pub username: String,
    pub password: String,
    pub remote_dir: String,
    pub use_tls: bool,
    pub public_url_template: String,
}

#[derive(Debug)]
pub struct SftpTarget {
    pub host: String,
    pub port: u16,
    pub username: String,
    pub password: String,
    pub remote_dir: String,
    pub public_url_template: String,
    pub private_key_path: String,
    pub private_key_passphrase: String,
}

#[derive(Debug)]
pub struct S3Target {
    pub bucket: String,
    pub region: String,
    pub endpoint: String,
    pub access_key_id: String,
    pub secret_access_key: String,
    pub public_url_template: String,
}

/// Where to upload, with all that it takes.
#[derive(Debug)]
pub enum UploadService {
    /// With the client id that is built in.
    Imgur,
    ImgurWithClientId { id: String },
    Custom { uploader: CustomUploader },
    Ftp { target: FtpTarget },
    Sftp { target: SftpTarget },
    S3 { target: S3Target },
}

impl UploadService {
    /// The service shows passwords and captures to anyone on the way.
    pub open spec fn is_plain_ftp(self) -> bool {
        self matches UploadService::Ftp { target } && !target.use_tls
    }

    /// Whether anything may be sent to the service. Plain FTP is disabled, as it
    /// shows passwords and captures to anyone on the way.
    pub fn may_send(&self) -> (r: bool)
        ensures
            r == !self.is_plain_ftp(),
    {
        match self {
            UploadService::Ftp { target } => target.use_tls,
            _ => true,
        }
    }
}

/// What the sealed secrets opened to. One that did not open is missing.
#[derive(Debug)]
pub struct OpenedSecrets {
    pub ftp_password: Option<String>,
    pub sftp_password: Option<String>,
    pub sftp_passphrase: Option<String>,
    pub s3_secret: Option<String>,
}

// ---- services --------------------------------------------------------------------------------

/// The client id to use, where it is not the one that is built in.
pub open spec fn own_client_id(id: Seq<char>) -> Option<Seq<char>> {
    let t = text::trim(id);
    if t.len() == 0 || t == "546c25a59c58ad7"@ {
        None
    } else {
        Some(t)
    }
}

pub open spec fn is_imgur(s: UploadService, u: UploadConfig) -> bool {
    match own_client_id(u.imgur_client_id@) {
        None => s is Imgur,
        Some(t) => s matches UploadService::ImgurWithClientId { id } && id@ == t,
    }
}

pub open spec fn is_custom(s: UploadService, u: UploadConfig) -> bool {
    s matches UploadService::Custom { uploader } && {
        &&& uploader.name@ == "Custom"@
        &&& uploader.request_url@ == u.custom_url@
        &&& uploader.file_form_name@ == u.custom_form_name@
        &&& uploader.response_url_path@ == u.custom_response_path@
    }
}

pub open spec fn is_ftp(s: UploadService, u: UploadConfig, o: OpenedSecrets) -> bool {
    s matches UploadService::Ftp { target } && {
        &&& target.host@ == u.ftp.host@
        &&& target.port == u.ftp.port
        &&& target.username@ == u.ftp.username@
        &&& target.password@ == secrets::secret(
            u.ftp.password@,
            u.ftp.password_encrypted@,
            text::opt_owned(o.ftp_password),
        )
        &&& target.remote_dir@ == u.ftp.remote_dir@
        &&& target.use_tls == u.ftp.use_tls
        &&& target.public_url_template@ == u.ftp.public_url_template@
    }
}

pub open spec fn is_sftp(s: UploadService, u: UploadConfig, o: OpenedSecrets) -> bool {
    s matches UploadService::Sftp { target } && {
        &&& target.host@ == u.sftp.host@
        &&& target.port == u.sftp.port
        &&& target.username@ == u.sftp.username@
        &&& target.password@ == secrets::secret(
            u.sftp.password@,
            u.sftp.password_encrypted@,
            text::opt_owned(o.sftp_password),
        )
        &&& target.remote_dir@ == u.sftp.remote_dir@
        &&& target.public_url_template@ == u.sftp.public_url_template@
        &&& target.private_key_path@ == u.sftp.private_key_path@
        &&& target.private_key_passphrase@ == secrets::secret(
            u.sftp.private_key_passphrase@,
            u.sftp.private_key_passphrase_encrypted@,
            text::opt_owned(o.sftp_passphrase),
        )
    }
}

pub open spec fn is_s3(s: UploadService, u: UploadConfig, o: OpenedSecrets) -> bool {
    s matches UploadService::S3 { target } && {
        &&& target.bucket@ == u.s3.bucket@
        &&& target.region@ == u.s3.region@
        &&& target.endpoint@ == u.s3.endpoint@
        &&& target.access_key_id@ == u.s3.access_key_id@
        &&& target.secret_access_key@ == secrets::secret(
            u.s3.secret_access_key@,
            u.s3.secret_access_key_encrypted@,
            text::opt_owned(o.s3_secret),
        )
        &&& target.public_url_template@ == u.s3.public_url_template@
    }
}

/// The destination of an upload: the task's own, or the one in the settings.
pub open spec fn destination_of(
    settings: UploadDestination,
    own: Option<TaskUploadTarget>,
) -> UploadDestination {
    match own {
        None => settings,
        Some(TaskUploadTarget::Imgur) => UploadDestination::Imgur,
        Some(TaskUploadTarget::Custom) => UploadDestination::Custom,
        Some(TaskUploadTarget::Ftp) => UploadDestination::Ftp,
        Some(TaskUploadTarget::Sftp) => UploadDestination::Sftp,
        Some(TaskUploadTarget::S3) => UploadDestination::S3,
    }
}

/// The service is that of the destination.
pub open spec fn serves(
    s: UploadService,
    destination: UploadDestination,
    u: UploadConfig,
    o: OpenedSecrets,
) -> bool {
    match destination {
        UploadDestination::Imgur => is_imgur(s, u),
        UploadDestination::Custom => is_custom(s, u),
        UploadDestination::Ftp => is_ftp(s, u, o),
        UploadDestination::Sftp => is_sftp(s, u, o),
        UploadDestination::S3 => is_s3(s, u, o),
    }
}

pub fn build_imgur_service(u: &UploadConfig) -> (r: UploadService)
    ensures
        is_imgur(r, *u),
{
    let id = text::trimmed(u.imgur_client_id.as_str());
    if id.as_str().is_empty() || text::same(id.as_str(), "546c25a59c58ad7") {
        UploadService::Imgur
    } else {
        UploadService::ImgurWithClientId { id }
    }
}

fn build_custom_service(u: &UploadConfig) -> (r: UploadService)
    ensures
        is_custom(r, *u),
{
    UploadService::Custom {
        uploader: CustomUploader {
            name: "Custom".to_owned(),
            request_url: u.custom_url.clone(),
            file_form_name: u.custom_form_name.clone(),
            response_url_path: u.custom_response_path.clone(),
        },
    }
}

pub fn build_ftp_service(u: &UploadConfig, opened: OpenedSecrets) -> (r: UploadService)
    ensures
        is_ftp(r, *u, opened),
{
    UploadService::Ftp {
        target: FtpTarget {
            host: u.ftp.host.clone(),
            port: u.ftp.port,
            username: u.ftp.username.clone(),
            password: u.ftp.password_plaintext(opened.ftp_password),
            remote_dir: u.ftp.remote_dir.clone(),
            use_tls: u.ftp.use_tls,
            public_url_template: u.ftp.public_url_template.clone(),
        },
    }
}

pub fn build_sftp_service(u: &UploadConfig, opened: OpenedSecrets) -> (r: UploadService)
    ensures
        is_sftp(r, *u, opened),
{
    UploadService::Sftp {
        target: SftpTarget {
            host: u.sftp.host.clone(),
            port: u.sftp.port,
            username: u.sftp.username.clone(),
            password: u.sftp.password_plaintext(opened.sftp_password),
            remote_dir: u.sftp.remote_dir.clone(),
            public_url_template: u.sftp.public_url_template.clone(),
            private_key_path: u.sftp.private_key_path.clone(),
            private_key_passphrase: u.sftp.private_key_passphrase_plaintext(
                opened.sftp_passphrase,
            ),
        },
    }
}

pub fn build_s3_service(u: &UploadConfig, opened: OpenedSecrets) -> (r: UploadService)
    ensures
        is_s3(r, *u, opened),
{
    UploadService::S3 {
        target: S3Target {
            bucket: u.s3.bucket.clone(),
            region: u.s3.region.clone(),
            endpoint: u.s3.endpoint.clone(),
            access_key_id: u.s3.access_key_id.clone(),
            secret_access_key: u.s3.secret_access_key_plaintext(opened.s3_secret),
            public_url_template: u.s3.public_url_template.clone(),
        },
    }
}

fn build_for(destination: UploadDestination, u: &UploadConfig, opened: OpenedSecrets) -> (r:
    UploadService)
    ensures
        serves(r, destination, *u, opened),
{
    match destination {
        UploadDestination::Imgur => build_imgur_service(u),
        UploadDestination::Custom => build_custom_service(u),
        UploadDestination::Ftp => build_ftp_service(u, opened),
        UploadDestination::Sftp => build_sftp_service(u, opened),
        UploadDestination::S3 => build_s3_service(u, opened),
    }
}

/// The service of an upload: that of the task's own destination, or that of the
/// one in the settings.
pub fn build_upload_service_for_target(
    config: &Config,
    own: Option<TaskUploadTarget>,
    opened: OpenedSecrets,
) -> (r: UploadService)
    ensures
        serves(r, destination_of(config.upload.destination, own), config.upload, opened),
        r is Imgur || r is ImgurWithClientId <==> own == Some(TaskUploadTarget::Imgur) || own is None
            && config.upload.destination == UploadDestination::Imgur,
        r is Custom <==> own == Some(TaskUploadTarget::Custom) || own is None
            && config.upload.destination == UploadDestination::Custom,
        r is Ftp <==> own == Some(TaskUploadTarget::Ftp) || own is None
            && config.upload.destination == UploadDestination::Ftp,
        r is Sftp <==> own == Some(TaskUploadTarget::Sftp) || own is None
            && config.upload.destination == UploadDestination::Sftp,
        r is S3 <==> own == Some(TaskUploadTarget::S3) || own is None && config.upload.destination
            == UploadDestination::S3,
{
    let destination = match own {
        None => config.upload.destination,
        Some(TaskUploadTarget::Imgur) => UploadDestination::Imgur,
        Some(TaskUploadTarget::Custom) => UploadDestination::Custom,
        Some(TaskUploadTarget::Ftp) => UploadDestination::Ftp,
        Some(TaskUploadTarget::Sftp) => UploadDestination::Sftp,
        Some(TaskUploadTarget::S3) => UploadDestination::S3,
    };
    build_for(destination, &config.upload, opened)
}

/// The service of an upload that belongs to no task.
pub fn build_upload_service(config: &Config, opened: OpenedSecrets) -> (r: UploadService)
    ensures
        serves(r, config.upload.destination, config.upload, opened),
{
    build_upload_service_for_target(config, None, opened)
}

// ---- files that may be uploaded --------------------------------------------------------------

/// How large a file may be that is uploaded or saved, in bytes.
pub const MAX_UPLOAD_BYTES: u64 = 104_857_600;

/// Why a file is not uploaded.
#[derive(Clone, Copy, PartialEq, Eq, Structural, Debug)]
pub enum UploadFault {
    NotAFile,
    Outside,
    NoExtension,
    Unsupported,
    TooLarge,
    GifAgain,
    Mp4Again,
}

impl UploadFault {
    /// What is said of the fault of a file with the extension.
    pub open spec fn told(&self, extension: Seq<char>) -> Seq<char> {
        match *self {
            UploadFault::NotAFile => "not a regular file"@,
            UploadFault::Outside => "Path is outside the allowed directories"@,
            UploadFault::NoExtension => "file has no extension; cannot detect type"@,
            UploadFault::Unsupported => "unsupported file type: ."@ + extension,
            UploadFault::TooLarge => "file too large to upload (>100 MB)"@,
            UploadFault::GifAgain => {
                "GIF reupload is not yet supported — open the file manually and upload it from there"@
            },
            UploadFault::Mp4Again => {
                "MP4 reupload is not yet supported — open the file manually and upload it from there"@
            },
        }
    }

    pub fn message(&self, extension: &str) -> (r: String)
        ensures
            r@ == self.told(extension@),
    {
        match *self {
            UploadFault::NotAFile => String::from_str("not a regular file"),
            UploadFault::Outside => String::from_str("Path is outside the allowed directories"),
            UploadFault::NoExtension => String::from_str(
                "file has no extension; cannot detect type",
            ),
            UploadFault::Unsupported => {
                let mut s = String::from_str("unsupported file type: .");
                s.append(extension);
                s
            },
            UploadFault::TooLarge => String::from_str("file too large to upload (>100 MB)"),
            UploadFault::GifAgain => String::from_str(
                "GIF reupload is not yet supported — open the file manually and upload it from there",
            ),
            UploadFault::Mp4Again => String::from_str(
                "MP4 reupload is not yet supported — open the file manually and upload it from there",
            ),
        }
    }
}

/// What kind of file an extension stands for.
pub open spec fn media_type(ext: Seq<char>) -> Option<Seq<char>> {
    if ext == "png"@ {
        Some("image/png"@)
    } else if ext == "jpg"@ || ext == "jpeg"@ {
        Some("image/jpeg"@)
    } else if ext == "gif"@ {
        Some("image/gif"@)
    } else if ext == "webp"@ {
        Some("image/webp"@)
    } else if ext == "bmp"@ {
        Some("image/bmp"@)
    } else if ext == "mp4"@ {
        Some("video/mp4"@)
    } else {
        None
    }
}

fn find_media_type(ext: &str) -> (r: Option<&'static str>)
    ensures
        text::opt(r) == media_type(ext@),
{
    if text::same(ext, "png") {
        Some("image/png")
    } else if text::same(ext, "jpg") || text::same(ext, "jpeg") {
        Some("image/jpeg")
    } else if text::same(ext, "gif") {
        Some("image/gif")
    } else if text::same(ext, "webp") {
        Some("image/webp")
    } else if text::same(ext, "bmp") {
        Some("image/bmp")
    } else if text::same(ext, "mp4") {
        Some("video/mp4")
    } else {
        None
    }
}

/// The extension of a name in lower case.
pub open spec fn lower_extension(name: Seq<char>) -> Seq<char> {
    text::lowercase(paths::extension(name))
}

/// The extension of a name in lower case.
pub fn extension_of(name: &str) -> (r: String)
    ensures
        r@ == lower_extension(name@),
{
    paths::file_extension(name).as_str().to_lowercase()
}

/// Why the file is not uploaded, in the order in which it is looked at.
pub open spec fn upload_fault(
    name: Seq<char>,
    is_file: bool,
    dropped: bool,
    allowed: bool,
    size: u64,
) -> Option<UploadFault> {
    let ext = lower_extension(name);
    if !is_file {
        Some(UploadFault::NotAFile)
    } else if !dropped && !allowed {
        Some(UploadFault::Outside)
    } else if media_type(ext) is None {
        if ext.len() == 0 {
            Some(UploadFault::NoExtension)
        } else {
            Some(UploadFault::Unsupported)
        }
    } else if size > MAX_UPLOAD_BYTES {
        Some(UploadFault::TooLarge)
    } else {
        None
    }
}

/// Whether a file is uploaded, and as what kind. It has to be one that the user
/// dropped on the program, or one of its captures.
pub fn upload_file(name: &str, is_file: bool, dropped: bool, allowed: bool, size: u64) -> (r: Result<
    &'static str,
    UploadFault,
>)
    ensures
        match upload_fault(name@, is_file, dropped, allowed, size) {
            Some(f) => r matches Err(e) && e == f,
            None => r matches Ok(mime) && Some(mime@) == media_type(lower_extension(name@)),
        },
{
    if !is_file {
        return Err(UploadFault::NotAFile);
    }
    if !dropped && !allowed {
        return Err(UploadFault::Outside);
    }
    let ext = extension_of(name);
    proof {
        reveal_strlit("png");
        reveal_strlit("jpg");
        reveal_strlit("jpeg");
        reveal_strlit("gif");
        reveal_strlit("webp");
        reveal_strlit("bmp");
        reveal_strlit("mp4");
    }
    match find_media_type(ext.as_str()) {
        None => if ext.as_str().is_empty() {
            Err(UploadFault::NoExtension)
        } else {
            Err(UploadFault::Unsupported)
        },
        Some(mime) => if size > MAX_UPLOAD_BYTES {
            Err(UploadFault::TooLarge)
        } else {
            Ok(mime)
        },
    }
}

/// A file that the user neither dropped on the program nor captured with it is
/// never uploaded.
pub proof fn lemma_foreign_files_stay(name: Seq<char>, is_file: bool, size: u64)
    ensures
        upload_fault(name, is_file, false, false, size) is Some,
{
}

/// Whether a capture is uploaded once more, and as what kind. Recordings are
/// not; what is no JPEG, WebP or BMP counts as PNG.
pub fn reupload_capture(name: &str, allowed: bool) -> (r: Result<&'static str, UploadFault>)
    ensures
        ({
            let ext = lower_extension(name@);
            if !allowed {
                r matches Err(e) && e == UploadFault::Outside
            } else if ext == "gif"@ {
                r matches Err(e) && e == UploadFault::GifAgain
            } else if ext == "mp4"@ {
                r matches Err(e) && e == UploadFault::Mp4Again
            } else {
                r matches Ok(mime) && mime@ == (if ext == "jpg"@ || ext == "jpeg"@ {
                    "image/jpeg"@
                } else if ext == "webp"@ {
                    "image/webp"@
                } else if ext == "bmp"@ {
                    "image/bmp"@
                } else {
                    "image/png"@
                })
            }
        }),
{
    if !allowed {
        return Err(UploadFault::Outside);
    }
    let ext = extension_of(name);
    if text::same(ext.as_str(), "gif") {
        return Err(UploadFault::GifAgain);
    }
    if text::same(ext.as_str(), "mp4") {
        return Err(UploadFault::Mp4Again);
    }
    Ok(
        if text::same(ext.as_str(), "jpg") || text::same(ext.as_str(), "jpeg") {
            "image/jpeg"
        } else if text::same(ext.as_str(), "webp") {
            "image/webp"
        } else if text::same(ext.as_str(), "bmp") {
            "image/bmp"
        } else {
            "image/png"
        },
    )
}

// ---- outcomes --------------------------------------------------------------------------------

/// What an upload gave.
#[derive(Debug)]
pub struct UploadResponse {
    pub url: String,
    pub delete_url: Option<String>,
}

/// An upload as the windows of the program are told of it.
#[derive(Debug)]
pub struct UploadSuccessPayload {
    pub url: String,
    pub delete_url: Option<String>,
}

/// What follows an upload: what the windows are told, and the address where it
/// goes on the clipboard.
pub fn uploaded(response: &UploadResponse, copy_url_to_clipboard: bool) -> (r: (
    UploadSuccessPayload,
    Option<String>,
))
    ensures
        r.0.url@ == response.url@,
        text::opt_owned(r.0.delete_url) == text::opt_owned(response.delete_url),
        text::opt_owned(r.1) == (if copy_url_to_clipboard {
            Some(response.url@)
        } else {
            None
        }),
{
    let delete_url = match &response.delete_url {
        Some(d) => Some(d.clone()),
        None => None,
    };
    let copied = if copy_url_to_clipboard {
        Some(response.url.clone())
    } else {
        None
    };
    (UploadSuccessPayload { url: response.url.clone(), delete_url }, copied)
}

/// A step of a trial of a connection.
#[derive(Debug)]
pub struct TestStep {
    pub name: String,
    pub ok: bool,
    pub detail: String,
}

/// How a trial of a connection went.
#[derive(Debug)]
pub struct ConnectionTestReport {
    pub destination: String,
    pub overall_ok: bool,
    pub steps: Vec<TestStep>,
}

/// The destination that a name stands for.
pub open spec fn tried_destination(name: Seq<char>) -> Option<UploadDestination> {
    if name == "Ftp"@ || name == "ftp"@ {
        Some(UploadDestination::Ftp)
    } else if name == "Sftp"@ || name == "sftp"@ {
        Some(UploadDestination::Sftp)
    } else if name == "Imgur"@ || name == "imgur"@ {
        Some(UploadDestination::Imgur)
    } else if name == "Custom"@ || name == "custom"@ {
        Some(UploadDestination::Custom)
    } else if name == "S3"@ || name == "s3"@ {
        Some(UploadDestination::S3)
    } else {
        None
    }
}

/// The service that is tried for a destination is its own. The client id of
/// Imgur is tried as the settings hold it: neither trimmed nor replaced.
pub open spec fn is_tried(
    s: UploadService,
    destination: UploadDestination,
    u: UploadConfig,
    o: OpenedSecrets,
) -> bool {
    match destination {
        UploadDestination::Imgur => s matches UploadService::ImgurWithClientId { id } && id@
            == u.imgur_client_id@,
        d => serves(s, d, u, o),
    }
}

/// The service of a connection that is to be tried, or why it cannot be.
pub fn test_upload_connection(destination: &str, config: &Config, opened: OpenedSecrets) -> (r: Result<
    UploadService,
    String,
>)
    ensures
        match tried_destination(destination@) {
            Some(d) => r matches Ok(s) && is_tried(s, d, config.upload, opened),
            None => r matches Err(e) && e@ == "'"@ + destination@
                + "' has no test-connection probe"@,
        },
{
    let d = if text::same(destination, "Ftp") || text::same(destination, "ftp") {
        UploadDestination::Ftp
    } else if text::same(destination, "Sftp") || text::same(destination, "sftp") {
        UploadDestination::Sftp
    } else if text::same(destination, "Imgur") || text::same(destination, "imgur") {
        return Ok(UploadService::ImgurWithClientId { id: config.upload.imgur_client_id.clone() });
    } else if text::same(destination, "Custom") || text::same(destination, "custom") {
        UploadDestination::Custom
    } else if text::same(destination, "S3") || text::same(destination, "s3") {
        UploadDestination::S3
    } else {
        let mut s = String::from_str("'");
        s.append(destination);
        s.append("' has no test-connection probe");
        return Err(s);
    };
    Ok(build_for(d, &config.upload, opened))
}

/// Every step went well, and there was one.
pub open spec fn all_well(steps: Seq<TestStep>) -> bool {
    steps.len() > 0 && forall|i: int| 0 <= i < steps.len() ==> (#[trigger] steps[i]).ok
}

/// The report of a trial: it went well where there were steps and each went
/// well.
pub fn report_connection(destination: String, steps: Vec<TestStep>) -> (r: ConnectionTestReport)
    ensures
        r.destination == destination,
        r.steps == steps,
        r.overall_ok == all_well(steps@),
{
    let mut ok = steps.len() > 0;
    for i in 0..steps.len()
        invariant
            ok == (steps@.len() > 0 && forall|k: int|
                0 <= k < i ==> (#[trigger] steps@[k]).ok),
    {
        if !steps[i].ok {
            ok = false;
        }
    }
    ConnectionTestReport { destination, overall_ok: ok, steps }
}

// ---- laws --------------------------------------------------------------------------------------

/// A task's own target decides the kind of service, and where it has none the
/// settings do: each kind comes of its own target and of no other.
pub proof fn lemma_target_decides_the_service(
    config: &Config,
    own: Option<TaskUploadTarget>,
    opened: OpenedSecrets,
    r: UploadService,
)
    requires
        call_ensures(build_upload_service_for_target, (config, own, opened), r),
    ensures
        r is Imgur || r is ImgurWithClientId <==> own == Some(TaskUploadTarget::Imgur) || own is None
            && config.upload.destination == UploadDestination::Imgur,
        r is Custom <==> own == Some(TaskUploadTarget::Custom) || own is None
            && config.upload.destination == UploadDestination::Custom,
        r is Ftp <==> own == Some(TaskUploadTarget::Ftp) || own is None
            && config.upload.destination == UploadDestination::Ftp,
        r is Sftp <==> own == Some(TaskUploadTarget::Sftp) || own is None
            && config.upload.destination == UploadDestination::Sftp,
        r is S3 <==> own == Some(TaskUploadTarget::S3) || own is None && config.upload.destination
            == UploadDestination::S3,
{
}

/// The two services are of one kind.
pub open spec fn same_kind(a: UploadService, b: UploadService) -> bool {
    ||| (a is Imgur || a is ImgurWithClientId) && (b is Imgur || b is ImgurWithClientId)
    ||| a is Custom && b is Custom
    ||| a is Ftp && b is Ftp
    ||| a is Sftp && b is Sftp
    ||| a is S3 && b is S3
}

/// Tasks with different targets of their own never upload to one kind of
/// service, whatever the settings say.
pub proof fn lemma_targets_stay_apart(
    config: &Config,
    a: TaskUploadTarget,
    b: TaskUploadTarget,
    o: OpenedSecrets,
    p: OpenedSecrets,
    r: UploadService,
    s: UploadService,
)
    requires
        call_ensures(build_upload_service_for_target, (config, Some(a), o), r),
        call_ensures(build_upload_service_for_target, (config, Some(b), p), s),
    ensures
        same_kind(r, s) <==> a == b,
{
}

/// A task without a target of its own uploads as one that belongs to no task
/// does: to the destination of the settings.
pub proof fn lemma_settings_serve_the_rest(config: &Config, opened: OpenedSecrets, r: UploadService)
    requires
        call_ensures(build_upload_service, (config, opened), r),
    ensures
        r is Imgur || r is ImgurWithClientId <==> config.upload.destination
            == UploadDestination::Imgur,
        r is Custom <==> config.upload.destination == UploadDestination::Custom,
        r is Ftp <==> config.upload.destination == UploadDestination::Ftp,
        r is Sftp <==> config.upload.destination == UploadDestination::Sftp,
        r is S3 <==> config.upload.destination == UploadDestination::S3,
{
}

/// What is uploaded goes where the settings of its service say, and to no other
/// place: the address, the form field and the path of the answer of the custom
/// uploader; the host, the port, the user and the directory of FTP and SFTP; the
/// bucket, the region and the endpoint of S3.
pub proof fn lemma_service_has_its_own_settings(
    config: &Config,
    own: Option<TaskUploadTarget>,
    opened: OpenedSecrets,
    r: UploadService,
)
    requires
        call_ensures(build_upload_service_for_target, (config, own, opened), r),
    ensures
        r matches UploadService::Custom { uploader } ==> uploader.request_url@
            == config.upload.custom_url@ && uploader.file_form_name@
            == config.upload.custom_form_name@ && uploader.response_url_path@
            == config.upload.custom_response_path@,
        r matches UploadService::Ftp { target } ==> target.host@ == config.upload.ftp.host@
            && target.port == config.upload.ftp.port && target.username@
            == config.upload.ftp.username@ && target.remote_dir@ == config.upload.ftp.remote_dir@
            && target.use_tls == config.upload.ftp.use_tls && target.public_url_template@
            == config.upload.ftp.public_url_template@,
        r matches UploadService::Sftp { target } ==> target.host@ == config.upload.sftp.host@
            && target.port == config.upload.sftp.port && target.username@
            == config.upload.sftp.username@ && target.remote_dir@ == config.upload.sftp.remote_dir@
            && target.private_key_path@ == config.upload.sftp.private_key_path@
            && target.public_url_template@ == config.upload.sftp.public_url_template@,
        r matches UploadService::S3 { target } ==> target.bucket@ == config.upload.s3.bucket@
            && target.region@ == config.upload.s3.region@ && target.endpoint@
            == config.upload.s3.endpoint@ && target.access_key_id@
            == config.upload.s3.access_key_id@ && target.public_url_template@
            == config.upload.s3.public_url_template@,
{
}

/// Every service is given its own secret and no other: what was sealed where it
/// opened, and else what stands in the clear.
pub proof fn lemma_service_has_its_own_secret(
    config: &Config,
    own: Option<TaskUploadTarget>,
    opened: OpenedSecrets,
    r: UploadService,
)
    requires
        call_ensures(build_upload_service_for_target, (config, own, opened), r),
    ensures
        r matches UploadService::Ftp { target } ==> target.password@ == (
        if config.upload.ftp.password_encrypted@.len() > 0 && opened.ftp_password is Some {
            opened.ftp_password->0@
        } else {
            config.upload.ftp.password@
        }),
        r matches UploadService::Sftp { target } ==> target.password@ == (
        if config.upload.sftp.password_encrypted@.len() > 0 && opened.sftp_password is Some {
            opened.sftp_password->0@
        } else {
            config.upload.sftp.password@
        }) && target.private_key_passphrase@ == (
        if config.upload.sftp.private_key_passphrase_encrypted@.len() > 0
            && opened.sftp_passphrase is Some {
            opened.sftp_passphrase->0@
        } else {
            config.upload.sftp.private_key_passphrase@
        }),
        r matches UploadService::S3 { target } ==> target.secret_access_key@ == (
        if config.upload.s3.secret_access_key_encrypted@.len() > 0 && opened.s3_secret is Some {
            opened.s3_secret->0@
        } else {
            config.upload.s3.secret_access_key@
        }),
{
}

/// Imgur gets a client id of the user's own exactly where the settings hold one
/// that is neither blank nor the built-in one, and then without the blanks
/// around it.
pub proof fn lemma_own_client_id_is_used(u: &UploadConfig, r: UploadService)
    requires
        call_ensures(build_imgur_service, (u,), r),
    ensures
        r is Imgur <==> text::trim(u.imgur_client_id@).len() == 0 || text::trim(u.imgur_client_id@)
            == "546c25a59c58ad7"@,
        !(r is Imgur) ==> (r matches UploadService::ImgurWithClientId { id } && id@ == text::trim(
            u.imgur_client_id@,
        )),
{
}

/// A connection is tried with the kind of service that its name says.
pub proof fn lemma_name_decides_what_is_tried(
    destination: &str,
    config: &Config,
    opened: OpenedSecrets,
    r: Result<UploadService, String>,
)
    requires
        call_ensures(test_upload_connection, (destination, config, opened), r),
    ensures
        text::ascii_lower_all(destination@) == "ftp"@ && r is Ok ==> r->Ok_0 is Ftp,
        text::ascii_lower_all(destination@) == "sftp"@ && r is Ok ==> r->Ok_0 is Sftp,
        text::ascii_lower_all(destination@) == "imgur"@ && r is Ok ==> r->Ok_0 is ImgurWithClientId,
        text::ascii_lower_all(destination@) == "custom"@ && r is Ok ==> r->Ok_0 is Custom,
        text::ascii_lower_all(destination@) == "s3"@ && r is Ok ==> r->Ok_0 is S3,
        destination@ == "ftp"@ || destination@ == "sftp"@ || destination@ == "imgur"@ || destination@
            == "custom"@ || destination@ == "s3"@ ==> r is Ok,
{
    reveal_strlit("Ftp");
    reveal_strlit("ftp");
    reveal_strlit("Sftp");
    reveal_strlit("sftp");
    reveal_strlit("Imgur");
    reveal_strlit("imgur");
    reveal_strlit("Custom");
    reveal_strlit("custom");
    reveal_strlit("S3");
    reveal_strlit("s3");
    let low = text::ascii_lower_all(destination@);
    assert(low.len() == destination@.len());
    assert(destination@ == "Ftp"@ || destination@ == "ftp"@ ==> low[0] == 'f');
    assert(destination@ == "S3"@ || destination@ == "s3"@ ==> low.len() == 2);
    assert(destination@ == "Sftp"@ || destination@ == "sftp"@ ==> low.len() == 4);
    assert(destination@ == "Imgur"@ || destination@ == "imgur"@ ==> low.len() == 5);
    assert(destination@ == "Custom"@ || destination@ == "custom"@ ==> low.len() == 6);
}

/// A file is uploaded as the kind that its extension says, and only where its
/// kind is one of a capture: an image as an image, a recording as a video.
pub proof fn lemma_files_are_sent_as_what_they_are(
    name: &str,
    is_file: bool,
    dropped: bool,
    allowed: bool,
    size: u64,
    r: Result<&'static str, UploadFault>,
)
    requires
        call_ensures(upload_file, (name, is_file, dropped, allowed, size), r),
    ensures
        r is Ok ==> is_file && (dropped || allowed) && size <= 100 * 1024 * 1024,
        r matches Ok(mime) ==> {
            let ext = text::lowercase(paths::extension(name@));
            ||| ext == "jpg"@ && mime@ == "image/jpeg"@
            ||| mime@ == "image/"@ + ext && ext != "jpg"@ && ext != "mp4"@
            ||| mime@ == "video/"@ + ext && ext == "mp4"@
        },
        is_file && (dropped || allowed) && size <= 100 * 1024 * 1024 && text::lowercase(
            paths::extension(name@),
        ) == "png"@ ==> r is Ok,
{
    reveal_strlit("png");
    reveal_strlit("jpg");
    reveal_strlit("jpeg");
    reveal_strlit("gif");
    reveal_strlit("webp");
    reveal_strlit("bmp");
    reveal_strlit("mp4");
    reveal_strlit("image/");
    reveal_strlit("video/");
    reveal_strlit("image/png");
    reveal_strlit("image/jpeg");
    reveal_strlit("image/gif");
    reveal_strlit("image/webp");
    reveal_strlit("image/bmp");
    reveal_strlit("video/mp4");
    assert("image/"@ + "png"@ =~= "image/png"@);
    assert("image/"@ + "jpeg"@ =~= "image/jpeg"@);
    assert("image/"@ + "gif"@ =~= "image/gif"@);
    assert("image/"@ + "webp"@ =~= "image/webp"@);
    assert("image/"@ + "bmp"@ =~= "image/bmp"@);
    assert("video/"@ + "mp4"@ =~= "video/mp4"@);
    assert("png"@[0] != "jpg"@[0]);
    assert("mp4"@[0] != "jpg"@[0]);
    assert("png"@[0] != "mp4"@[0]);
    assert("gif"@[0] != "mp4"@[0] && "bmp"@[0] != "mp4"@[0]);
    assert("gif"@[0] != "jpg"@[0] && "bmp"@[0] != "jpg"@[0]);
    assert("webp"@.len() == 4 && "jpeg"@.len() == 4);
}

/// What is uploaded once more is sent as what its extension says; what is
/// neither JPEG, WebP nor BMP counts as PNG, and a recording is refused.
pub proof fn lemma_captures_are_sent_again_as_what_they_are(
    name: &str,
    allowed: bool,
    r: Result<&'static str, UploadFault>,
)
    requires
        call_ensures(reupload_capture, (name, allowed), r),
    ensures
        ({
            let ext = text::lowercase(paths::extension(name@));
            &&& r is Ok <==> allowed && ext != "gif"@ && ext != "mp4"@
            &&& r matches Ok(mime) ==> mime@ == "image/png"@ || mime@ == "image/"@ + ext || ext
                == "jpg"@ && mime@ == "image/jpeg"@
            &&& r is Ok && (ext == "jpeg"@ || ext == "webp"@ || ext == "bmp"@) ==> r->Ok_0@
                == "image/"@ + ext
            &&& r is Ok && ext == "jpg"@ ==> r->Ok_0@ == "image/jpeg"@
        }),
{
    reveal_strlit("png");
    reveal_strlit("jpg");
    reveal_strlit("jpeg");
    reveal_strlit("gif");
    reveal_strlit("webp");
    reveal_strlit("bmp");
    reveal_strlit("mp4");
    reveal_strlit("image/");
    reveal_strlit("image/png");
    reveal_strlit("image/jpeg");
    reveal_strlit("image/webp");
    reveal_strlit("image/bmp");
    assert("image/"@ + "jpeg"@ =~= "image/jpeg"@);
    assert("image/"@ + "webp"@ =~= "image/webp"@);
    assert("image/"@ + "bmp"@ =~= "image/bmp"@);
    assert("jpg"@[0] != "gif"@[0] && "bmp"@[0] != "gif"@[0] && "jpg"@[0] != "mp4"@[0]);
    assert("webp"@[0] != "jpeg"@[0] && "jpg"@[0] != "bmp"@[0]);
}

/// Plain FTP is never sent to, and everything else is.
pub proof fn lemma_only_plain_ftp_is_held_back(s: &UploadService, r: bool)
    requires
        call_ensures(UploadService::may_send, (s,), r),
    ensures
        !r ==> *s is Ftp,
        *s matches UploadService::Ftp { target } ==> r == target.use_tls,
{
}

} // verus!
