//! Secrets in the settings: each stands in the clear only until it is sealed,
//! and a sealed one is kept when the settings come back without it.

use vstd::prelude::*;

use crate::config::rules::ConfigFault;
use crate::config::Config;
use crate::config::FtpUploadConfig;
use crate::config::S3UploadConfig;
use crate::config::SftpUploadConfig;
use crate::config::UploadConfig;
use crate::text;

verus! {

// ---- reading -------------------------------------------------------------------------------

/// The secret to use: what the sealed one opened to, or else the one in the
/// clear.
pub open spec fn secret(clear: Seq<char>, sealed: Seq<char>, opened: Option<Seq<char>>) -> Seq<
    char,
> {
    match opened {
        Some(s) => if sealed.len() > 0 {
            s
        } else {
            clear
        },
        None => clear,
    }
}

fn pick_secret(clear: &String, sealed: &String, opened: Option<String>) -> (r: String)
    ensures
        r@ == secret(clear@, sealed@, text::opt_owned(opened)),
{
    if !sealed.as_str().is_empty() {
        if let Some(s) = opened {
            return s;
        }
    }
    clear.clone()
}

impl FtpUploadConfig {
    /// The password, given what the sealed one opened to, where it opened.
    pub fn password_plaintext(&self, opened: Option<String>) -> (r: String)
        ensures
            r@ == secret(self.password@, self.password_encrypted@, text::opt_owned(opened)),
    {
        pick_secret(&self.password, &self.password_encrypted, opened)
    }
}

impl SftpUploadConfig {
    /// The password, given what the sealed one opened to, where it opened.
    pub fn password_plaintext(&self, opened: Option<String>) -> (r: String)
        ensures
            r@ == secret(self.password@, self.password_encrypted@, text::opt_owned(opened)),
    {
        pick_secret(&self.password, &self.password_encrypted, opened)
    }

    /// The passphrase of the key, given what the sealed one opened to, where it
    /// opened.
    pub fn private_key_passphrase_plaintext(&self, opened: Option<String>) -> (r: String)
        ensures
            r@ == secret(
                self.private_key_passphrase@,
                self.private_key_passphrase_encrypted@,
                text::opt_owned(opened),
            ),
    {
        pick_secret(&self.private_key_passphrase, &self.private_key_passphrase_encrypted, opened)
    }
}

impl S3UploadConfig {
    /// The secret key, given what the sealed one opened to, where it opened.
    pub fn secret_access_key_plaintext(&self, opened: Option<String>) -> (r: String)
        ensures
            r@ == secret(
                self.secret_access_key@,
                self.secret_access_key_encrypted@,
                text::opt_owned(opened),
            ),
    {
        pick_secret(&self.secret_access_key, &self.secret_access_key_encrypted, opened)
    }
}

// ---- sealing -------------------------------------------------------------------------------

/// A secret stands in the clear and was never sealed.
pub open spec fn unsealed(clear: Seq<char>, sealed: Seq<char>) -> bool {
    clear.len() > 0 && sealed.len() == 0
}

fn is_unsealed(clear: &String, sealed: &String) -> (r: bool)
    ensures
        r == unsealed(clear@, sealed@),
{
    !clear.as_str().is_empty() && sealed.as_str().is_empty()
}

/// A place for a secret, after what it was sealed to was handed in: a secret in
/// the clear takes the place of one that was sealed before.
pub open spec fn seal_step(
    clear: String,
    sealed: String,
    blob: Option<String>,
    clear_after: String,
    sealed_after: String,
) -> bool {
    match blob {
        Some(b) => if clear@.len() > 0 {
            clear_after@.len() == 0 && sealed_after == b
        } else {
            clear_after == clear && sealed_after == sealed
        },
        None => clear_after == clear && sealed_after == sealed,
    }
}

fn seal(clear: &mut String, sealed: &mut String, blob: Option<String>)
    ensures
        seal_step(*old(clear), *old(sealed), blob, *final(clear), *final(sealed)),
{
    if !clear.as_str().is_empty() {
        if let Some(b) = blob {
            *sealed = b;
            *clear = String::new();
        }
    }
}

/// What each secret that stands in the clear was sealed to. One that could not
/// be sealed is missing.
#[derive(Debug)]
pub struct SealedSecrets {
    pub ftp_password: Option<String>,
    pub sftp_password: Option<String>,
    pub sftp_passphrase: Option<String>,
    pub s3_secret: Option<String>,
}

impl SealedSecrets {
    /// Every secret was sealed.
    pub open spec fn complete(&self) -> bool {
        self.ftp_password is Some && self.sftp_password is Some && self.sftp_passphrase is Some
            && self.s3_secret is Some
    }
}

/// `r` is `u` after its secrets were sealed.
pub open spec fn migrated(u: UploadConfig, s: SealedSecrets, r: UploadConfig) -> bool {
    &&& r == (UploadConfig { ftp: r.ftp, sftp: r.sftp, s3: r.s3, ..u })
    &&& r.ftp == (FtpUploadConfig {
        password: r.ftp.password,
        password_encrypted: r.ftp.password_encrypted,
        ..u.ftp
    })
    &&& r.sftp == (SftpUploadConfig {
        password: r.sftp.password,
        password_encrypted: r.sftp.password_encrypted,
        private_key_passphrase: r.sftp.private_key_passphrase,
        private_key_passphrase_encrypted: r.sftp.private_key_passphrase_encrypted,
        ..u.sftp
    })
    &&& r.s3 == (S3UploadConfig {
        secret_access_key: r.s3.secret_access_key,
        secret_access_key_encrypted: r.s3.secret_access_key_encrypted,
        ..u.s3
    })
    &&& seal_step(
        u.ftp.password,
        u.ftp.password_encrypted,
        s.ftp_password,
        r.ftp.password,
        r.ftp.password_encrypted,
    )
    &&& seal_step(
        u.sftp.password,
        u.sftp.password_encrypted,
        s.sftp_password,
        r.sftp.password,
        r.sftp.password_encrypted,
    )
    &&& seal_step(
        u.sftp.private_key_passphrase,
        u.sftp.private_key_passphrase_encrypted,
        s.sftp_passphrase,
        r.sftp.private_key_passphrase,
        r.sftp.private_key_passphrase_encrypted,
    )
    &&& seal_step(
        u.s3.secret_access_key,
        u.s3.secret_access_key_encrypted,
        s.s3_secret,
        r.s3.secret_access_key,
        r.s3.secret_access_key_encrypted,
    )
}

/// A secret stands in the clear and was never sealed.
pub open spec fn has_unsealed(u: UploadConfig) -> bool {
    ||| unsealed(u.ftp.password@, u.ftp.password_encrypted@)
    ||| unsealed(u.sftp.password@, u.sftp.password_encrypted@)
    ||| unsealed(u.sftp.private_key_passphrase@, u.sftp.private_key_passphrase_encrypted@)
    ||| unsealed(u.s3.secret_access_key@, u.s3.secret_access_key_encrypted@)
}

/// A secret stands in the clear.
pub open spec fn has_clear(u: UploadConfig) -> bool {
    ||| u.ftp.password@.len() > 0
    ||| u.sftp.password@.len() > 0
    ||| u.sftp.private_key_passphrase@.len() > 0
    ||| u.s3.secret_access_key@.len() > 0
}

/// Each secret that was sealed does not stand in the clear.
pub open spec fn sealed_is_cleared(s: SealedSecrets, u: UploadConfig) -> bool {
    &&& s.ftp_password is Some ==> u.ftp.password@.len() == 0
    &&& s.sftp_password is Some ==> u.sftp.password@.len() == 0
    &&& s.sftp_passphrase is Some ==> u.sftp.private_key_passphrase@.len() == 0
    &&& s.s3_secret is Some ==> u.s3.secret_access_key@.len() == 0
}

fn seal_ftp(f: &mut FtpUploadConfig, blob: Option<String>)
    ensures
        *final(f) == (FtpUploadConfig {
            password: final(f).password,
            password_encrypted: final(f).password_encrypted,
            ..*old(f)
        }),
        seal_step(
            old(f).password,
            old(f).password_encrypted,
            blob,
            final(f).password,
            final(f).password_encrypted,
        ),
{
    seal(&mut f.password, &mut f.password_encrypted, blob);
}

fn seal_sftp(f: &mut SftpUploadConfig, password: Option<String>, passphrase: Option<String>)
    ensures
        *final(f) == (SftpUploadConfig {
            password: final(f).password,
            password_encrypted: final(f).password_encrypted,
            private_key_passphrase: final(f).private_key_passphrase,
            private_key_passphrase_encrypted: final(f).private_key_passphrase_encrypted,
            ..*old(f)
        }),
        seal_step(
            old(f).password,
            old(f).password_encrypted,
            password,
            final(f).password,
            final(f).password_encrypted,
        ),
        seal_step(
            old(f).private_key_passphrase,
            old(f).private_key_passphrase_encrypted,
            passphrase,
            final(f).private_key_passphrase,
            final(f).private_key_passphrase_encrypted,
        ),
{
    seal(&mut f.password, &mut f.password_encrypted, password);
    seal(&mut f.private_key_passphrase, &mut f.private_key_passphrase_encrypted, passphrase);
}

fn seal_s3(f: &mut S3UploadConfig, blob: Option<String>)
    ensures
        *final(f) == (S3UploadConfig {
            secret_access_key: final(f).secret_access_key,
            secret_access_key_encrypted: final(f).secret_access_key_encrypted,
            ..*old(f)
        }),
        seal_step(
            old(f).secret_access_key,
            old(f).secret_access_key_encrypted,
            blob,
            final(f).secret_access_key,
            final(f).secret_access_key_encrypted,
        ),
{
    seal(&mut f.secret_access_key, &mut f.secret_access_key_encrypted, blob);
}

fn seal_all(u: &mut UploadConfig, sealed: SealedSecrets)
    ensures
        migrated(*old(u), sealed, *final(u)),
{
    seal_ftp(&mut u.ftp, sealed.ftp_password);
    seal_sftp(&mut u.sftp, sealed.sftp_password, sealed.sftp_passphrase);
    seal_s3(&mut u.s3, sealed.s3_secret);
}

impl Config {
    /// Whether a secret stands in the clear that was never sealed.
    pub fn needs_secret_migration(&self) -> (r: bool)
        ensures
            r == has_unsealed(self.upload),
    {
        let u = &self.upload;
        is_unsealed(&u.ftp.password, &u.ftp.password_encrypted) || is_unsealed(
            &u.sftp.password,
            &u.sftp.password_encrypted,
        ) || is_unsealed(
            &u.sftp.private_key_passphrase,
            &u.sftp.private_key_passphrase_encrypted,
        ) || is_unsealed(&u.s3.secret_access_key, &u.s3.secret_access_key_encrypted)
    }

    /// Puts what each secret was sealed to in the place of the one that stands
    /// in the clear. A secret that could not be sealed stays as it is.
    pub fn migrate_secrets(&mut self, sealed: SealedSecrets)
        ensures
            migrated(old(self).upload, sealed, final(self).upload),
            sealed_is_cleared(sealed, final(self).upload),
            *final(self) == (Config { upload: final(self).upload, ..*old(self) }),
    {
        seal_all(&mut self.upload, sealed);
    }
}

impl Config {
    /// The settings as they are written: only where they have no fault, and with
    /// their secrets sealed. No secret that was sealed is written in the clear.
    pub fn save(self, sealed: SealedSecrets) -> (r: Result<Config, ConfigFault>)
        ensures
            match self.fault() {
                Some(f) => r matches Err(e) && e == f,
                None => r matches Ok(c) && migrated(self.upload, sealed, c.upload)
                    && sealed_is_cleared(sealed, c.upload) && c == (Config {
                    upload: c.upload,
                    ..self
                }),
            },
    {
        match self.validate() {
            Err(f) => Err(f),
            Ok(()) => {
                let mut c = self;
                c.migrate_secrets(sealed);
                Ok(c)
            },
        }
    }
}

/// Settings without a fault have none after their secrets were sealed, so what
/// is written can be read again.
pub proof fn lemma_sealing_adds_no_fault(c: Config, sealed: SealedSecrets, r: Config)
    requires
        c.fault() is None,
        migrated(c.upload, sealed, r.upload),
        r == (Config { upload: r.upload, ..c }),
    ensures
        r.fault() is None,
{
}

/// Once every secret was sealed, sealing again changes nothing, whatever is
/// handed in.
pub proof fn lemma_migration_is_idempotent(
    u: UploadConfig,
    s: SealedSecrets,
    once: UploadConfig,
    t: SealedSecrets,
    twice: UploadConfig,
)
    requires
        s.complete(),
        migrated(u, s, once),
        migrated(once, t, twice),
    ensures
        twice == once,
{
}

/// Once every secret was sealed, none stands in the clear, whatever stood sealed
/// beside it before.
pub proof fn lemma_migration_leaves_nothing_in_the_clear(
    u: UploadConfig,
    s: SealedSecrets,
    r: UploadConfig,
)
    requires
        s.complete(),
        migrated(u, s, r),
    ensures
        !has_clear(r),
{
}

/// A secret that was sealed before stays as it is where no new one stands in the
/// clear.
pub proof fn lemma_migration_keeps_what_is_sealed(
    u: UploadConfig,
    s: SealedSecrets,
    r: UploadConfig,
)
    requires
        migrated(u, s, r),
    ensures
        u.ftp.password@.len() == 0 ==> r.ftp == u.ftp,
        u.sftp.password@.len() == 0 ==> r.sftp.password_encrypted == u.sftp.password_encrypted,
        u.sftp.private_key_passphrase@.len() == 0 ==> r.sftp.private_key_passphrase_encrypted
            == u.sftp.private_key_passphrase_encrypted,
        u.s3.secret_access_key@.len() == 0 ==> r.s3 == u.s3,
{
}

// ---- keeping -------------------------------------------------------------------------------

/// The sealed secret to keep: the stored one where the settings came back with
/// neither a secret nor a sealed one.
pub open spec fn kept(clear: Seq<char>, sealed: String, stored: String) -> String {
    if clear.len() == 0 && sealed@.len() == 0 && stored@.len() > 0 {
        stored
    } else {
        sealed
    }
}

fn keep(clear: &String, sealed: &mut String, stored: &String)
    ensures
        *final(sealed) == kept(clear@, *old(sealed), *stored),
{
    if clear.as_str().is_empty() && sealed.as_str().is_empty() && !stored.as_str().is_empty() {
        *sealed = stored.clone();
    }
}

/// `u` with the sealed secrets that are kept from `stored`.
pub open spec fn with_kept_secrets(u: UploadConfig, stored: UploadConfig) -> UploadConfig {
    UploadConfig {
        ftp: FtpUploadConfig {
            password_encrypted: kept(
                u.ftp.password@,
                u.ftp.password_encrypted,
                stored.ftp.password_encrypted,
            ),
            ..u.ftp
        },
        sftp: SftpUploadConfig {
            password_encrypted: kept(
                u.sftp.password@,
                u.sftp.password_encrypted,
                stored.sftp.password_encrypted,
            ),
            private_key_passphrase_encrypted: kept(
                u.sftp.private_key_passphrase@,
                u.sftp.private_key_passphrase_encrypted,
                stored.sftp.private_key_passphrase_encrypted,
            ),
            ..u.sftp
        },
        s3: S3UploadConfig {
            secret_access_key_encrypted: kept(
                u.s3.secret_access_key@,
                u.s3.secret_access_key_encrypted,
                stored.s3.secret_access_key_encrypted,
            ),
            ..u.s3
        },
        ..u
    }
}

impl UploadConfig {
    /// Keeps each sealed secret that the settings came back without. An empty
    /// field means that the stored one stays.
    pub fn keep_stored_secrets(&mut self, stored: &UploadConfig)
        ensures
            *final(self) == with_kept_secrets(*old(self), *stored),
    {
        keep(&self.ftp.password, &mut self.ftp.password_encrypted, &stored.ftp.password_encrypted);
        keep(
            &self.sftp.password,
            &mut self.sftp.password_encrypted,
            &stored.sftp.password_encrypted,
        );
        keep(
            &self.sftp.private_key_passphrase,
            &mut self.sftp.private_key_passphrase_encrypted,
            &stored.sftp.private_key_passphrase_encrypted,
        );
        keep(
            &self.s3.secret_access_key,
            &mut self.s3.secret_access_key_encrypted,
            &stored.s3.secret_access_key_encrypted,
        );
    }
}

/// Settings that come back with every secret field empty keep every stored
/// secret.
pub proof fn lemma_empty_fields_keep_the_vault(u: UploadConfig, stored: UploadConfig)
    requires
        u.ftp.password@.len() == 0 && u.ftp.password_encrypted@.len() == 0,
        u.sftp.password@.len() == 0 && u.sftp.password_encrypted@.len() == 0,
        u.sftp.private_key_passphrase@.len() == 0
            && u.sftp.private_key_passphrase_encrypted@.len() == 0,
        u.s3.secret_access_key@.len() == 0 && u.s3.secret_access_key_encrypted@.len() == 0,
    ensures
        with_kept_secrets(u, stored).ftp.password_encrypted@ == stored.ftp.password_encrypted@,
        with_kept_secrets(u, stored).sftp.password_encrypted@ == stored.sftp.password_encrypted@,
        with_kept_secrets(u, stored).sftp.private_key_passphrase_encrypted@
            == stored.sftp.private_key_passphrase_encrypted@,
        with_kept_secrets(u, stored).s3.secret_access_key_encrypted@
            == stored.s3.secret_access_key_encrypted@,
{
}

// ---- laws --------------------------------------------------------------------------------------

/// What a secret was sealed to goes to the place of that secret, and the secret
/// itself goes from there.
pub proof fn lemma_each_secret_is_sealed_in_its_place(
    u: UploadConfig,
    s: SealedSecrets,
    r: UploadConfig,
)
    requires
        migrated(u, s, r),
    ensures
        u.ftp.password@.len() > 0 ==> (s.ftp_password matches Some(b) ==> r.ftp.password_encrypted
            == b && r.ftp.password@.len() == 0),
        u.sftp.password@.len() > 0 ==> (s.sftp_password matches Some(b) ==> r.sftp.password_encrypted
            == b && r.sftp.password@.len() == 0),
        u.sftp.private_key_passphrase@.len() > 0 ==> (s.sftp_passphrase matches Some(b)
            ==> r.sftp.private_key_passphrase_encrypted == b
            && r.sftp.private_key_passphrase@.len() == 0),
        u.s3.secret_access_key@.len() > 0 ==> (s.s3_secret matches Some(b)
            ==> r.s3.secret_access_key_encrypted == b && r.s3.secret_access_key@.len() == 0),
{
}

/// A secret that could not be sealed stays in the clear, so that it is not lost.
pub proof fn lemma_unsealed_secret_is_not_lost(u: UploadConfig, s: SealedSecrets, r: UploadConfig)
    requires
        migrated(u, s, r),
    ensures
        s.ftp_password is None ==> r.ftp == u.ftp,
        s.sftp_password is None ==> r.sftp.password == u.sftp.password && r.sftp.password_encrypted
            == u.sftp.password_encrypted,
        s.sftp_passphrase is None ==> r.sftp.private_key_passphrase == u.sftp.private_key_passphrase
            && r.sftp.private_key_passphrase_encrypted == u.sftp.private_key_passphrase_encrypted,
        s.s3_secret is None ==> r.s3 == u.s3,
{
}

/// Sealing touches nothing but secrets.
pub proof fn lemma_sealing_touches_only_secrets(u: UploadConfig, s: SealedSecrets, r: UploadConfig)
    requires
        migrated(u, s, r),
    ensures
        r.destination == u.destination,
        r.custom_url == u.custom_url,
        r.custom_form_name == u.custom_form_name,
        r.custom_response_path == u.custom_response_path,
        r.imgur_client_id == u.imgur_client_id,
        r.ftp.host == u.ftp.host && r.ftp.port == u.ftp.port && r.ftp.username == u.ftp.username,
        r.ftp.use_tls == u.ftp.use_tls && r.ftp.remote_dir == u.ftp.remote_dir,
        r.sftp.host == u.sftp.host && r.sftp.port == u.sftp.port && r.sftp.username
            == u.sftp.username,
        r.sftp.private_key_path == u.sftp.private_key_path && r.sftp.remote_dir
            == u.sftp.remote_dir,
        r.s3.bucket == u.s3.bucket && r.s3.region == u.s3.region && r.s3.access_key_id
            == u.s3.access_key_id,
{
}

/// A password that was sealed and is opened again is the password, whatever was
/// sealed in its place before.
pub proof fn lemma_sealed_password_reads_back(
    u: UploadConfig,
    s: SealedSecrets,
    r: UploadConfig,
    opened: Option<String>,
    read: String,
)
    requires
        migrated(u, s, r),
        u.ftp.password@.len() > 0,
        s.ftp_password matches Some(b) ==> b@.len() > 0,
        s.ftp_password is Some ==> (opened matches Some(o) && o@ == u.ftp.password@),
        s.ftp_password is None ==> opened is None,
        call_ensures(FtpUploadConfig::password_plaintext, (&r.ftp, opened), read),
    ensures
        read@ == u.ftp.password@,
{
}

/// Every secret is read from its own place: what the sealed one opened to, or
/// the one in the clear where nothing is sealed or it did not open.
pub proof fn lemma_secrets_are_read_from_their_places(
    u: UploadConfig,
    opened: Option<String>,
    ftp: String,
    sftp: String,
    phrase: String,
    key: String,
)
    requires
        call_ensures(FtpUploadConfig::password_plaintext, (&u.ftp, opened), ftp),
        call_ensures(SftpUploadConfig::password_plaintext, (&u.sftp, opened), sftp),
        call_ensures(
            SftpUploadConfig::private_key_passphrase_plaintext,
            (&u.sftp, opened),
            phrase,
        ),
        call_ensures(S3UploadConfig::secret_access_key_plaintext, (&u.s3, opened), key),
    ensures
        opened is None || u.ftp.password_encrypted@.len() == 0 ==> ftp@ == u.ftp.password@,
        opened is None || u.sftp.password_encrypted@.len() == 0 ==> sftp@ == u.sftp.password@,
        opened is None || u.sftp.private_key_passphrase_encrypted@.len() == 0 ==> phrase@
            == u.sftp.private_key_passphrase@,
        opened is None || u.s3.secret_access_key_encrypted@.len() == 0 ==> key@
            == u.s3.secret_access_key@,
        opened matches Some(o) ==> {
            &&& u.ftp.password_encrypted@.len() > 0 ==> ftp@ == o@
            &&& u.sftp.password_encrypted@.len() > 0 ==> sftp@ == o@
            &&& u.sftp.private_key_passphrase_encrypted@.len() > 0 ==> phrase@ == o@
            &&& u.s3.secret_access_key_encrypted@.len() > 0 ==> key@ == o@
        },
{
}

/// Settings are to be migrated where one of the four secrets stands in the clear
/// with nothing sealed beside it, and nowhere else.
pub proof fn lemma_migration_is_for_secrets_in_the_clear(c: Config, r: bool)
    requires
        call_ensures(Config::needs_secret_migration, (&c,), r),
    ensures
        r <==> c.upload.ftp.password@.len() > 0 && c.upload.ftp.password_encrypted@.len() == 0
            || c.upload.sftp.password@.len() > 0 && c.upload.sftp.password_encrypted@.len() == 0
            || c.upload.sftp.private_key_passphrase@.len() > 0
            && c.upload.sftp.private_key_passphrase_encrypted@.len() == 0
            || c.upload.s3.secret_access_key@.len() > 0
            && c.upload.s3.secret_access_key_encrypted@.len() == 0,
{
}

/// A secret that the user typed is never replaced by the stored one, nor is one
/// that came sealed.
pub proof fn lemma_typed_secret_is_kept(u: UploadConfig, stored: UploadConfig)
    ensures
        u.ftp.password@.len() > 0 || u.ftp.password_encrypted@.len() > 0 ==> with_kept_secrets(
            u,
            stored,
        ).ftp == u.ftp,
        u.sftp.password@.len() > 0 || u.sftp.password_encrypted@.len() > 0 ==> with_kept_secrets(
            u,
            stored,
        ).sftp.password_encrypted == u.sftp.password_encrypted,
        u.sftp.private_key_passphrase@.len() > 0 || u.sftp.private_key_passphrase_encrypted@.len()
            > 0 ==> with_kept_secrets(u, stored).sftp.private_key_passphrase_encrypted
            == u.sftp.private_key_passphrase_encrypted,
        u.s3.secret_access_key@.len() > 0 || u.s3.secret_access_key_encrypted@.len() > 0
            ==> with_kept_secrets(u, stored).s3 == u.s3,
        with_kept_secrets(u, stored).ftp.password == u.ftp.password,
        with_kept_secrets(u, stored).sftp.password == u.sftp.password,
        with_kept_secrets(u, stored).ftp.host == u.ftp.host,
        with_kept_secrets(u, stored).sftp.host == u.sftp.host,
        with_kept_secrets(u, stored).destination == u.destination,
{
}

} // verus!
