//! Client configuration.

use vstd::prelude::*;
use vstd::string::*;

verus! {

/// Four mebibytes: the default for the upload threshold, the block size and
/// the chunk size.
pub const FOUR_MEBIBYTES: u32 = 4194304u32;

/// The settings that steer requests and uploads.
#[derive(Debug)]
pub struct Config {
    use_https: bool,
    upload_token_lifetime: u64,
    batch_max_operation_size: usize,
    http_request_retries: usize,
    http_request_retry_delay: u64,
    http_request_timeout: u64,
    upload_threshold: u32,
    upload_block_size: u32,
    upload_chunk_size: u32,
    upload_logger_enabled: bool,
    uc_host: String,
    rs_host: String,
    rsf_host: String,
    api_host: String,
}

/// The mathematical value of a [`Config`].
pub struct ConfigView {
    pub use_https: bool,
    pub upload_token_lifetime: u64,
    pub batch_max_operation_size: usize,
    pub http_request_retries: usize,
    pub http_request_retry_delay: u64,
    pub http_request_timeout: u64,
    pub upload_threshold: u32,
    pub upload_block_size: u32,
    pub upload_chunk_size: u32,
    pub upload_logger_enabled: bool,
    pub uc_host: Seq<char>,
    pub rs_host: Seq<char>,
    pub rsf_host: Seq<char>,
    pub api_host: Seq<char>,
}

/// The configuration that [`Config::default`] gives.
pub open spec fn default_view() -> ConfigView {
    ConfigView {
        use_https: true,
        upload_token_lifetime: 3600,
        batch_max_operation_size: 1000,
        http_request_retries: 3,
        http_request_retry_delay: 500,
        http_request_timeout: 30000,
        upload_threshold: FOUR_MEBIBYTES,
        upload_block_size: FOUR_MEBIBYTES,
        upload_chunk_size: FOUR_MEBIBYTES,
        upload_logger_enabled: true,
        uc_host: "uc.qbox.me"@,
        rs_host: "rs.qbox.me"@,
        rsf_host: "rsf.qbox.me"@,
        api_host: "api.qiniu.com"@,
    }
}

/// The scheme prefix of URLs: `https://` or `http://`.
pub open spec fn scheme_prefix(use_https: bool) -> Seq<char> {
    if use_https {
        "https://"@
    } else {
        "http://"@
    }
}

/// The URL of `host` under the scheme that `use_https` selects.
pub open spec fn host_url(use_https: bool, host: Seq<char>) -> Seq<char> {
    scheme_prefix(use_https) + host
}

/// Builds the URL of `host` under the scheme that `use_https` selects.
pub fn make_host_url(use_https: bool, host: &str) -> (r: String)
    ensures
        r@ == host_url(use_https, host@),
{
    let mut r = if use_https {
        "https://".to_owned()
    } else {
        "http://".to_owned()
    };
    r.append(host);
    r
}

impl View for Config {
    type V = ConfigView;

    closed spec fn view(&self) -> ConfigView {
        ConfigView {
            use_https: self.use_https,
            upload_token_lifetime: self.upload_token_lifetime,
            batch_max_operation_size: self.batch_max_operation_size,
            http_request_retries: self.http_request_retries,
            http_request_retry_delay: self.http_request_retry_delay,
            http_request_timeout: self.http_request_timeout,
            upload_threshold: self.upload_threshold,
            upload_block_size: self.upload_block_size,
            upload_chunk_size: self.upload_chunk_size,
            upload_logger_enabled: self.upload_logger_enabled,
            uc_host: self.uc_host@,
            rs_host: self.rs_host@,
            rsf_host: self.rsf_host@,
            api_host: self.api_host@,
        }
    }
}

impl Clone for Config {
    fn clone(&self) -> (r: Self)
        ensures
            r@ == self@,
    {
        Config {
            use_https: self.use_https,
            upload_token_lifetime: self.upload_token_lifetime,
            batch_max_operation_size: self.batch_max_operation_size,
            http_request_retries: self.http_request_retries,
            http_request_retry_delay: self.http_request_retry_delay,
            http_request_timeout: self.http_request_timeout,
            upload_threshold: self.upload_threshold,
            upload_block_size: self.upload_block_size,
            upload_chunk_size: self.upload_chunk_size,
            upload_logger_enabled: self.upload_logger_enabled,
            uc_host: self.uc_host.clone(),
            rs_host: self.rs_host.clone(),
            rsf_host: self.rsf_host.clone(),
            api_host: self.api_host.clone(),
        }
    }
}

impl Default for Config {
    fn default() -> (r: Self)
        ensures
            r@ == default_view(),
    {
        Config {
            use_https: true,
            upload_token_lifetime: 3600,
            batch_max_operation_size: 1000,
            http_request_retries: 3,
            http_request_retry_delay: 500,
            http_request_timeout: 30000,
            upload_threshold: FOUR_MEBIBYTES,
            upload_block_size: FOUR_MEBIBYTES,
            upload_chunk_size: FOUR_MEBIBYTES,
            upload_logger_enabled: true,
            uc_host: "uc.qbox.me".to_owned(),
            rs_host: "rs.qbox.me".to_owned(),
            rsf_host: "rsf.qbox.me".to_owned(),
            api_host: "api.qiniu.com".to_owned(),
        }
    }
}

impl Config {
    /// Whether URLs use HTTPS.
    pub fn use_https(&self) -> (r: bool)
        ensures
            r == self@.use_https,
    {
        self.use_https
    }

    /// How long an upload token stays valid, in seconds.
    pub fn upload_token_lifetime(&self) -> (r: u64)
        ensures
            r == self@.upload_token_lifetime,
    {
        self.upload_token_lifetime
    }

    /// The cap on the operations of one batch call.
    pub fn batch_max_operation_size(&self) -> (r: usize)
        ensures
            r == self@.batch_max_operation_size,
    {
        self.batch_max_operation_size
    }

    /// How often a failed request is tried again on one host.
    pub fn http_request_retries(&self) -> (r: usize)
        ensures
            r == self@.http_request_retries,
    {
        self.http_request_retries
    }

    /// The pause before a request is tried again, in milliseconds.
    pub fn http_request_retry_delay(&self) -> (r: u64)
        ensures
            r == self@.http_request_retry_delay,
    {
        self.http_request_retry_delay
    }

    /// The time one request may take, in milliseconds.
    pub fn http_request_timeout(&self) -> (r: u64)
        ensures
            r == self@.http_request_timeout,
    {
        self.http_request_timeout
    }

    /// The size up to which data is uploaded in one form request.
    pub fn upload_threshold(&self) -> (r: u32)
        ensures
            r == self@.upload_threshold,
    {
        self.upload_threshold
    }

    /// The size of the blocks of a resumable upload.
    pub fn upload_block_size(&self) -> (r: u32)
        ensures
            r == self@.upload_block_size,
    {
        self.upload_block_size
    }

    /// The size of the chunks a block is sent in.
    pub fn upload_chunk_size(&self) -> (r: u32)
        ensures
            r == self@.upload_chunk_size,
    {
        self.upload_chunk_size
    }

    /// Whether uploads are logged.
    pub fn upload_logger_enabled(&self) -> (r: bool)
        ensures
            r == self@.upload_logger_enabled,
    {
        self.upload_logger_enabled
    }

    /// The URL of the host that answers region and bucket queries.
    pub fn uc_url(&self) -> (r: String)
        ensures
            r@ == host_url(self@.use_https, self@.uc_host),
    {
        make_host_url(self.use_https, self.uc_host.as_str())
    }

    /// The URL of the resource management host that serves when a region
    /// names none.
    pub fn rs_url(&self) -> (r: String)
        ensures
            r@ == host_url(self@.use_https, self@.rs_host),
    {
        make_host_url(self.use_https, self.rs_host.as_str())
    }

    /// The URL of the listing host that serves when a region names none.
    pub fn rsf_url(&self) -> (r: String)
        ensures
            r@ == host_url(self@.use_https, self@.rsf_host),
    {
        make_host_url(self.use_https, self.rsf_host.as_str())
    }

    /// The URL of the API host that serves when a region names none.
    pub fn api_url(&self) -> (r: String)
        ensures
            r@ == host_url(self@.use_https, self@.api_host),
    {
        make_host_url(self.use_https, self.api_host.as_str())
    }
}

/// Builds a [`Config`] from the default by changing single settings.
pub struct ConfigBuilder {
    config: Config,
}

impl ConfigBuilder {
    /// The configuration built so far.
    pub closed spec fn pending(&self) -> ConfigView {
        self.config@
    }

    /// Starts from the default configuration.
    pub fn default() -> (r: Self)
        ensures
            r.pending() == default_view(),
    {
        ConfigBuilder { config: Config::default() }
    }

    /// Chooses between HTTPS and HTTP.
    pub fn use_https(self, use_https: bool) -> (r: Self)
        ensures
            r.pending() == (ConfigView { use_https, ..self.pending() }),
    {
        let mut config = self.config;
        config.use_https = use_https;
        ConfigBuilder { config }
    }

    /// Sets the lifetime of upload tokens, in seconds.
    pub fn upload_token_lifetime(self, seconds: u64) -> (r: Self)
        ensures
            r.pending() == (ConfigView { upload_token_lifetime: seconds, ..self.pending() }),
    {
        let mut config = self.config;
        config.upload_token_lifetime = seconds;
        ConfigBuilder { config }
    }

    /// Sets how often a failed request is tried again on one host.
    pub fn http_request_retries(self, retries: usize) -> (r: Self)
        ensures
            r.pending() == (ConfigView { http_request_retries: retries, ..self.pending() }),
    {
        let mut config = self.config;
        config.http_request_retries = retries;
        ConfigBuilder { config }
    }

    /// Sets the pause before a retry, in milliseconds.
    pub fn http_request_retry_delay(self, milliseconds: u64) -> (r: Self)
        ensures
            r.pending() == (ConfigView { http_request_retry_delay: milliseconds, ..self.pending() }),
    {
        let mut config = self.config;
        config.http_request_retry_delay = milliseconds;
        ConfigBuilder { config }
    }

    /// Sets the time one request may take, in milliseconds.
    pub fn http_request_timeout(self, milliseconds: u64) -> (r: Self)
        ensures
            r.pending() == (ConfigView { http_request_timeout: milliseconds, ..self.pending() }),
    {
        let mut config = self.config;
        config.http_request_timeout = milliseconds;
        ConfigBuilder { config }
    }

    /// Sets the size up to which data is uploaded in one form request.
    pub fn upload_threshold(self, threshold: u32) -> (r: Self)
        ensures
            r.pending() == (ConfigView { upload_threshold: threshold, ..self.pending() }),
    {
        let mut config = self.config;
        config.upload_threshold = threshold;
        ConfigBuilder { config }
    }

    /// Sets the size of the blocks of a resumable upload.
    pub fn upload_block_size(self, size: u32) -> (r: Self)
        ensures
            r.pending() == (ConfigView { upload_block_size: size, ..self.pending() }),
    {
        let mut config = self.config;
        config.upload_block_size = size;
        ConfigBuilder { config }
    }

    /// Sets the size of the chunks a block is sent in.
    pub fn upload_chunk_size(self, size: u32) -> (r: Self)
        ensures
            r.pending() == (ConfigView { upload_chunk_size: size, ..self.pending() }),
    {
        let mut config = self.config;
        config.upload_chunk_size = size;
        ConfigBuilder { config }
    }

    /// Switches upload logging on or off.
    pub fn upload_logger(self, enabled: bool) -> (r: Self)
        ensures
            r.pending() == (ConfigView { upload_logger_enabled: enabled, ..self.pending() }),
    {
        let mut config = self.config;
        config.upload_logger_enabled = enabled;
        ConfigBuilder { config }
    }

    /// Sets the host that answers region and bucket queries.
    pub fn uc_host(self, host: &str) -> (r: Self)
        ensures
            r.pending() == (ConfigView { uc_host: host@, ..self.pending() }),
    {
        let mut config = self.config;
        config.uc_host = host.to_owned();
        ConfigBuilder { config }
    }

    /// Sets the fallback resource management host.
    pub fn rs_host(self, host: &str) -> (r: Self)
        ensures
            r.pending() == (ConfigView { rs_host: host@, ..self.pending() }),
    {
        let mut config = self.config;
        config.rs_host = host.to_owned();
        ConfigBuilder { config }
    }

    /// Sets the fallback API host.
    pub fn api_host(self, host: &str) -> (r: Self)
        ensures
            r.pending() == (ConfigView { api_host: host@, ..self.pending() }),
    {
        let mut config = self.config;
        config.api_host = host.to_owned();
        ConfigBuilder { config }
    }

    /// The configuration as set.
    pub fn build(self) -> (r: Config)
        ensures
            r@ == self.pending(),
    {
        self.config
    }
}

} // verus!
