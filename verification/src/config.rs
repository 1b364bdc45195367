//! Connection settings of the N3FJP clients, as a consumer persists them.
//! Disabled settings perform no DNS lookup and no I/O.
use vstd::prelude::*;
use crate::text::{chars_of, is_control, is_control_exec, push_str, trim, trim_bounds};

verus! {

/// The settings of one N3FJP connection.
#[derive(Clone, Debug, PartialEq, Eq)]
pub struct Config {
    pub enabled: bool,
    pub host: String,
    pub port: u16,
    pub connect_timeout_ms: u64,
    pub io_timeout_ms: u64,
    pub max_frame_bytes: usize,
}

/// Why settings were refused.
#[derive(Debug, Clone, Copy, PartialEq, Eq, Structural)]
pub enum ConfigError {
    /// A blank host, a host with a control character, or port 0.
    HostAndPort,
    /// A zero connect or I/O timeout.
    Timeouts,
    /// A frame limit outside 64 bytes to 16 MiB.
    FrameLimit,
}

/// The description of a settings refusal.
pub open spec fn config_error_text(e: ConfigError) -> Seq<char> {
    match e {
        ConfigError::HostAndPort => "host and nonzero port required"@,
        ConfigError::Timeouts => "timeouts must be positive"@,
        ConfigError::FrameLimit => "frame limit must be between 64 bytes and 16 MiB"@,
    }
}

impl ConfigError {
    /// A short English description, for logs and error values of callers.
    pub fn message(&self) -> (r: &'static str)
        ensures
            r@ == config_error_text(*self),
    {
        match self {
            ConfigError::HostAndPort => "host and nonzero port required",
            ConfigError::Timeouts => "timeouts must be positive",
            ConfigError::FrameLimit => "frame limit must be between 64 bytes and 16 MiB",
        }
    }
}

/// The smallest frame limit accepted.
pub const MIN_FRAME_BYTES: usize = 64;

/// The largest frame limit accepted: 16 MiB.
pub const MAX_FRAME_BYTES: usize = 16_777_216;

/// What validation says of settings, checking host and port, then the
/// timeouts, then the frame limit.
pub open spec fn validate_spec(c: Config) -> Result<(), ConfigError> {
    if trim(c.host@).len() == 0 || (exists|i: int| 0 <= i < c.host@.len() && is_control(#[trigger] c.host@[i]))
        || c.port == 0 {
        Err(ConfigError::HostAndPort)
    } else if c.connect_timeout_ms == 0 || c.io_timeout_ms == 0 {
        Err(ConfigError::Timeouts)
    } else if !(MIN_FRAME_BYTES <= c.max_frame_bytes <= MAX_FRAME_BYTES) {
        Err(ConfigError::FrameLimit)
    } else {
        Ok(())
    }
}

/// The default settings: disabled, `127.0.0.1` port 1100 (the API), a 3 s
/// connect and 1 s I/O timeout, and a 1 MiB frame limit.
pub open spec fn default_spec(c: Config) -> bool {
    &&& !c.enabled
    &&& c.host@ == "127.0.0.1"@
    &&& c.port == 1100
    &&& c.connect_timeout_ms == 3000
    &&& c.io_timeout_ms == 1000
    &&& c.max_frame_bytes == 1_048_576
}

impl Default for Config {
    fn default() -> (r: Self)
        ensures
            default_spec(r),
    {
        let mut host = String::new();
        push_str(&mut host, "127.0.0.1");
        Config {
            enabled: false,
            host,
            port: 1100,
            connect_timeout_ms: 3000,
            io_timeout_ms: 1000,
            max_frame_bytes: 1_048_576,
        }
    }
}

/// Whether some character of `v` is a control character.
fn any_control(v: &[char]) -> (b: bool)
    ensures
        b == exists|i: int| 0 <= i < v@.len() && is_control(#[trigger] v@[i]),
{
    let mut i: usize = 0;
    while i < v.len()
        invariant
            i <= v@.len(),
            forall|j: int| 0 <= j < i ==> !is_control(#[trigger] v@[j]),
        decreases v@.len() - i,
    {
        if is_control_exec(v[i]) {
            return true;
        }
        i += 1;
    }
    false
}

impl Config {
    /// The default settings with the station-network port, 1000.
    pub fn station_network() -> (r: Self)
        ensures
            !r.enabled,
            r.host@ == "127.0.0.1"@,
            r.port == 1000,
            r.connect_timeout_ms == 3000,
            r.io_timeout_ms == 1000,
            r.max_frame_bytes == 1_048_576,
    {
        let d = Config::default();
        Config { port: 1000, ..d }
    }

    /// Checks the settings: a host that is not blank and has no control
    /// character, a nonzero port, positive timeouts, and a frame limit from
    /// 64 bytes to 16 MiB.
    pub fn validate(&self) -> (r: Result<(), ConfigError>)
        ensures
            r == validate_spec(*self),
    {
        let v = chars_of(self.host.as_str());
        let (from, to) = trim_bounds(&v, 0, v.len());
        assert(v@.subrange(0, v@.len() as int) =~= v@);
        if from == to || any_control(&v) || self.port == 0 {
            return Err(ConfigError::HostAndPort);
        }
        if self.connect_timeout_ms == 0 || self.io_timeout_ms == 0 {
            return Err(ConfigError::Timeouts);
        }
        if self.max_frame_bytes < MIN_FRAME_BYTES || self.max_frame_bytes > MAX_FRAME_BYTES {
            return Err(ConfigError::FrameLimit);
        }
        Ok(())
    }
}

/// The default settings pass validation, whatever port is chosen in place
/// of the API's (the station network's, say), so long as it is not 0.
pub proof fn lemma_default_valid(c: Config)
    requires
        default_spec((Config { port: 1100, ..c })),
        c.port != 0,
    ensures
        validate_spec(c) is Ok,
{
    reveal_strlit("127.0.0.1");
    let h = c.host@;
    assert(h.len() == 9);
    assert(trim(h) == h);
    assert forall|i: int| 0 <= i < h.len() implies !is_control(#[trigger] h[i]) by {}
}

} // verus!
