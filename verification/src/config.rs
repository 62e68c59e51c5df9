//! Process configuration: push credential, cipher key material, emergency
//! keywords and the modem device settings.

use vstd::prelude::*;

verus! {

/// Full configuration handed to each component at construction.  It is
/// replaced wholesale on update; persistence is done by the caller.
#[derive(Clone)]
pub struct Config {
    /// Push service account key (appears in the delivery URL path).
    pub bark_key: String,
    /// Cipher key; must be exactly 16 bytes before any push is built.
    pub aes_key: String,
    /// Cipher initialization vector; must be exactly 16 bytes before any
    /// push is built.  It is a fixed value reused across pushes, as the
    /// receiving service's protocol requires.
    pub aes_iv: String,
    /// A message body containing any of these keywords is pushed as an
    /// emergency notification.
    pub emergency_keywords: Vec<String>,
    /// Serial device path of the modem.
    pub modem_device: String,
    /// Serial baud rate.
    pub baud_rate: u32,
}

/// Default modem device path.
pub fn default_modem_device() -> (r: String)
    ensures
        r@ == "/dev/ttyUSB2"@,
{
    let r = "/dev/ttyUSB2".to_owned();
    r
}

/// Default serial baud rate.
pub fn default_baud_rate() -> (r: u32)
    ensures
        r == 115200,
{
    115200
}

} // verus!
