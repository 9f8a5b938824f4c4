//! The service's configuration surface: listening address and port, the
//! poll interval, and each subscriber's buffer capacity. Parsing the
//! command line happens outside the library; the values live here.
use crate::text::append_u64;
use crate::text::dec_digits;
use vstd::prelude::*;

verus! {

/// The service's configuration.
pub struct PepeArgs {
    /// The port to listen on.
    pub port: usize,
    /// The address to listen on.
    pub address: String,
    /// How many seconds to wait between upstream polls.
    pub polling_interval: usize,
    /// Each subscriber's buffer capacity; a good rule of thumb is the
    /// expected number of receivers times two plus one.
    pub channel_capacity: usize,
}

impl PepeArgs {
    /// The address and port to bind, as one string.
    pub fn bind_address(&self) -> (r: String)
        ensures
            r@ == self.address@ + ":"@ + dec_digits(self.port as nat),
    {
        let mut s = self.address.clone();
        s.append(":");
        append_u64(&mut s, self.port as u64);
        s
    }

    /// The lines that describe this configuration, for the startup log.
    pub fn log_configuration(&self) -> (r: Vec<String>)
        ensures
            r@.len() == 3,
            r@[0]@ == "Starting server on port "@ + self.address@ + ":"@ + dec_digits(
                self.port as nat,
            ),
            r@[1]@ == "Channel capacity set to "@ + dec_digits(self.channel_capacity as nat),
            r@[2]@ == "Swedish Radio API polling interval "@ + dec_digits(
                self.polling_interval as nat,
            ),
    {
        let mut lines: Vec<String> = Vec::new();

        let mut bind = String::from_str("Starting server on port ");
        bind.append(self.bind_address().as_str());
        proof {
            assert(bind@ =~= "Starting server on port "@ + self.address@ + ":"@ + dec_digits(
                self.port as nat,
            ));
        }
        lines.push(bind);

        let mut cap = String::from_str("Channel capacity set to ");
        append_u64(&mut cap, self.channel_capacity as u64);
        lines.push(cap);

        let mut interval = String::from_str("Swedish Radio API polling interval ");
        append_u64(&mut interval, self.polling_interval as u64);
        lines.push(interval);

        lines
    }
}

impl Default for PepeArgs {
    /// The defaults the command line starts from.
    fn default() -> (r: PepeArgs)
        ensures
            r.port == 8080,
            r.address@ == "0.0.0.0"@,
            r.polling_interval == 10,
            r.channel_capacity == 32,
    {
        PepeArgs {
            port: 8080,
            address: String::from_str("0.0.0.0"),
            polling_interval: 10,
            channel_capacity: 32,
        }
    }
}

} // verus!
