//! Configuration of the server's listeners.
use vstd::prelude::*;

verus! {

/// Where the HTTPS listener runs, and the files it reads its certificate and
/// private key from.
#[derive(Debug, Clone)]
pub struct TLS {
    pub port: u16,
    pub certificate: &'static str,
    pub private_key: &'static str,
}

impl TLS {
    pub fn new(port: u16, certificate_path: &'static str, private_key_path: &'static str) -> (r: Self)
        ensures
            r.port == port,
            r.certificate == certificate_path,
            r.private_key == private_key_path,
    {
        TLS { port, certificate: certificate_path, private_key: private_key_path }
    }
}

} // verus!
