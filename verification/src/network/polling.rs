//! HTTP polling source: where to ask for instructions and how often.
//!
//! The request itself is made by the caller; this type holds the
//! endpoint, builds the request URL, judges the reply's status and keeps
//! the poll interval the server asks for.

use vstd::prelude::*;
use crate::network::ServerResponse;
use crate::text::trim_trailing;

verus! {

/// Error of a poll.
#[derive(Debug, Clone, Copy, PartialEq, Eq)]
pub enum PollError {
    /// The server answered with a status other than 200.
    BadStatus(u16),
}

/// Instruction source that polls an HTTP server.
pub struct HttpPoller {
    base_url: String,
    device_id: String,
    display_type: String,
    poll_interval_ms: u64,
}

impl HttpPoller {
    /// The server URL, without trailing `/`.
    pub closed spec fn spec_base_url(&self) -> Seq<char> {
        self.base_url@
    }

    /// The device id sent with each poll.
    pub closed spec fn spec_device_id(&self) -> Seq<char> {
        self.device_id@
    }

    /// The display type sent with each poll.
    pub closed spec fn spec_display_type(&self) -> Seq<char> {
        self.display_type@
    }

    /// How long to wait between polls, in milliseconds.
    pub closed spec fn spec_poll_interval_ms(&self) -> u64 {
        self.poll_interval_ms
    }

    /// A poller for `base_url` (trailing `/` removed) on behalf of a device.
    pub fn new(base_url: &str, device_id: &str, display_type: &str, poll_interval_ms: u64) -> (r: Self)
        ensures
            r.spec_base_url() == trim_trailing(base_url@, '/'),
            r.spec_device_id() == device_id@,
            r.spec_display_type() == display_type@,
            r.spec_poll_interval_ms() == poll_interval_ms,
    {
        let n = base_url.unicode_len();
        let mut k = n;
        assert(base_url@.take(n as int) =~= base_url@);
        while k > 0 && base_url.get_char(k - 1) == '/'
            invariant
                k <= n,
                n == base_url@.len(),
                trim_trailing(base_url@.take(k as int), '/') == trim_trailing(base_url@, '/'),
            decreases k,
        {
            assert(base_url@.take(k as int).drop_last() =~= base_url@.take(k as int - 1));
            k = k - 1;
        }
        assert(base_url@.take(n as int) =~= base_url@);
        let trimmed = base_url.substring_char(0, k);
        assert(trimmed@ =~= base_url@.take(k as int));
        HttpPoller {
            base_url: String::from_str(trimmed),
            device_id: String::from_str(device_id),
            display_type: String::from_str(display_type),
            poll_interval_ms,
        }
    }

    /// Change the poll interval.
    pub fn set_poll_interval(&mut self, interval_ms: u64)
        ensures
            final(self).spec_poll_interval_ms() == interval_ms,
            final(self).spec_base_url() == old(self).spec_base_url(),
            final(self).spec_device_id() == old(self).spec_device_id(),
            final(self).spec_display_type() == old(self).spec_display_type(),
    {
        self.poll_interval_ms = interval_ms;
    }

    /// How long the engine should wait before polling again.
    pub fn recommended_interval(&self) -> (r: u64)
        ensures
            r == self.spec_poll_interval_ms(),
    {
        self.poll_interval_ms
    }

    /// The instruction URL for this device, reporting `firmware_version`.
    pub fn instruction_url(&self, firmware_version: &str) -> (url: String)
        ensures
            url@ == self.spec_base_url() + "/api/v1/devices/"@ + self.spec_device_id()
                + "/instruction?display_type="@ + self.spec_display_type()
                + "&firmware_version="@ + firmware_version@,
    {
        let mut url = self.base_url.clone();
        url.append("/api/v1/devices/");
        url.append(self.device_id.as_str());
        url.append("/instruction?display_type=");
        url.append(self.display_type.as_str());
        url.append("&firmware_version=");
        url.append(firmware_version);
        url
    }

    /// Only a 200 reply carries instructions.
    pub fn check_status(status: u16) -> (r: Result<(), PollError>)
        ensures
            status == 200 ==> r is Ok,
            status != 200 ==> r == Err::<(), PollError>(PollError::BadStatus(status)),
    {
        if status != 200 {
            Err(PollError::BadStatus(status))
        } else {
            Ok(())
        }
    }

    /// Take the poll interval the server asked for, if it asked for one.
    pub fn apply_response(&mut self, resp: &ServerResponse)
        ensures
            final(self).spec_poll_interval_ms() == match resp.poll_interval_ms {
                Some(ms) => ms,
                None => old(self).spec_poll_interval_ms(),
            },
            final(self).spec_base_url() == old(self).spec_base_url(),
            final(self).spec_device_id() == old(self).spec_device_id(),
            final(self).spec_display_type() == old(self).spec_display_type(),
    {
        if let Some(interval_ms) = resp.poll_interval_ms {
            self.poll_interval_ms = interval_ms;
        }
    }
}

} // verus!
